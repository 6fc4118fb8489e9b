//! A view that shows where in the tree it stands.

use vstd::prelude::*;
use vstd::view::View as _;
use vstd::string::StringExecFns;
use crate::cx::Cx;
use crate::cx::next_after;
use crate::event::EventResult;
use crate::event::Message;
use crate::id::Id;
use crate::view::View;
use crate::widget::text::TextWidget;

verus! {

/// A view that shows its own identity path, one number per identity,
/// separated by colons.
pub struct IdPrinter;

/// The character of the decimal digit `d`.
pub open spec fn digit_char(d: nat) -> char {
    if d == 0 {
        '0'
    } else if d == 1 {
        '1'
    } else if d == 2 {
        '2'
    } else if d == 3 {
        '3'
    } else if d == 4 {
        '4'
    } else if d == 5 {
        '5'
    } else if d == 6 {
        '6'
    } else if d == 7 {
        '7'
    } else if d == 8 {
        '8'
    } else {
        '9'
    }
}

/// The decimal numeral of `n`, without leading zeros.
pub open spec fn decimal(n: nat) -> Seq<char>
    decreases n,
{
    if n < 10 {
        seq![digit_char(n)]
    } else {
        decimal(n / 10).push(digit_char(n % 10))
    }
}

/// The numerals of the identities of `path`, separated by colons.
pub open spec fn path_text(path: Seq<Id>) -> Seq<char>
    decreases path.len(),
{
    if path.len() == 0 {
        Seq::<char>::empty()
    } else if path.len() == 1 {
        decimal(path[0].raw() as nat)
    } else {
        path_text(path.drop_last()) + seq![':'] + decimal(path.last().raw() as nat)
    }
}

fn digit_str(d: u64) -> (s: &'static str)
    requires
        d < 10,
    ensures
        s@ == seq![digit_char(d as nat)],
{
    proof {
        reveal_strlit("0");
        reveal_strlit("1");
        reveal_strlit("2");
        reveal_strlit("3");
        reveal_strlit("4");
        reveal_strlit("5");
        reveal_strlit("6");
        reveal_strlit("7");
        reveal_strlit("8");
        reveal_strlit("9");
    }
    let s = if d == 0 {
        "0"
    } else if d == 1 {
        "1"
    } else if d == 2 {
        "2"
    } else if d == 3 {
        "3"
    } else if d == 4 {
        "4"
    } else if d == 5 {
        "5"
    } else if d == 6 {
        "6"
    } else if d == 7 {
        "7"
    } else if d == 8 {
        "8"
    } else {
        "9"
    };
    assert(s@ =~= seq![digit_char(d as nat)]);
    s
}

/// Appends the decimal numeral of `n` to `out`.
pub fn push_decimal(out: &mut String, n: u64)
    ensures
        final(out)@ == old(out)@ + decimal(n as nat),
    decreases n,
{
    if n >= 10 {
        push_decimal(out, n / 10);
    }
    out.append(digit_str(n % 10));
    assert(out@ =~= old(out)@ + decimal(n as nat));
}

/// The text that `IdPrinter` shows for `path`.
pub fn print_path(path: &Vec<Id>) -> (text: String)
    ensures
        text@ == path_text(path@),
{
    let mut text = String::new();
    let mut i: usize = 0;
    while i < path.len()
        invariant
            i <= path.len(),
            text@ == path_text(path@.subrange(0, i as int)),
        decreases path.len() - i,
    {
        if i > 0 {
            text.append(":");
        }
        push_decimal(&mut text, path[i].to_raw());
        proof {
            reveal_strlit(":");
            let before = path@.subrange(0, i as int);
            let now = path@.subrange(0, i + 1);
            assert(now.drop_last() =~= before);
            assert(now.last() == path@[i as int]);
            assert(":"@ =~= seq![':']);
            assert(text@ =~= path_text(now));
        }
        i += 1;
    }
    assert(path@.subrange(0, path@.len() as int) =~= path@);
    text
}

impl<T, A> View<T, A> for IdPrinter {
    type State = ();

    type Element = TextWidget;

    open spec fn wf(&self) -> bool {
        true
    }

    open spec fn coherent(&self, state: ()) -> bool {
        true
    }

    open spec fn consistent(&self, state: (), element: TextWidget) -> bool {
        true
    }

    open spec fn idle(&self, state: ()) -> bool {
        true
    }

    open spec fn unchanged(&self, prev: Self, app: T, state: (), element: TextWidget) -> bool {
        true
    }

    open spec fn built(
        &self,
        cx0: Cx,
        app0: T,
        cx1: Cx,
        app1: T,
        id: Id,
        state: (),
        element: TextWidget,
    ) -> bool {
        &&& id.raw() == cx0.next()
        &&& cx1.next() == next_after(cx0.next())
        &&& cx1.pending() == cx0.pending()
        &&& app1 == app0
        &&& element.shown() == path_text(cx0.path().push(id))
    }

    open spec fn rebuilt(
        &self,
        prev: Self,
        cx0: Cx,
        app0: T,
        id0: Id,
        state0: (),
        element0: TextWidget,
        cx1: Cx,
        app1: T,
        id1: Id,
        state1: (),
        element1: TextWidget,
        changed: bool,
    ) -> bool {
        &&& !changed
        &&& cx1.next() == cx0.next()
        &&& cx1.pending() == cx0.pending()
        &&& app1 == app0
        &&& id1 == id0
        &&& element1 == element0
    }

    open spec fn dispatched(
        &self,
        id_path: Seq<Id>,
        message: Message,
        app0: T,
        state0: (),
        app1: T,
        state1: (),
        result: EventResult<A>,
    ) -> bool {
        app1 == app0 && result is Stale
    }

    open spec fn torn_down(&self, state0: (), state1: ()) -> bool {
        true
    }

    fn build(&self, cx: &mut Cx, app_state: &mut T) -> (out: (Id, (), TextWidget)) {
        let id = cx.new_id();
        cx.push(id);
        let element = TextWidget::new(print_path(cx.id_path()));
        cx.pop();
        assert(old(cx).path().push(id).drop_last() =~= old(cx).path());
        (id, (), element)
    }

    fn rebuild(
        &self,
        cx: &mut Cx,
        prev: &Self,
        id: &mut Id,
        state: &mut (),
        element: &mut TextWidget,
        app_state: &mut T,
    ) -> (changed: bool) {
        false
    }

    fn event(
        &self,
        id_path: &[Id],
        state: &mut (),
        message: Message,
        app_state: &mut T,
    ) -> (result: EventResult<A>) {
        EventResult::Stale
    }

    fn teardown(&self, state: &mut ()) {
    }
}

} // verus!
