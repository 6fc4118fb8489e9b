//! A view that shows a button.

use vstd::prelude::*;
use vstd::view::View as _;
use std::marker::PhantomData;
use crate::cx::Cx;
use crate::cx::next_after;
use crate::event::EventResult;
use crate::event::Message;
use crate::id::Id;
use crate::view::View;

verus! {

/// A button with a label. A message that reaches the button is a click:
/// `on_click` makes the next application state from the current one, and
/// the action that the click raises.
pub struct Button<T, A, F> {
    pub label: String,
    pub on_click: F,
    pub phantom: PhantomData<(T, A)>,
}

/// A button with the given label and click handler.
pub fn button<T, A, F: Fn(&T) -> (T, A)>(label: String, on_click: F) -> (view: Button<T, A, F>)
    ensures
        view.label == label,
        view.on_click == on_click,
{
    Button { label, on_click, phantom: PhantomData }
}

impl<T, A, F: Fn(&T) -> (T, A)> View<T, A> for Button<T, A, F> {
    type State = ();

    type Element = crate::widget::button::Button;

    open spec fn wf(&self) -> bool {
        forall|app: T| call_requires(self.on_click, (&app,))
    }

    open spec fn coherent(&self, state: ()) -> bool {
        true
    }

    open spec fn consistent(&self, state: (), element: Self::Element) -> bool {
        true
    }

    open spec fn idle(&self, state: ()) -> bool {
        true
    }

    open spec fn unchanged(&self, prev: Self, app: T, state: (), element: Self::Element) -> bool {
        self.label@ == prev.label@
    }

    open spec fn built(
        &self,
        cx0: Cx,
        app0: T,
        cx1: Cx,
        app1: T,
        id: Id,
        state: (),
        element: Self::Element,
    ) -> bool {
        &&& id.raw() == cx0.next()
        &&& cx1.next() == next_after(cx0.next())
        &&& cx1.pending() == cx0.pending()
        &&& app1 == app0
        &&& element.shown() == self.label@
        &&& element.path() == cx0.path().push(id)
    }

    open spec fn rebuilt(
        &self,
        prev: Self,
        cx0: Cx,
        app0: T,
        id0: Id,
        state0: (),
        element0: Self::Element,
        cx1: Cx,
        app1: T,
        id1: Id,
        state1: (),
        element1: Self::Element,
        changed: bool,
    ) -> bool {
        &&& changed == (self.label@ != prev.label@)
        &&& cx1.agrees(cx0)
        &&& app1 == app0
        &&& id1 == id0
        &&& if changed {
            element1.shown() == self.label@ && element1.path() == element0.path()
        } else {
            element1 == element0
        }
    }

    open spec fn dispatched(
        &self,
        id_path: Seq<Id>,
        message: Message,
        app0: T,
        state0: (),
        app1: T,
        state1: (),
        result: EventResult<A>,
    ) -> bool {
        if id_path.len() == 0 {
            exists|out: (T, A)|
                {
                    &&& #[trigger] call_ensures(self.on_click, (&app0,), out)
                    &&& app1 == out.0
                    &&& result == EventResult::Action(out.1)
                }
        } else {
            app1 == app0 && result is Stale
        }
    }

    open spec fn torn_down(&self, state0: (), state1: ()) -> bool {
        true
    }

    fn build(&self, cx: &mut Cx, app_state: &mut T) -> (out: (Id, (), Self::Element)) {
        let id = cx.new_id();
        cx.push(id);
        let element = crate::widget::button::Button::new(cx.id_path(), self.label.clone());
        cx.pop();
        assert(old(cx).path().push(id).drop_last() =~= old(cx).path());
        (id, (), element)
    }

    fn rebuild(
        &self,
        cx: &mut Cx,
        prev: &Self,
        id: &mut Id,
        state: &mut (),
        element: &mut Self::Element,
        app_state: &mut T,
    ) -> (changed: bool) {
        if prev.label != self.label {
            element.set_label(self.label.clone());
            true
        } else {
            false
        }
    }

    fn event(
        &self,
        id_path: &[Id],
        state: &mut (),
        message: Message,
        app_state: &mut T,
    ) -> (result: EventResult<A>) {
        if id_path.len() == 0 {
            let (next, action) = (self.on_click)(&*app_state);
            *app_state = next;
            EventResult::Action(action)
        } else {
            EventResult::Stale
        }
    }

    fn teardown(&self, state: &mut ()) {
    }
}

} // verus!
