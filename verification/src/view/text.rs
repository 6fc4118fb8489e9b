//! A view that shows a line of text.

use vstd::prelude::*;
use vstd::view::View as _;
use crate::cx::Cx;
use crate::cx::next_after;
use crate::event::EventResult;
use crate::event::Message;
use crate::id::Id;
use crate::view::View;
use crate::widget::text::TextWidget;

verus! {

/// A view that shows `text`.
pub struct Text {
    pub text: String,
}

/// A view that shows `text`.
pub fn text(shown: String) -> (view: Text)
    ensures
        view.text == shown,
{
    Text { text: shown }
}

impl<T, A> View<T, A> for Text {
    type State = ();

    type Element = TextWidget;

    open spec fn wf(&self) -> bool {
        true
    }

    open spec fn coherent(&self, state: ()) -> bool {
        true
    }

    open spec fn consistent(&self, state: (), element: TextWidget) -> bool {
        true
    }

    open spec fn idle(&self, state: ()) -> bool {
        true
    }

    open spec fn unchanged(&self, prev: Self, app: T, state: (), element: TextWidget) -> bool {
        self.text@ == prev.text@
    }

    open spec fn built(
        &self,
        cx0: Cx,
        app0: T,
        cx1: Cx,
        app1: T,
        id: Id,
        state: (),
        element: TextWidget,
    ) -> bool {
        &&& id.raw() == cx0.next()
        &&& cx1.next() == next_after(cx0.next())
        &&& cx1.pending() == cx0.pending()
        &&& app1 == app0
        &&& element.shown() == self.text@
    }

    open spec fn rebuilt(
        &self,
        prev: Self,
        cx0: Cx,
        app0: T,
        id0: Id,
        state0: (),
        element0: TextWidget,
        cx1: Cx,
        app1: T,
        id1: Id,
        state1: (),
        element1: TextWidget,
        changed: bool,
    ) -> bool {
        &&& changed == (self.text@ != prev.text@)
        &&& cx1.agrees(cx0)
        &&& app1 == app0
        &&& id1 == id0
        &&& if changed {
            element1.shown() == self.text@
        } else {
            element1 == element0
        }
    }

    open spec fn dispatched(
        &self,
        id_path: Seq<Id>,
        message: Message,
        app0: T,
        state0: (),
        app1: T,
        state1: (),
        result: EventResult<A>,
    ) -> bool {
        app1 == app0 && result is Stale
    }

    open spec fn torn_down(&self, state0: (), state1: ()) -> bool {
        true
    }

    fn build(&self, cx: &mut Cx, app_state: &mut T) -> (out: (Id, (), TextWidget)) {
        let id = cx.new_id();
        let element = TextWidget::new(self.text.clone());
        (id, (), element)
    }

    fn rebuild(
        &self,
        cx: &mut Cx,
        prev: &Self,
        id: &mut Id,
        state: &mut (),
        element: &mut TextWidget,
        app_state: &mut T,
    ) -> (changed: bool) {
        if prev.text != self.text {
            element.set_text(self.text.clone());
            true
        } else {
            false
        }
    }

    fn event(
        &self,
        id_path: &[Id],
        state: &mut (),
        message: Message,
        app_state: &mut T,
    ) -> (result: EventResult<A>) {
        EventResult::Stale
    }

    fn teardown(&self, state: &mut ()) {
    }
}

} // verus!
