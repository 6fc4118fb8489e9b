//! A view that puts its child into a scrolling container.

use vstd::prelude::*;
use vstd::view::View as _;
use std::marker::PhantomData;
use crate::cx::Cx;
use crate::event::EventResult;
use crate::event::Message;
use crate::id::Id;
use crate::view::View;
use crate::widget::Widget;

verus! {

/// The view that `scroll_view` makes.
pub struct ScrollView<T, A, C> {
    pub child: C,
    pub phantom: PhantomData<(T, A)>,
}

/// A scrolling container around `child`.
pub fn scroll_view<T, A, C>(child: C) -> (view: ScrollView<T, A, C>)
    ensures
        view.child == child,
{
    ScrollView::new(child)
}

impl<T, A, C> ScrollView<T, A, C> {
    /// See `scroll_view`.
    pub fn new(child: C) -> (view: Self)
        ensures
            view.child == child,
    {
        ScrollView { child, phantom: PhantomData }
    }
}

impl<T, A, C: View<T, A>> View<T, A> for ScrollView<T, A, C> {
    type State = C::State;

    type Element = crate::widget::scroll_view::ScrollView<C::Element>;

    open spec fn wf(&self) -> bool {
        self.child.wf()
    }

    open spec fn coherent(&self, state: Self::State) -> bool {
        self.child.coherent(state)
    }

    open spec fn consistent(&self, state: Self::State, element: Self::Element) -> bool {
        self.child.consistent(state, element.child.widget)
    }

    open spec fn idle(&self, state: Self::State) -> bool {
        self.child.idle(state)
    }

    open spec fn unchanged(
        &self,
        prev: Self,
        app: T,
        state: Self::State,
        element: Self::Element,
    ) -> bool {
        self.child.unchanged(prev.child, app, state, element.child.widget)
    }

    open spec fn built(
        &self,
        cx0: Cx,
        app0: T,
        cx1: Cx,
        app1: T,
        id: Id,
        state: Self::State,
        element: Self::Element,
    ) -> bool {
        &&& element.child.needs_update
        &&& self.child.built(cx0, app0, cx1, app1, id, state, element.child.widget)
    }

    open spec fn rebuilt(
        &self,
        prev: Self,
        cx0: Cx,
        app0: T,
        id0: Id,
        state0: Self::State,
        element0: Self::Element,
        cx1: Cx,
        app1: T,
        id1: Id,
        state1: Self::State,
        element1: Self::Element,
        changed: bool,
    ) -> bool {
        &&& element1.child.needs_update == (element0.child.needs_update || changed)
        &&& self.child.rebuilt(
            prev.child,
            cx0,
            app0,
            id0,
            state0,
            element0.child.widget,
            cx1,
            app1,
            id1,
            state1,
            element1.child.widget,
            changed,
        )
    }

    open spec fn dispatched(
        &self,
        id_path: Seq<Id>,
        message: Message,
        app0: T,
        state0: Self::State,
        app1: T,
        state1: Self::State,
        result: EventResult<A>,
    ) -> bool {
        self.child.dispatched(id_path, message, app0, state0, app1, state1, result)
    }

    open spec fn torn_down(&self, state0: Self::State, state1: Self::State) -> bool {
        self.child.torn_down(state0, state1)
    }

    fn build(&self, cx: &mut Cx, app_state: &mut T) -> (out: (Id, Self::State, Self::Element)) {
        let (id, child_state, child_element) = self.child.build(cx, app_state);
        let element = crate::widget::scroll_view::ScrollView::new(child_element);
        (id, child_state, element)
    }

    fn rebuild(
        &self,
        cx: &mut Cx,
        prev: &Self,
        id: &mut Id,
        state: &mut Self::State,
        element: &mut Self::Element,
        app_state: &mut T,
    ) -> (changed: bool) {
        let pod = element.child_mut();
        let changed = self.child.rebuild(
            cx,
            &prev.child,
            id,
            state,
            pod.downcast_mut(),
            app_state,
        );
        if changed {
            pod.request_update();
        }
        changed
    }

    fn event(
        &self,
        id_path: &[Id],
        state: &mut Self::State,
        message: Message,
        app_state: &mut T,
    ) -> (result: EventResult<A>) {
        self.child.event(id_path, state, message, app_state)
    }

    fn teardown(&self, state: &mut Self::State) {
        self.child.teardown(state);
    }
}

} // verus!
