//! A view that owns state of its own and shows a child over that state.

use vstd::prelude::*;
use vstd::view::View as _;
use std::marker::PhantomData;
use crate::cx::Cx;
use crate::event::EventResult;
use crate::event::Message;
use crate::id::Id;
use crate::view::View;

verus! {

/// A view with local state. `f_init` makes the state when the node is
/// constructed; `f` makes the child view from the application state and the
/// local state in every pass. The child reads and changes the local state
/// only; the application state is out of its reach.
pub struct LocalState<S, V, FInit, F> {
    pub f_init: FInit,
    pub f: F,
    pub phantom: PhantomData<(S, V)>,
}

/// What `LocalState` retains: the local state, and the child with what the
/// child retains.
pub struct LocalStateState<S, A, V: View<S, A>> {
    pub local_state: S,
    pub view: V,
    pub view_state: V::State,
}

impl<S, V, FInit, F> LocalState<S, V, FInit, F> {
    /// A view with local state.
    pub fn new(f_init: FInit, f: F) -> (view: Self)
        ensures
            view.f_init == f_init,
            view.f == f,
    {
        LocalState { f_init, f, phantom: PhantomData }
    }
}

impl<T, A, S, V, FInit, F> View<T, A> for LocalState<S, V, FInit, F> where
    V: View<S, A>,
    FInit: Fn() -> S,
    F: Fn(&T, &S) -> V,
 {
    type State = LocalStateState<S, A, V>;

    type Element = V::Element;

    open spec fn wf(&self) -> bool {
        &&& call_requires(self.f_init, ())
        &&& forall|app: T, local: S| call_requires(self.f, (&app, &local))
        &&& forall|app: T, local: S, view: V|
            call_ensures(self.f, (&app, &local), view) ==> view.wf()
    }

    open spec fn coherent(&self, state: Self::State) -> bool {
        state.view.wf() && state.view.coherent(state.view_state)
    }

    open spec fn consistent(&self, state: Self::State, element: Self::Element) -> bool {
        state.view.consistent(state.view_state, element)
    }

    open spec fn idle(&self, state: Self::State) -> bool {
        state.view.idle(state.view_state)
    }

    open spec fn unchanged(
        &self,
        prev: Self,
        app: T,
        state: Self::State,
        element: Self::Element,
    ) -> bool {
        forall|view: V| #[trigger]
            call_ensures(self.f, (&app, &state.local_state), view) ==> view.unchanged(
                state.view,
                state.local_state,
                state.view_state,
                element,
            )
    }

    open spec fn built(
        &self,
        cx0: Cx,
        app0: T,
        cx1: Cx,
        app1: T,
        id: Id,
        state: Self::State,
        element: Self::Element,
    ) -> bool {
        &&& app1 == app0
        &&& exists|local: S|
            {
                &&& call_ensures(self.f_init, (), local)
                &&& #[trigger] call_ensures(self.f, (&app0, &local), state.view)
                &&& state.view.built(
                    cx0,
                    local,
                    cx1,
                    state.local_state,
                    id,
                    state.view_state,
                    element,
                )
            }
    }

    open spec fn rebuilt(
        &self,
        prev: Self,
        cx0: Cx,
        app0: T,
        id0: Id,
        state0: Self::State,
        element0: Self::Element,
        cx1: Cx,
        app1: T,
        id1: Id,
        state1: Self::State,
        element1: Self::Element,
        changed: bool,
    ) -> bool {
        &&& app1 == app0
        &&& call_ensures(self.f, (&app0, &state0.local_state), state1.view)
        &&& state1.view.rebuilt(
            state0.view,
            cx0,
            state0.local_state,
            id0,
            state0.view_state,
            element0,
            cx1,
            state1.local_state,
            id1,
            state1.view_state,
            element1,
            changed,
        )
    }

    open spec fn dispatched(
        &self,
        id_path: Seq<Id>,
        message: Message,
        app0: T,
        state0: Self::State,
        app1: T,
        state1: Self::State,
        result: EventResult<A>,
    ) -> bool {
        &&& app1 == app0
        &&& state1.view == state0.view
        &&& state0.view.dispatched(
            id_path,
            message,
            state0.local_state,
            state0.view_state,
            state1.local_state,
            state1.view_state,
            result,
        )
    }

    open spec fn torn_down(&self, state0: Self::State, state1: Self::State) -> bool {
        &&& state1.view == state0.view
        &&& state1.local_state == state0.local_state
        &&& state0.view.torn_down(state0.view_state, state1.view_state)
    }

    fn build(&self, cx: &mut Cx, app_state: &mut T) -> (out: (Id, Self::State, Self::Element)) {
        let mut local_state = (self.f_init)();
        let ghost local = local_state;
        let view = (self.f)(&*app_state, &local_state);
        let (id, view_state, element) = view.build(cx, &mut local_state);
        let state = LocalStateState { local_state, view, view_state };
        proof {
            assert(call_ensures(self.f, (&*old(app_state), &local), state.view));
        }
        (id, state, element)
    }

    fn rebuild(
        &self,
        cx: &mut Cx,
        prev: &Self,
        id: &mut Id,
        state: &mut Self::State,
        element: &mut Self::Element,
        app_state: &mut T,
    ) -> (changed: bool) {
        let view = (self.f)(&*app_state, &state.local_state);
        let changed = view.rebuild(
            cx,
            &state.view,
            id,
            &mut state.view_state,
            element,
            &mut state.local_state,
        );
        state.view = view;
        changed
    }

    fn event(
        &self,
        id_path: &[Id],
        state: &mut Self::State,
        message: Message,
        app_state: &mut T,
    ) -> (result: EventResult<A>) {
        state.view.event(id_path, &mut state.view_state, message, &mut state.local_state)
    }

    fn teardown(&self, state: &mut Self::State) {
        state.view.teardown(&mut state.view_state);
    }
}

} // verus!
