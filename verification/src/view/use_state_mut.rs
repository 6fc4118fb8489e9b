//! A view that owns state of its own and shows a child that may change both
//! the application state and that state.

use vstd::prelude::*;
use vstd::view::View as _;
use std::marker::PhantomData;
use crate::cx::Cx;
use crate::event::EventResult;
use crate::event::Message;
use crate::id::Id;
use crate::view::View;

verus! {

/// A view with local state whose child works on the pair of the application
/// state and the local state. `f_init` makes the local state when the node
/// is constructed; `f` makes the child view from both in every pass.
///
/// For the length of a call the application state is moved into the pair,
/// and a default value stands in its place; the call moves it back.
pub struct UseStateMut<S, V, FInit, F> {
    pub f_init: FInit,
    pub f: F,
    pub phantom: PhantomData<(S, V)>,
}

/// What `UseStateMut` retains: the local state, and the child with what the
/// child retains. The local state is absent only while a pass has lent it
/// to the child.
pub struct UseStateStateMut<S, V, VS> {
    pub local_state: Option<S>,
    pub view: V,
    pub view_state: VS,
}

impl<S, V, FInit, F> UseStateMut<S, V, FInit, F> {
    /// A view with local state that the child shares with the application
    /// state.
    pub fn new(f_init: FInit, f: F) -> (view: Self)
        ensures
            view.f_init == f_init,
            view.f == f,
    {
        UseStateMut { f_init, f, phantom: PhantomData }
    }
}

/// Moves the application state out, leaving a default value in its place.
fn lend<T: Default>(app_state: &mut T) -> (outer: T)
    ensures
        outer == *old(app_state),
{
    let mut outer = T::default();
    std::mem::swap(app_state, &mut outer);
    outer
}

impl<T, A, S, V, FInit, F> View<T, A> for UseStateMut<S, V, FInit, F> where
    T: Default,
    V: View<(T, S), A>,
    FInit: Fn() -> S,
    F: Fn(&T, &S) -> V,
 {
    type State = UseStateStateMut<S, V, V::State>;

    type Element = V::Element;

    open spec fn wf(&self) -> bool {
        &&& call_requires(self.f_init, ())
        &&& forall|app: T, local: S| call_requires(self.f, (&app, &local))
        &&& forall|app: T, local: S, view: V|
            call_ensures(self.f, (&app, &local), view) ==> view.wf()
    }

    open spec fn coherent(&self, state: Self::State) -> bool {
        &&& state.local_state is Some
        &&& state.view.wf()
        &&& state.view.coherent(state.view_state)
    }

    open spec fn consistent(&self, state: Self::State, element: Self::Element) -> bool {
        state.view.consistent(state.view_state, element)
    }

    open spec fn idle(&self, state: Self::State) -> bool {
        state.view.idle(state.view_state)
    }

    open spec fn unchanged(
        &self,
        prev: Self,
        app: T,
        state: Self::State,
        element: Self::Element,
    ) -> bool {
        &&& state.local_state is Some
        &&& forall|view: V| #[trigger]
            call_ensures(self.f, (&app, &state.local_state->0), view) ==> view.unchanged(
                state.view,
                (app, state.local_state->0),
                state.view_state,
                element,
            )
    }

    open spec fn built(
        &self,
        cx0: Cx,
        app0: T,
        cx1: Cx,
        app1: T,
        id: Id,
        state: Self::State,
        element: Self::Element,
    ) -> bool {
        &&& state.local_state is Some
        &&& exists|local: S|
            {
                &&& call_ensures(self.f_init, (), local)
                &&& #[trigger] call_ensures(self.f, (&app0, &local), state.view)
                &&& state.view.built(
                    cx0,
                    (app0, local),
                    cx1,
                    (app1, state.local_state->0),
                    id,
                    state.view_state,
                    element,
                )
            }
    }

    open spec fn rebuilt(
        &self,
        prev: Self,
        cx0: Cx,
        app0: T,
        id0: Id,
        state0: Self::State,
        element0: Self::Element,
        cx1: Cx,
        app1: T,
        id1: Id,
        state1: Self::State,
        element1: Self::Element,
        changed: bool,
    ) -> bool {
        &&& state0.local_state is Some
        &&& state1.local_state is Some
        &&& call_ensures(self.f, (&app0, &state0.local_state->0), state1.view)
        &&& state1.view.rebuilt(
            state0.view,
            cx0,
            (app0, state0.local_state->0),
            id0,
            state0.view_state,
            element0,
            cx1,
            (app1, state1.local_state->0),
            id1,
            state1.view_state,
            element1,
            changed,
        )
    }

    open spec fn dispatched(
        &self,
        id_path: Seq<Id>,
        message: Message,
        app0: T,
        state0: Self::State,
        app1: T,
        state1: Self::State,
        result: EventResult<A>,
    ) -> bool {
        &&& state0.local_state is Some
        &&& state1.local_state is Some
        &&& state1.view == state0.view
        &&& state0.view.dispatched(
            id_path,
            message,
            (app0, state0.local_state->0),
            state0.view_state,
            (app1, state1.local_state->0),
            state1.view_state,
            result,
        )
    }

    open spec fn torn_down(&self, state0: Self::State, state1: Self::State) -> bool {
        &&& state1.view == state0.view
        &&& state1.local_state == state0.local_state
        &&& state0.view.torn_down(state0.view_state, state1.view_state)
    }

    fn build(&self, cx: &mut Cx, app_state: &mut T) -> (out: (Id, Self::State, Self::Element)) {
        let local = (self.f_init)();
        let ghost first = local;
        let view = (self.f)(&*app_state, &local);
        let mut scope = (lend(app_state), local);
        let (id, view_state, element) = view.build(cx, &mut scope);
        let (outer, local) = scope;
        *app_state = outer;
        let state = UseStateStateMut { local_state: Some(local), view, view_state };
        proof {
            assert(call_ensures(self.f, (&*old(app_state), &first), state.view));
        }
        (id, state, element)
    }

    fn rebuild(
        &self,
        cx: &mut Cx,
        prev: &Self,
        id: &mut Id,
        state: &mut Self::State,
        element: &mut Self::Element,
        app_state: &mut T,
    ) -> (changed: bool) {
        match state.local_state.take() {
            Some(local) => {
                let view = (self.f)(&*app_state, &local);
                let mut scope = (lend(app_state), local);
                let changed = view.rebuild(
                    cx,
                    &state.view,
                    id,
                    &mut state.view_state,
                    element,
                    &mut scope,
                );
                let (outer, local) = scope;
                *app_state = outer;
                state.local_state = Some(local);
                state.view = view;
                changed
            },
            None => false,
        }
    }

    fn event(
        &self,
        id_path: &[Id],
        state: &mut Self::State,
        message: Message,
        app_state: &mut T,
    ) -> (result: EventResult<A>) {
        match state.local_state.take() {
            Some(local) => {
                let mut scope = (lend(app_state), local);
                let result = state.view.event(id_path, &mut state.view_state, message, &mut scope);
                let (outer, local) = scope;
                *app_state = outer;
                state.local_state = Some(local);
                result
            },
            None => EventResult::Stale,
        }
    }

    fn teardown(&self, state: &mut Self::State) {
        state.view.teardown(&mut state.view_state);
    }
}

} // verus!
