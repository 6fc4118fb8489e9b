//! A view that owns state of its own and shows a child over a shared handle
//! on the application state together with that state.

use vstd::prelude::*;
use vstd::view::View as _;
use std::marker::PhantomData;
use std::sync::Arc;
use crate::cx::Cx;
use crate::event::EventResult;
use crate::event::Message;
use crate::id::Id;
use crate::view::View;

verus! {

/// A view with local state over shared application state. `f_init` makes the
/// local state when the node is constructed; `f` makes the child view from
/// it in every pass. The child works on a pair of a handle on the
/// application state and the local state. Where the child leaves another
/// handle in the pair than it found, that handle becomes the application
/// state; where it leaves the handle it found, nothing is written.
pub struct UseState<T, A, S, V, FInit, F> {
    pub f_init: FInit,
    pub f: F,
    pub phantom: PhantomData<(T, A, S, V)>,
}

/// What `UseState` retains: the local state, and the child with what the
/// child retains. The local state is absent only while a pass has lent it
/// to the child.
pub struct UseStateState<T, A, S, V: View<(Arc<T>, S), A>> {
    pub state: Option<S>,
    pub view: V,
    pub view_state: V::State,
}

/// `Arc::ptr_eq`: whether two handles point at the same allocation. Handles
/// on one allocation hold one value; of handles on two allocations nothing
/// is claimed.
#[verifier::external_body]
fn same_handle<T>(a: &Arc<T>, b: &Arc<T>) -> (same: bool)
    ensures
        same ==> *a == *b,
{
    Arc::ptr_eq(a, b)
}

/// Makes `inner` the application state unless the comparison of the two
/// handles found them to be the same.
pub fn write_back_unless<T>(app_state: &mut Arc<T>, inner: Arc<T>, same: bool)
    ensures
        *final(app_state) == if same {
            *old(app_state)
        } else {
            inner
        },
{
    if !same {
        *app_state = inner;
    }
}

/// Makes `inner` the application state if it is another handle than the
/// one that is the application state now.
pub fn write_back<T>(app_state: &mut Arc<T>, inner: Arc<T>)
    ensures
        *final(app_state) == inner,
{
    let same = same_handle(&*app_state, &inner);
    write_back_unless(app_state, inner, same);
}

impl<T, A, S, V, FInit, F> UseState<T, A, S, V, FInit, F> {
    /// A view with local state over shared application state.
    pub fn new(f_init: FInit, f: F) -> (view: Self)
        ensures
            view.f_init == f_init,
            view.f == f,
    {
        UseState { f_init, f, phantom: PhantomData }
    }
}

impl<T, A, S, V, FInit, F> View<Arc<T>, A> for UseState<T, A, S, V, FInit, F> where
    V: View<(Arc<T>, S), A>,
    FInit: Fn() -> S,
    F: Fn(&S) -> V,
 {
    type State = UseStateState<T, A, S, V>;

    type Element = V::Element;

    open spec fn wf(&self) -> bool {
        &&& call_requires(self.f_init, ())
        &&& forall|local: S| call_requires(self.f, (&local,))
        &&& forall|local: S, view: V| call_ensures(self.f, (&local,), view) ==> view.wf()
    }

    open spec fn coherent(&self, state: Self::State) -> bool {
        &&& state.state is Some
        &&& state.view.wf()
        &&& state.view.coherent(state.view_state)
    }

    open spec fn consistent(&self, state: Self::State, element: Self::Element) -> bool {
        state.view.consistent(state.view_state, element)
    }

    open spec fn idle(&self, state: Self::State) -> bool {
        state.view.idle(state.view_state)
    }

    open spec fn unchanged(
        &self,
        prev: Self,
        app: Arc<T>,
        state: Self::State,
        element: Self::Element,
    ) -> bool {
        &&& state.state is Some
        &&& forall|view: V| #[trigger]
            call_ensures(self.f, (&state.state->0,), view) ==> view.unchanged(
                state.view,
                (app, state.state->0),
                state.view_state,
                element,
            )
    }

    open spec fn built(
        &self,
        cx0: Cx,
        app0: Arc<T>,
        cx1: Cx,
        app1: Arc<T>,
        id: Id,
        state: Self::State,
        element: Self::Element,
    ) -> bool {
        &&& state.state is Some
        &&& exists|local: S|
            {
                &&& call_ensures(self.f_init, (), local)
                &&& #[trigger] call_ensures(self.f, (&local,), state.view)
                &&& state.view.built(
                    cx0,
                    (app0, local),
                    cx1,
                    (app1, state.state->0),
                    id,
                    state.view_state,
                    element,
                )
            }
    }

    open spec fn rebuilt(
        &self,
        prev: Self,
        cx0: Cx,
        app0: Arc<T>,
        id0: Id,
        state0: Self::State,
        element0: Self::Element,
        cx1: Cx,
        app1: Arc<T>,
        id1: Id,
        state1: Self::State,
        element1: Self::Element,
        changed: bool,
    ) -> bool {
        &&& state0.state is Some
        &&& state1.state is Some
        &&& call_ensures(self.f, (&state0.state->0,), state1.view)
        &&& state1.view.rebuilt(
            state0.view,
            cx0,
            (app0, state0.state->0),
            id0,
            state0.view_state,
            element0,
            cx1,
            (app1, state1.state->0),
            id1,
            state1.view_state,
            element1,
            changed,
        )
    }

    open spec fn dispatched(
        &self,
        id_path: Seq<Id>,
        message: Message,
        app0: Arc<T>,
        state0: Self::State,
        app1: Arc<T>,
        state1: Self::State,
        result: EventResult<A>,
    ) -> bool {
        &&& state0.state is Some
        &&& state1.state is Some
        &&& state1.view == state0.view
        &&& state0.view.dispatched(
            id_path,
            message,
            (app0, state0.state->0),
            state0.view_state,
            (app1, state1.state->0),
            state1.view_state,
            result,
        )
    }

    open spec fn torn_down(&self, state0: Self::State, state1: Self::State) -> bool {
        &&& state1.view == state0.view
        &&& state1.state == state0.state
        &&& state0.view.torn_down(state0.view_state, state1.view_state)
    }

    fn build(&self, cx: &mut Cx, app_state: &mut Arc<T>) -> (out: (
        Id,
        Self::State,
        Self::Element,
    )) {
        let local = (self.f_init)();
        let ghost first = local;
        let view = (self.f)(&local);
        let mut scope = (app_state.clone(), local);
        let (id, view_state, element) = view.build(cx, &mut scope);
        let (handle, local) = scope;
        write_back(app_state, handle);
        let state = UseStateState { state: Some(local), view, view_state };
        proof {
            assert(call_ensures(self.f, (&first,), state.view));
        }
        (id, state, element)
    }

    fn rebuild(
        &self,
        cx: &mut Cx,
        prev: &Self,
        id: &mut Id,
        state: &mut Self::State,
        element: &mut Self::Element,
        app_state: &mut Arc<T>,
    ) -> (changed: bool) {
        match state.state.take() {
            Some(local) => {
                let view = (self.f)(&local);
                let mut scope = (app_state.clone(), local);
                let changed = view.rebuild(
                    cx,
                    &state.view,
                    id,
                    &mut state.view_state,
                    element,
                    &mut scope,
                );
                let (handle, local) = scope;
                write_back(app_state, handle);
                state.state = Some(local);
                state.view = view;
                changed
            },
            None => false,
        }
    }

    fn event(
        &self,
        id_path: &[Id],
        state: &mut Self::State,
        message: Message,
        app_state: &mut Arc<T>,
    ) -> (result: EventResult<A>) {
        match state.state.take() {
            Some(local) => {
                let mut scope = (app_state.clone(), local);
                let result = state.view.event(id_path, &mut state.view_state, message, &mut scope);
                let (handle, local) = scope;
                write_back(app_state, handle);
                state.state = Some(local);
                result
            },
            None => EventResult::Stale,
        }
    }

    fn teardown(&self, state: &mut Self::State) {
        state.view.teardown(&mut state.view_state);
    }
}

} // verus!
