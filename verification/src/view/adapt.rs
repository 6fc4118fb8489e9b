//! A view that shows a child over a part of the application state.

use vstd::prelude::*;
use vstd::view::View as _;
use std::marker::PhantomData;
use crate::cx::Cx;
use crate::event::EventResult;
use crate::event::Message;
use crate::id::Id;
use crate::view::View;
use crate::widget::Widget;

verus! {

/// A view whose child works on a part `U` of the application state `T` and
/// raises actions of its own type `B`. `get` takes the part out of the
/// whole. `put` makes the whole that holds the part as the child left it; it
/// decides what of the child's work flows back. `lift` turns an action of
/// the child into an action of the adapter.
pub struct Adapt<T, A, U, B, G, P, L, C> {
    pub get: G,
    pub put: P,
    pub lift: L,
    pub child: C,
    pub phantom: PhantomData<(T, A, U, B)>,
}

/// What a thunk is to do with the child.
pub enum ThunkOp<'a, U, B, C: View<U, B>> {
    /// Construct it.
    Build { cx: &'a mut Cx },
    /// Reconcile it with the child that stood in its place.
    Rebuild {
        cx: &'a mut Cx,
        prev: &'a C,
        id: &'a mut Id,
        state: &'a mut C::State,
        element: &'a mut C::Element,
    },
    /// Deliver a message to it.
    Event { id_path: &'a [Id], state: &'a mut C::State, message: Message },
}

/// One call to the child of an adapt node that waits for the narrowed
/// application state.
pub struct AdaptThunk<'a, U, B, C: View<U, B>> {
    pub child: &'a C,
    pub op: ThunkOp<'a, U, B, C>,
}

/// What the call behind a thunk returned. The variant is that of the call.
pub enum AdaptThunkResult<U, B, C: View<U, B>> {
    Build((Id, C::State, C::Element)),
    Rebuild(bool),
    Event(EventResult<B>),
}

impl<T, A, U, B, G, P, L, C> Adapt<T, A, U, B, G, P, L, C> {
    /// A view that shows `child` over the part of the application state
    /// that `get` takes out and `put` puts back, and raises the actions of
    /// `child` as `lift` maps them.
    pub fn new(get: G, put: P, lift: L, child: C) -> (view: Self)
        ensures
            view.get == get,
            view.put == put,
            view.lift == lift,
            view.child == child,
    {
        Adapt { get, put, lift, child, phantom: PhantomData }
    }

    /// `result` is `answer` with its action, if it carries one, mapped by
    /// `lift`.
    pub open spec fn lifted(lift: L, answer: EventResult<B>, result: EventResult<A>) -> bool where
        L: Fn(B) -> A,
     {
        match answer {
            EventResult::Action(inner) => {
                &&& result matches EventResult::Action(outer)
                &&& call_ensures(lift, (inner,), outer)
            },
            EventResult::RequestRebuild => result is RequestRebuild,
            EventResult::Nop => result is Nop,
            EventResult::Stale => result is Stale,
        }
    }
}

impl<'a, U, B, C: View<U, B>> AdaptThunk<'a, U, B, C> {
    /// The call can be made.
    pub open spec fn ready(self) -> bool {
        &&& self.child.wf()
        &&& match self.op {
            ThunkOp::Build { .. } => true,
            ThunkOp::Rebuild { prev, state, element, .. } => {
                &&& prev.wf()
                &&& prev.coherent(*state)
                &&& prev.consistent(*state, *element)
            },
            ThunkOp::Event { state, .. } => self.child.coherent(*state),
        }
    }

    /// Makes the call against `app_state`. The result has the variant of
    /// the call, and what the child's own contract ensures holds of it.
    pub fn call(self, app_state: &mut U) -> (result: AdaptThunkResult<U, B, C>)
        requires
            self.ready(),
        ensures
            match self.op {
                ThunkOp::Build { cx } => {
                    &&& result matches AdaptThunkResult::Build(out)
                    &&& final(cx).path() == cx.path()
                    &&& final(cx).driver_waker() == cx.driver_waker()
                    &&& cx.next() <= final(cx).next()
                    &&& final(cx).allocated_since(*cx, out.0)
                    &&& self.child.coherent(out.1)
                    &&& self.child.consistent(out.1, out.2)
                    &&& self.child.built(
                        *cx,
                        *old(app_state),
                        *final(cx),
                        *final(app_state),
                        out.0,
                        out.1,
                        out.2,
                    )
                },
                ThunkOp::Rebuild { cx, prev, id, state, element } => {
                    &&& result matches AdaptThunkResult::Rebuild(changed)
                    &&& final(cx).path() == cx.path()
                    &&& final(cx).driver_waker() == cx.driver_waker()
                    &&& cx.next() <= final(cx).next()
                    &&& *final(id) == *id || final(cx).allocated_since(*cx, *final(id))
                    &&& self.child.coherent(*final(state))
                    &&& self.child.consistent(*final(state), *final(element))
                    &&& self.child.rebuilt(
                        *prev,
                        *cx,
                        *old(app_state),
                        *id,
                        *state,
                        *element,
                        *final(cx),
                        *final(app_state),
                        *final(id),
                        *final(state),
                        *final(element),
                        changed,
                    )
                    &&& self.child.unchanged(*prev, *old(app_state), *state, *element) ==> {
                        &&& !changed
                        &&& *final(id) == *id
                        &&& *final(app_state) == *old(app_state)
                        &&& element.same(*final(element))
                    }
                },
                ThunkOp::Event { id_path, state, message } => {
                    &&& result matches AdaptThunkResult::Event(answer)
                    &&& self.child.coherent(*final(state))
                    &&& forall|e: C::Element| #[trigger]
                        self.child.consistent(*state, e) ==> self.child.consistent(
                            *final(state),
                            e,
                        )
                    &&& self.child.dispatched(
                        id_path@,
                        message,
                        *old(app_state),
                        *state,
                        *final(app_state),
                        *final(state),
                        answer,
                    )
                },
            },
    {
        match self.op {
            ThunkOp::Build { cx } => AdaptThunkResult::Build(self.child.build(cx, app_state)),
            ThunkOp::Rebuild { cx, prev, id, state, element } => AdaptThunkResult::Rebuild(
                self.child.rebuild(cx, prev, id, state, element, app_state),
            ),
            ThunkOp::Event { id_path, state, message } => AdaptThunkResult::Event(
                self.child.event(id_path, state, message, app_state),
            ),
        }
    }
}

impl<T, A, U, B, G, P, L, C> View<T, A> for Adapt<T, A, U, B, G, P, L, C> where
    G: Fn(&T) -> U,
    P: Fn(&T, U) -> T,
    L: Fn(B) -> A,
    C: View<U, B>,
 {
    type State = C::State;

    type Element = C::Element;

    open spec fn wf(&self) -> bool {
        &&& self.child.wf()
        &&& forall|app: T| call_requires(self.get, (&app,))
        &&& forall|app: T, part: U| call_requires(self.put, (&app, part))
        &&& forall|action: B| call_requires(self.lift, (action,))
    }

    open spec fn coherent(&self, state: Self::State) -> bool {
        self.child.coherent(state)
    }

    open spec fn consistent(&self, state: Self::State, element: Self::Element) -> bool {
        self.child.consistent(state, element)
    }

    open spec fn idle(&self, state: Self::State) -> bool {
        self.child.idle(state)
    }

    open spec fn unchanged(
        &self,
        prev: Self,
        app: T,
        state: Self::State,
        element: Self::Element,
    ) -> bool {
        &&& forall|part: U| #[trigger]
            call_ensures(self.get, (&app,), part) ==> self.child.unchanged(
                prev.child,
                part,
                state,
                element,
            )
        &&& forall|part: U, whole: T|
            call_ensures(self.get, (&app,), part) && #[trigger] call_ensures(
                self.put,
                (&app, part),
                whole,
            ) ==> whole == app
    }

    open spec fn built(
        &self,
        cx0: Cx,
        app0: T,
        cx1: Cx,
        app1: T,
        id: Id,
        state: Self::State,
        element: Self::Element,
    ) -> bool {
        exists|part0: U, part1: U|
            {
                &&& call_ensures(self.get, (&app0,), part0)
                &&& #[trigger] self.child.built(cx0, part0, cx1, part1, id, state, element)
                &&& call_ensures(self.put, (&app0, part1), app1)
            }
    }

    open spec fn rebuilt(
        &self,
        prev: Self,
        cx0: Cx,
        app0: T,
        id0: Id,
        state0: Self::State,
        element0: Self::Element,
        cx1: Cx,
        app1: T,
        id1: Id,
        state1: Self::State,
        element1: Self::Element,
        changed: bool,
    ) -> bool {
        exists|part0: U, part1: U|
            {
                &&& call_ensures(self.get, (&app0,), part0)
                &&& #[trigger] self.child.rebuilt(
                    prev.child,
                    cx0,
                    part0,
                    id0,
                    state0,
                    element0,
                    cx1,
                    part1,
                    id1,
                    state1,
                    element1,
                    changed,
                )
                &&& call_ensures(self.put, (&app0, part1), app1)
            }
    }

    open spec fn dispatched(
        &self,
        id_path: Seq<Id>,
        message: Message,
        app0: T,
        state0: Self::State,
        app1: T,
        state1: Self::State,
        result: EventResult<A>,
    ) -> bool {
        exists|part0: U, part1: U, answer: EventResult<B>|
            {
                &&& call_ensures(self.get, (&app0,), part0)
                &&& #[trigger] self.child.dispatched(
                    id_path,
                    message,
                    part0,
                    state0,
                    part1,
                    state1,
                    answer,
                )
                &&& call_ensures(self.put, (&app0, part1), app1)
                &&& Self::lifted(self.lift, answer, result)
            }
    }

    open spec fn torn_down(&self, state0: Self::State, state1: Self::State) -> bool {
        self.child.torn_down(state0, state1)
    }

    fn build(&self, cx: &mut Cx, app_state: &mut T) -> (out: (Id, Self::State, Self::Element)) {
        let mut part = (self.get)(&*app_state);
        let ghost part0 = part;
        let thunk = AdaptThunk { child: &self.child, op: ThunkOp::Build { cx } };
        let result = thunk.call(&mut part);
        let ghost part1 = part;
        let whole = (self.put)(&*app_state, part);
        *app_state = whole;
        match result {
            AdaptThunkResult::Build(out) => {
                proof {
                    assert(self.child.built(*old(cx), part0, *cx, part1, out.0, out.1, out.2));
                }
                out
            },
            _ => unreached(),
        }
    }

    fn rebuild(
        &self,
        cx: &mut Cx,
        prev: &Self,
        id: &mut Id,
        state: &mut Self::State,
        element: &mut Self::Element,
        app_state: &mut T,
    ) -> (changed: bool) {
        let mut part = (self.get)(&*app_state);
        let ghost part0 = part;
        let thunk = AdaptThunk {
            child: &self.child,
            op: ThunkOp::Rebuild { cx, prev: &prev.child, id, state, element },
        };
        let result = thunk.call(&mut part);
        let ghost part1 = part;
        let whole = (self.put)(&*app_state, part);
        *app_state = whole;
        match result {
            AdaptThunkResult::Rebuild(changed) => {
                proof {
                    assert(self.child.rebuilt(
                        prev.child,
                        *old(cx),
                        part0,
                        *old(id),
                        *old(state),
                        *old(element),
                        *cx,
                        part1,
                        *id,
                        *state,
                        *element,
                        changed,
                    ));
                }
                changed
            },
            _ => unreached(),
        }
    }

    fn event(
        &self,
        id_path: &[Id],
        state: &mut Self::State,
        message: Message,
        app_state: &mut T,
    ) -> (result: EventResult<A>) {
        let mut part = (self.get)(&*app_state);
        let ghost part0 = part;
        let thunk = AdaptThunk {
            child: &self.child,
            op: ThunkOp::Event { id_path, state, message },
        };
        let result = thunk.call(&mut part);
        let ghost part1 = part;
        let whole = (self.put)(&*app_state, part);
        *app_state = whole;
        match result {
            AdaptThunkResult::Event(answer) => {
                proof {
                    assert(self.child.dispatched(
                        id_path@,
                        message,
                        part0,
                        *old(state),
                        part1,
                        *state,
                        answer,
                    ));
                }
                match answer {
                    EventResult::Action(inner) => EventResult::Action((self.lift)(inner)),
                    EventResult::RequestRebuild => EventResult::RequestRebuild,
                    EventResult::Nop => EventResult::Nop,
                    EventResult::Stale => EventResult::Stale,
                }
            },
            _ => unreached(),
        }
    }

    fn teardown(&self, state: &mut Self::State) {
        self.child.teardown(state);
    }
}

} // verus!
