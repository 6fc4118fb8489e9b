//! A view that shows a placeholder while a computation makes the view that
//! is to be shown.

use vstd::prelude::*;
use vstd::view::View as _;
use std::future::Future;
use std::marker::PhantomData;
use std::task::Waker;
use crate::cx::Cx;
use crate::cx::next_after;
use crate::cx::node_path;
use crate::event::EventResult;
use crate::event::Message;
use crate::id::Id;
use crate::task::Canceller;
use crate::task::Running;
use crate::task::TaskPoll;
use crate::task::spawn_and_poll;
use crate::task::take_and_poll;
use crate::view::View;
use crate::widget::EitherWidget;
use crate::widget::Widget;

verus! {

/// Shows `pending` while the computation that `callback` makes is running,
/// and the view that the computation returns once it has finished.
///
/// The computation is started once, when the node is constructed. A
/// reconciliation reconciles the placeholder while the computation runs,
/// constructs the view that a finished computation returned, and leaves a
/// node alone that shows that view.
pub fn loader<T, A, V, P, FF, F>(pending: P, callback: F) -> (view: Loader<T, A, V, P, FF, F>)
    ensures
        view.pending == pending,
        view.callback == callback,
{
    Loader::new(pending, callback)
}

/// The view that `loader` makes.
pub struct Loader<T, A, V, P, FF, F> {
    pub pending: P,
    pub callback: F,
    pub phantom: PhantomData<(T, A, V, FF)>,
}

/// Where a `Loader` node stands.
#[verifier::reject_recursive_types(V)]
#[allow(inconsistent_fields)]
pub enum LoaderState<T, A, V: View<T, A>, P: View<T, A>> {
    /// The placeholder is shown. `task` is the computation, as long as one
    /// is outstanding; `abort_handle` cancels it.
    Pending {
        id: Id,
        state: P::State,
        task: Option<Running<V>>,
        waker: Waker,
        abort_handle: Canceller,
    },
    /// The computation has finished; the next reconciliation constructs the
    /// view it returned.
    Build(Option<V>),
    /// The view that the computation returned is shown.
    Complete { id: Id, view: V, state: V::State },
}

impl<T, A, V, P, FF, F> Loader<T, A, V, P, FF, F> {
    /// See `loader`.
    pub fn new(pending: P, callback: F) -> (view: Self)
        ensures
            view.pending == pending,
            view.callback == callback,
    {
        Loader { pending, callback, phantom: PhantomData }
    }
}

impl<T, A, V, P, FF, F> Loader<T, A, V, P, FF, F> where
    V: View<T, A> + Send + 'static,
    P: View<T, A>,
    FF: Future<Output = V> + Send + 'static,
    F: Fn() -> FF,
 {
    /// The node shows `view`, constructed from `inner` and `app0`.
    pub open spec fn completed(
        inner: Cx,
        app0: T,
        end: Cx,
        app1: T,
        view: V,
        state: LoaderState<T, A, V, P>,
        element: EitherWidget<P::Element, V::Element>,
    ) -> bool {
        &&& state matches LoaderState::Complete { id: cid, view: v, state: vs }
        &&& element matches EitherWidget::Second(shown)
        &&& v == view
        &&& view.built(inner, app0, end, app1, cid, vs, shown)
    }

    /// The node shows the placeholder, constructed from `mid` and `app0`,
    /// and holds `task`.
    pub open spec fn waiting(
        &self,
        mid: Cx,
        app0: T,
        end: Cx,
        app1: T,
        task: Option<Running<V>>,
        waker: Waker,
        abort_handle: Canceller,
        state: LoaderState<T, A, V, P>,
        element: EitherWidget<P::Element, V::Element>,
    ) -> bool {
        &&& state matches LoaderState::Pending {
            id: cid,
            state: ps,
            task: t,
            waker: w,
            abort_handle: h,
        }
        &&& element matches EitherWidget::First(shown)
        &&& t == task
        &&& w == waker
        &&& h == abort_handle
        &&& self.pending.built(mid, app0, end, app1, cid, ps, shown)
    }

    /// What the node `own` becomes, inside its own scope, when the first
    /// look at its computation found `polled`.
    pub open spec fn settled(
        &self,
        inner: Cx,
        app0: T,
        end: Cx,
        app1: T,
        own: Id,
        polled: TaskPoll<V>,
        waker: Waker,
        abort_handle: Canceller,
        state: LoaderState<T, A, V, P>,
        element: EitherWidget<P::Element, V::Element>,
    ) -> bool {
        match polled {
            TaskPoll::Ready(view) => Self::completed(inner, app0, end, app1, view, state, element),
            TaskPoll::Pending(task) => exists|mid: Cx|
                {
                    &&& mid.path() == inner.path()
                    &&& mid.next() == inner.next()
                    &&& mid.pending() == inner.pending().push(node_path(inner.path(), own))
                    &&& #[trigger] self.waiting(
                        mid,
                        app0,
                        end,
                        app1,
                        Some(task),
                        waker,
                        abort_handle,
                        state,
                        element,
                    )
                },
            TaskPoll::Failed => self.waiting(
                inner,
                app0,
                end,
                app1,
                None,
                waker,
                abort_handle,
                state,
                element,
            ),
        }
    }

    /// Both states are pending and differ at most in the computation held.
    pub open spec fn same_but_task(
        state0: LoaderState<T, A, V, P>,
        state1: LoaderState<T, A, V, P>,
    ) -> bool {
        &&& state0 matches LoaderState::Pending { id: i0, state: ps0, waker: w0, abort_handle: h0, .. }
        &&& state1 matches LoaderState::Pending { id: i1, state: ps1, waker: w1, abort_handle: h1, .. }
        &&& i1 == i0
        &&& ps1 == ps0
        &&& w1 == w0
        &&& h1 == h0
    }

    /// Both states stand at the same stage with the same child and differ
    /// at most in what the child retains.
    pub open spec fn same_but_state(
        state0: LoaderState<T, A, V, P>,
        state1: LoaderState<T, A, V, P>,
    ) -> bool {
        match state0 {
            LoaderState::Pending { id, task, waker, abort_handle, .. } => {
                &&& state1 matches LoaderState::Pending {
                    id: i1,
                    task: t1,
                    waker: w1,
                    abort_handle: h1,
                    ..
                }
                &&& i1 == id
                &&& t1 == task
                &&& w1 == waker
                &&& h1 == abort_handle
            },
            LoaderState::Build(_) => state1 == state0,
            LoaderState::Complete { id, view, .. } => {
                &&& state1 matches LoaderState::Complete { id: i1, view: v1, .. }
                &&& i1 == id
                &&& v1 == view
            },
        }
    }

    /// Both states are pending with the same child, waker and abort handle,
    /// and differ at most in what the child retains, in the computation held
    /// and in whether it has been asked to stop.
    pub open spec fn same_but_state_and_task(
        state0: LoaderState<T, A, V, P>,
        state1: LoaderState<T, A, V, P>,
    ) -> bool {
        &&& state0 matches LoaderState::Pending { id, waker, abort_handle, .. }
        &&& state1 matches LoaderState::Pending { id: i1, waker: w1, abort_handle: h1, .. }
        &&& i1 == id
        &&& w1 == waker
        &&& h1.handle() == abort_handle.handle()
    }

    /// What a completion signal makes of a pending node, when the look at
    /// its computation found `polled`.
    pub open spec fn woken(
        state0: LoaderState<T, A, V, P>,
        polled: TaskPoll<V>,
        state1: LoaderState<T, A, V, P>,
        result: EventResult<A>,
    ) -> bool {
        match polled {
            TaskPoll::Ready(view) => {
                &&& state1 == LoaderState::<T, A, V, P>::Build(Some(view))
                &&& result is RequestRebuild
            },
            TaskPoll::Pending(task) => {
                &&& Self::same_but_task(state0, state1)
                &&& state1->task == Some(task)
                &&& result is Stale
            },
            TaskPoll::Failed => {
                &&& Self::same_but_task(state0, state1)
                &&& state1->task is None
                &&& result is Stale
            },
        }
    }

    /// Nothing was delivered.
    pub open spec fn missed(
        app0: T,
        state0: LoaderState<T, A, V, P>,
        app1: T,
        state1: LoaderState<T, A, V, P>,
        result: EventResult<A>,
    ) -> bool {
        result is Stale && app1 == app0 && state1 == state0
    }

    /// A completion signal moves a pending node on exactly when the look at
    /// its computation found the view it returned: then the node waits for
    /// the next reconciliation with that view, and the answer asks for one.
    /// In every other case the answer is stale and the node stays pending.
    pub proof fn lemma_wake_outcomes(
        state0: LoaderState<T, A, V, P>,
        polled: TaskPoll<V>,
        state1: LoaderState<T, A, V, P>,
        result: EventResult<A>,
    )
        requires
            state0 is Pending,
            Self::woken(state0, polled, state1, result),
        ensures
            polled matches TaskPoll::Ready(view) ==> result is RequestRebuild && state1
                == LoaderState::<T, A, V, P>::Build(Some(view)),
            !(polled is Ready) ==> result is Stale && state1 is Pending,
    {
    }

    /// A completion signal that finds the computation still running changes
    /// nothing: the node holds the same computation as before, and the
    /// application state is as it was.
    pub proof fn lemma_early_wake_changes_nothing(
        &self,
        app0: T,
        state0: LoaderState<T, A, V, P>,
        app1: T,
        state1: LoaderState<T, A, V, P>,
        result: EventResult<A>,
    )
        requires
            state0 is Pending,
            self.dispatched(Seq::<Id>::empty(), Message::AsyncWake, app0, state0, app1, state1, result),
            state1 is Pending,
            state1->task is Some,
        ensures
            result is Stale,
            state1 == state0,
            app1 == app0,
    {
    }

    /// Tearing down a pending node cancels its computation: when the call
    /// returns, the computation has been asked to stop through the abort
    /// handle that the node held, and the node holds no computation. A node
    /// that is not pending holds no abort handle, and nothing is cancelled.
    pub proof fn lemma_torn_down_node_is_cancelled(
        &self,
        before: LoaderState<T, A, V, P>,
        after: LoaderState<T, A, V, P>,
    )
        requires
            self.torn_down(before, after),
        ensures
            before is Pending ==> {
                &&& after is Pending
                &&& after->abort_handle.asked()
                &&& after->abort_handle.handle() == before->abort_handle.handle()
                &&& after->task is None
            },
            before is Build ==> after == before,
            before is Complete ==> after is Complete,
    {
    }

    /// A pending node that was torn down takes no completion signal: the
    /// answer is stale, and neither the node nor the application state
    /// changes.
    pub proof fn lemma_torn_down_node_ignores_wake(
        &self,
        before: LoaderState<T, A, V, P>,
        state0: LoaderState<T, A, V, P>,
        app0: T,
        app1: T,
        state1: LoaderState<T, A, V, P>,
        result: EventResult<A>,
    )
        requires
            before is Pending,
            self.torn_down(before, state0),
            self.dispatched(Seq::<Id>::empty(), Message::AsyncWake, app0, state0, app1, state1, result),
        ensures
            result is Stale,
            app1 == app0,
            state1 is Pending,
            state1->task is None,
            Self::same_but_task(state0, state1),
    {
    }

    /// The identity of the child that the node shows, if it shows one.
    pub open spec fn child_id(state: LoaderState<T, A, V, P>) -> Option<Id> {
        match state {
            LoaderState::Pending { id, .. } => Some(id),
            LoaderState::Build(_) => None,
            LoaderState::Complete { id, .. } => Some(id),
        }
    }

    /// Both states are pending and hold the same computation.
    pub open spec fn same_but_state_and_id(
        state0: LoaderState<T, A, V, P>,
        state1: LoaderState<T, A, V, P>,
    ) -> bool {
        &&& state0 matches LoaderState::Pending { task, waker, abort_handle, .. }
        &&& state1 matches LoaderState::Pending { task: t1, waker: w1, abort_handle: h1, .. }
        &&& t1 == task
        &&& w1 == waker
        &&& h1 == abort_handle
    }

    /// What reconciliation does inside the scope of the node: the view that
    /// a finished computation returned is constructed; while the computation
    /// runs, the placeholder is reconciled; a node that shows the view of
    /// the computation is left as it is.
    pub open spec fn advanced(
        &self,
        prev: Self,
        inner: Cx,
        app0: T,
        state0: LoaderState<T, A, V, P>,
        element0: EitherWidget<P::Element, V::Element>,
        end: Cx,
        app1: T,
        state1: LoaderState<T, A, V, P>,
        element1: EitherWidget<P::Element, V::Element>,
        changed: bool,
    ) -> bool {
        match state0 {
            LoaderState::Build(Some(view)) => {
                &&& changed
                &&& Self::completed(inner, app0, end, app1, view, state1, element1)
                &&& end.allocated_since(inner, state1->Complete_id)
            },
            LoaderState::Pending { id: cid, state: ps0, .. } => {
                &&& Self::same_but_state_and_id(state0, state1)
                &&& element0 matches EitherWidget::First(shown0)
                &&& element1 matches EitherWidget::First(shown1)
                &&& self.pending.rebuilt(
                    prev.pending,
                    inner,
                    app0,
                    cid,
                    ps0,
                    shown0,
                    end,
                    app1,
                    state1->Pending_id,
                    state1->Pending_state,
                    shown1,
                    changed,
                )
                &&& state1->Pending_id == cid || end.allocated_since(inner, state1->Pending_id)
            },
            _ => {
                &&& !changed
                &&& state1 == state0
                &&& element1 == element0
                &&& app1 == app0
                &&& end == inner
            },
        }
    }

    /// Moves the node on from where it stands, inside its own scope.
    pub fn advance(
        &self,
        cx: &mut Cx,
        prev: &Self,
        state: &mut LoaderState<T, A, V, P>,
        element: &mut EitherWidget<P::Element, V::Element>,
        app_state: &mut T,
    ) -> (changed: bool)
        requires
            self.wf(),
            prev.wf(),
            prev.coherent(*old(state)),
            prev.consistent(*old(state), *old(element)),
        ensures
            final(cx).path() == old(cx).path(),
            final(cx).driver_waker() == old(cx).driver_waker(),
            old(cx).next() <= final(cx).next(),
            self.coherent(*final(state)),
            self.consistent(*final(state), *final(element)),
            self.advanced(
                *prev,
                *old(cx),
                *old(app_state),
                *old(state),
                *old(element),
                *final(cx),
                *final(app_state),
                *final(state),
                *final(element),
                changed,
            ),
            self.unchanged(*prev, *old(app_state), *old(state), *old(element)) ==> {
                &&& !changed
                &&& *final(app_state) == *old(app_state)
                &&& old(element).same(*final(element))
                &&& Self::child_id(*final(state)) == Self::child_id(*old(state))
            },
    {
        let finished = match state {
            LoaderState::Build(view) => view.take(),
            _ => None,
        };
        match finished {
            Some(view) => {
                let (new_state, new_element) = self.complete(cx, app_state, view);
                *state = new_state;
                *element = new_element;
                true
            },
            None => {
                match state {
                    LoaderState::Pending { id, state: pending_state, .. } => {
                        match element {
                            EitherWidget::First(shown) => self.pending.rebuild(
                                cx,
                                &prev.pending,
                                id,
                                pending_state,
                                shown,
                                app_state,
                            ),
                            EitherWidget::Second(_) => false,
                        }
                    },
                    _ => {
                        proof {
                            element.lemma_same_reflexive();
                        }
                        false
                    },
                }
            },
        }
    }

    /// Constructs the view that the computation returned.
    pub fn complete(&self, cx: &mut Cx, app_state: &mut T, view: V) -> (out: (
        LoaderState<T, A, V, P>,
        EitherWidget<P::Element, V::Element>,
    ))
        requires
            self.wf(),
        ensures
            final(cx).path() == old(cx).path(),
            final(cx).driver_waker() == old(cx).driver_waker(),
            old(cx).next() <= final(cx).next(),
            self.coherent(out.0),
            self.consistent(out.0, out.1),
            Self::completed(
                *old(cx),
                *old(app_state),
                *final(cx),
                *final(app_state),
                view,
                out.0,
                out.1,
            ),
            Self::child_id(out.0) matches Some(child) && final(cx).allocated_since(*old(cx), child),
    {
        let (id, state, element) = view.build(cx, app_state);
        (LoaderState::Complete { id, view, state }, EitherWidget::Second(element))
    }

    /// Makes the node `own` from what the first look at its computation
    /// found: the view that the computation returned where it has finished,
    /// else the placeholder. A node whose computation is outstanding is
    /// registered as pending.
    pub fn settle(
        &self,
        cx: &mut Cx,
        app_state: &mut T,
        own: Id,
        polled: TaskPoll<V>,
        waker: Waker,
        abort_handle: Canceller,
    ) -> (out: (LoaderState<T, A, V, P>, EitherWidget<P::Element, V::Element>))
        requires
            self.wf(),
        ensures
            final(cx).path() == old(cx).path(),
            final(cx).driver_waker() == old(cx).driver_waker(),
            old(cx).next() <= final(cx).next(),
            self.coherent(out.0),
            self.consistent(out.0, out.1),
            self.settled(
                *old(cx),
                *old(app_state),
                *final(cx),
                *final(app_state),
                own,
                polled,
                waker,
                abort_handle,
                out.0,
                out.1,
            ),
            Self::child_id(out.0) matches Some(child) && final(cx).allocated_since(*old(cx), child),
    {
        match polled {
            TaskPoll::Ready(view) => self.complete(cx, app_state, view),
            TaskPoll::Pending(task) => {
                cx.add_pending_async(own);
                let ghost mid = *cx;
                let (id, state, element) = self.pending.build(cx, app_state);
                let out = (
                    LoaderState::Pending { id, state, task: Some(task), waker, abort_handle },
                    EitherWidget::First(element),
                );
                proof {
                    assert(self.waiting(
                        mid,
                        *old(app_state),
                        *cx,
                        *app_state,
                        Some(task),
                        waker,
                        abort_handle,
                        out.0,
                        out.1,
                    ));
                }
                out
            },
            TaskPoll::Failed => {
                let (id, state, element) = self.pending.build(cx, app_state);
                (
                    LoaderState::Pending { id, state, task: None, waker, abort_handle },
                    EitherWidget::First(element),
                )
            },
        }
    }

    /// Takes note of what a look at the computation of a pending node found.
    /// A finished computation moves the node on, and asks for a
    /// reconciliation; what the placeholder retained is torn down first.
    /// Anything else leaves the node pending.
    pub fn wake(&self, state: &mut LoaderState<T, A, V, P>, polled: TaskPoll<V>) -> (result:
        EventResult<A>)
        requires
            self.wf(),
            self.coherent(*old(state)),
            *old(state) is Pending,
        ensures
            Self::woken(*old(state), polled, *final(state), result),
            polled is Ready ==> exists|gone: LoaderState<T, A, V, P>|
                #[trigger] self.torn_down(*old(state), gone) && self.idle(gone),
            self.coherent(*final(state)),
            forall|e: EitherWidget<P::Element, V::Element>| #[trigger]
                self.consistent(*old(state), e) ==> self.consistent(*final(state), e),
    {
        match polled {
            TaskPoll::Ready(view) => {
                self.teardown(state);
                proof {
                    assert(self.torn_down(*old(state), *state) && self.idle(*state));
                }
                *state = LoaderState::Build(Some(view));
                EventResult::RequestRebuild
            },
            TaskPoll::Pending(handle) => {
                match state {
                    LoaderState::Pending { task, .. } => {
                        *task = Some(handle);
                    },
                    _ => {},
                }
                EventResult::Stale
            },
            TaskPoll::Failed => {
                match state {
                    LoaderState::Pending { task, .. } => {
                        *task = None;
                    },
                    _ => {},
                }
                EventResult::Stale
            },
        }
    }
}

impl<T, A, V, P, FF, F> View<T, A> for Loader<T, A, V, P, FF, F> where
    V: View<T, A> + Send + 'static,
    P: View<T, A>,
    FF: Future<Output = V> + Send + 'static,
    F: Fn() -> FF,
 {
    type State = LoaderState<T, A, V, P>;

    type Element = EitherWidget<P::Element, V::Element>;

    open spec fn wf(&self) -> bool {
        &&& self.pending.wf()
        &&& call_requires(self.callback, ())
        &&& forall|view: V| #[trigger] view.wf()
    }

    open spec fn coherent(&self, state: Self::State) -> bool {
        match state {
            LoaderState::Pending { state: ps, .. } => self.pending.coherent(ps),
            LoaderState::Build(_) => true,
            LoaderState::Complete { view, state: vs, .. } => view.coherent(vs),
        }
    }

    open spec fn consistent(&self, state: Self::State, element: Self::Element) -> bool {
        match state {
            LoaderState::Pending { state: ps, .. } => {
                &&& element matches EitherWidget::First(shown)
                &&& self.pending.consistent(ps, shown)
            },
            LoaderState::Build(_) => true,
            LoaderState::Complete { view, state: vs, .. } => {
                &&& element matches EitherWidget::Second(shown)
                &&& view.consistent(vs, shown)
            },
        }
    }

    open spec fn idle(&self, state: Self::State) -> bool {
        match state {
            LoaderState::Pending { state: ps, task, .. } => task is None && self.pending.idle(ps),
            LoaderState::Build(_) => true,
            LoaderState::Complete { view, state: vs, .. } => view.idle(vs),
        }
    }

    open spec fn unchanged(
        &self,
        prev: Self,
        app: T,
        state: Self::State,
        element: Self::Element,
    ) -> bool {
        match state {
            LoaderState::Pending { state: ps, .. } => {
                &&& element matches EitherWidget::First(shown)
                &&& self.pending.unchanged(prev.pending, app, ps, shown)
            },
            LoaderState::Build(_) => false,
            LoaderState::Complete { .. } => true,
        }
    }

    open spec fn built(
        &self,
        cx0: Cx,
        app0: T,
        cx1: Cx,
        app1: T,
        id: Id,
        state: Self::State,
        element: Self::Element,
    ) -> bool {
        &&& id.raw() == cx0.next()
        &&& exists|future: FF| #[trigger] call_ensures(self.callback, (), future)
        &&& exists|inner: Cx, end: Cx, polled: TaskPoll<V>, abort_handle: Canceller|
            {
                &&& inner.inside(cx0, id, next_after(cx0.next()))
                &&& #[trigger] self.settled(
                    inner,
                    app0,
                    end,
                    app1,
                    id,
                    polled,
                    inner.driver_waker(),
                    abort_handle,
                    state,
                    element,
                )
                &&& cx1.agrees(end)
            }
    }

    open spec fn rebuilt(
        &self,
        prev: Self,
        cx0: Cx,
        app0: T,
        id0: Id,
        state0: Self::State,
        element0: Self::Element,
        cx1: Cx,
        app1: T,
        id1: Id,
        state1: Self::State,
        element1: Self::Element,
        changed: bool,
    ) -> bool {
        &&& id1 == id0
        &&& exists|inner: Cx, end: Cx|
            {
                &&& inner.inside(cx0, id0, cx0.next())
                &&& #[trigger] self.advanced(
                    prev,
                    inner,
                    app0,
                    state0,
                    element0,
                    end,
                    app1,
                    state1,
                    element1,
                    changed,
                )
                &&& cx1.agrees(end)
            }
    }

    open spec fn dispatched(
        &self,
        id_path: Seq<Id>,
        message: Message,
        app0: T,
        state0: Self::State,
        app1: T,
        state1: Self::State,
        result: EventResult<A>,
    ) -> bool {
        match state0 {
            LoaderState::Pending { id: cid, state: ps0, task: t0, .. } => {
                if id_path.len() == 0 {
                    if message is AsyncWake {
                        &&& app1 == app0
                        &&& exists|polled: TaskPoll<V>|
                            {
                                &&& t0 is None ==> polled is Failed
                                &&& polled matches TaskPoll::Pending(back) ==> t0 == Some(back)
                                &&& polled is Ready ==> exists|gone: LoaderState<T, A, V, P>|
                                    #[trigger] self.torn_down(state0, gone) && self.idle(gone)
                                &&& #[trigger] Self::woken(state0, polled, state1, result)
                            }
                    } else {
                        Self::missed(app0, state0, app1, state1, result)
                    }
                } else if id_path[0] == cid {
                    &&& Self::same_but_state(state0, state1)
                    &&& self.pending.dispatched(
                        id_path.subrange(1, id_path.len() as int),
                        message,
                        app0,
                        ps0,
                        app1,
                        state1->Pending_state,
                        result,
                    )
                } else {
                    Self::missed(app0, state0, app1, state1, result)
                }
            },
            LoaderState::Build(_) => Self::missed(app0, state0, app1, state1, result),
            LoaderState::Complete { id: cid, view, state: vs0 } => {
                if id_path.len() > 0 && id_path[0] == cid {
                    &&& Self::same_but_state(state0, state1)
                    &&& view.dispatched(
                        id_path.subrange(1, id_path.len() as int),
                        message,
                        app0,
                        vs0,
                        app1,
                        state1->Complete_state,
                        result,
                    )
                } else {
                    Self::missed(app0, state0, app1, state1, result)
                }
            },
        }
    }

    open spec fn torn_down(&self, state0: Self::State, state1: Self::State) -> bool {
        match state0 {
            LoaderState::Pending { state: ps0, .. } => {
                &&& Self::same_but_state_and_task(state0, state1)
                &&& state1->task is None
                &&& state1->abort_handle.asked()
                &&& self.pending.torn_down(ps0, state1->Pending_state)
            },
            LoaderState::Build(_) => state1 == state0,
            LoaderState::Complete { view, state: vs0, .. } => {
                &&& Self::same_but_state(state0, state1)
                &&& view.torn_down(vs0, state1->Complete_state)
            },
        }
    }

    fn build(&self, cx: &mut Cx, app_state: &mut T) -> (out: (Id, Self::State, Self::Element))
        ensures
            !final(cx).exhausted() ==> {
                &&& Self::child_id(out.1) matches Some(child)
                &&& out.0.raw() < child.raw() < final(cx).next()
            },
    {
        let id = cx.new_id();
        cx.push(id);
        let ghost inner = *cx;
        let future = (self.callback)();
        let ghost made = future;
        let waker = cx.waker();
        let (polled, abort_handle) = spawn_and_poll(future, &waker);
        let (state, element) = self.settle(cx, app_state, id, polled, waker, abort_handle);
        let ghost end = *cx;
        cx.pop();
        proof {
            assert(old(cx).path().push(id).drop_last() =~= old(cx).path());
            assert(inner.inside(*old(cx), id, next_after(old(cx).next())));
            assert(cx.agrees(end));
            assert(call_ensures(self.callback, (), made));
        }
        (id, state, element)
    }

    fn rebuild(
        &self,
        cx: &mut Cx,
        prev: &Self,
        id: &mut Id,
        state: &mut Self::State,
        element: &mut Self::Element,
        app_state: &mut T,
    ) -> (changed: bool)
        ensures
            self.unchanged(*prev, *old(app_state), *old(state), *old(element)) ==> Self::child_id(
                *final(state),
            ) == Self::child_id(*old(state)),
    {
        cx.push(*id);
        let ghost inner = *cx;
        let changed = self.advance(cx, prev, state, element, app_state);
        let ghost end = *cx;
        cx.pop();
        proof {
            assert(old(cx).path().push(*id).drop_last() =~= old(cx).path());
            assert(inner.inside(*old(cx), *id, old(cx).next()));
            assert(cx.agrees(end));
        }
        changed
    }

    fn event(
        &self,
        id_path: &[Id],
        state: &mut Self::State,
        message: Message,
        app_state: &mut T,
    ) -> (result: EventResult<A>) {
        match state {
            LoaderState::Pending { id, state: pending_state, task, waker, .. } => {
                if id_path.len() == 0 {
                    match message {
                        Message::AsyncWake => {
                            let polled = take_and_poll(task, waker);
                            let ghost found = polled;
                            let ghost taken = *state;
                            let result = self.wake(state, polled);
                            proof {
                                assert(Self::same_but_task(*old(state), taken));
                                assert(Self::woken(*old(state), found, *state, result));
                                if found is Ready {
                                    let gone = choose|gone: LoaderState<T, A, V, P>|
                                        #[trigger] self.torn_down(taken, gone) && self.idle(gone);
                                    assert(self.torn_down(*old(state), gone) && self.idle(gone));
                                }
                            }
                            result
                        },
                        _ => EventResult::Stale,
                    }
                } else if id_path[0] == *id {
                    let tl = vstd::slice::slice_subrange(id_path, 1, id_path.len());
                    self.pending.event(tl, pending_state, message, app_state)
                } else {
                    EventResult::Stale
                }
            },
            LoaderState::Build(_) => EventResult::Stale,
            LoaderState::Complete { id, view, state: view_state } => {
                if id_path.len() > 0 && id_path[0] == *id {
                    let tl = vstd::slice::slice_subrange(id_path, 1, id_path.len());
                    view.event(tl, view_state, message, app_state)
                } else {
                    EventResult::Stale
                }
            },
        }
    }

    fn teardown(&self, state: &mut Self::State) {
        match state {
            LoaderState::Pending { state: pending_state, task, abort_handle, .. } => {
                abort_handle.cancel();
                *task = None;
                self.pending.teardown(pending_state);
            },
            LoaderState::Build(_) => {},
            LoaderState::Complete { view, state: view_state, .. } => {
                view.teardown(view_state);
            },
        }
    }
}

} // verus!
