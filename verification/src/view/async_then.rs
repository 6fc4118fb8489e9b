//! A view that shows a placeholder while a computation runs, and the view
//! made from the computation's output once it has finished.

use vstd::prelude::*;
use vstd::view::View as _;
use vstd::std_specs::cmp::PartialEqSpec;
use std::future::Future;
use std::marker::PhantomData;
use std::task::Waker;
use crate::cx::Cx;
use crate::cx::next_after;
use crate::cx::node_path;
use crate::event::EventResult;
use crate::event::Message;
use crate::id::Id;
use crate::task::Canceller;
use crate::task::Running;
use crate::task::TaskPoll;
use crate::task::spawn_and_poll;
use crate::task::take_and_poll;
use crate::view::View;
use crate::widget::EitherWidget;
use crate::widget::Widget;

verus! {

/// Runs the computation that `build_future` makes from `data`, shows
/// `pending` until it has finished, and then the view that `then` makes from
/// its output. A change of `data` starts over.
pub fn async_then<Data, T, A, ThenView, PendingView, Task, BuildFuture, Then>(
    pending: PendingView,
    data: Data,
    build_future: BuildFuture,
    then: Then,
) -> (view: AsyncThen<Data, T, A, ThenView, PendingView, Task, BuildFuture, Then>)
    ensures
        view.pending == pending,
        view.data == data,
        view.build_future == build_future,
        view.on_output == then,
{
    AsyncThen::new(pending, data, build_future, then)
}

/// The view that `async_then` makes.
pub struct AsyncThen<Data, T, A, ThenView, PendingView, Task, BuildFuture, Then> {
    pub data: Data,
    pub pending: PendingView,
    pub build_future: BuildFuture,
    pub on_output: Then,
    pub phantom: PhantomData<(T, A, ThenView, Task)>,
}

/// Where an `AsyncThen` node stands.
#[verifier::reject_recursive_types(TaskOutput)]
#[allow(inconsistent_fields)]
pub enum AsyncThenState<T, A, ThenView: View<T, A>, PendingView: View<T, A>, TaskOutput> {
    /// The placeholder is shown. `task` is the computation, as long as one
    /// is outstanding; `abort_handle` cancels it.
    Pending {
        id: Id,
        state: PendingView::State,
        task: Option<Running<TaskOutput>>,
        waker: Waker,
        abort_handle: Canceller,
    },
    /// The computation has finished; the next reconciliation makes the view
    /// of its output.
    Build(Option<TaskOutput>),
    /// The view of the output is shown.
    Complete { id: Id, output: TaskOutput, view: ThenView, state: ThenView::State },
}

impl<Data, T, A, ThenView, PendingView, Task, BuildFuture, Then> AsyncThen<
    Data,
    T,
    A,
    ThenView,
    PendingView,
    Task,
    BuildFuture,
    Then,
> {
    /// See `async_then`.
    pub fn new(pending: PendingView, data: Data, build_future: BuildFuture, then: Then) -> (view:
        Self)
        ensures
            view.pending == pending,
            view.data == data,
            view.build_future == build_future,
            view.on_output == then,
    {
        AsyncThen { data, pending, build_future, on_output: then, phantom: PhantomData }
    }
}

impl<Data, T, A, ThenView, PendingView, Task, BuildFuture, Then> AsyncThen<
    Data,
    T,
    A,
    ThenView,
    PendingView,
    Task,
    BuildFuture,
    Then,
> where
    Data: PartialEq,
    BuildFuture: Fn(&Data) -> Task,
    Then: Fn(&T, &Task::Output) -> ThenView,
    Task: Future + Send + 'static,
    Task::Output: Send + 'static,
    ThenView: View<T, A>,
    PendingView: View<T, A>,
 {
    /// The node shows the view of `output`, constructed from `inner` and
    /// `app0`.
    pub open spec fn completed(
        &self,
        inner: Cx,
        app0: T,
        end: Cx,
        app1: T,
        output: Task::Output,
        state: AsyncThenState<T, A, ThenView, PendingView, Task::Output>,
        element: EitherWidget<PendingView::Element, ThenView::Element>,
    ) -> bool {
        &&& state matches AsyncThenState::Complete { id: cid, output: o, view, state: vs }
        &&& element matches EitherWidget::Second(shown)
        &&& o == output
        &&& call_ensures(self.on_output, (&app0, &output), view)
        &&& view.built(inner, app0, end, app1, cid, vs, shown)
    }

    /// The node shows the placeholder, constructed from `mid` and `app0`,
    /// and holds `task`.
    pub open spec fn waiting(
        &self,
        mid: Cx,
        app0: T,
        end: Cx,
        app1: T,
        task: Option<Running<Task::Output>>,
        waker: Waker,
        abort_handle: Canceller,
        state: AsyncThenState<T, A, ThenView, PendingView, Task::Output>,
        element: EitherWidget<PendingView::Element, ThenView::Element>,
    ) -> bool {
        &&& state matches AsyncThenState::Pending {
            id: cid,
            state: ps,
            task: t,
            waker: w,
            abort_handle: h,
        }
        &&& element matches EitherWidget::First(shown)
        &&& t == task
        &&& w == waker
        &&& h == abort_handle
        &&& self.pending.built(mid, app0, end, app1, cid, ps, shown)
    }

    /// What the node `own` becomes, inside its own scope, when the first
    /// look at its computation found `polled`.
    pub open spec fn settled(
        &self,
        inner: Cx,
        app0: T,
        end: Cx,
        app1: T,
        own: Id,
        polled: TaskPoll<Task::Output>,
        waker: Waker,
        abort_handle: Canceller,
        state: AsyncThenState<T, A, ThenView, PendingView, Task::Output>,
        element: EitherWidget<PendingView::Element, ThenView::Element>,
    ) -> bool {
        match polled {
            TaskPoll::Ready(output) => self.completed(inner, app0, end, app1, output, state, element),
            TaskPoll::Pending(task) => exists|mid: Cx|
                {
                    &&& mid.path() == inner.path()
                    &&& mid.next() == inner.next()
                    &&& mid.pending() == inner.pending().push(node_path(inner.path(), own))
                    &&& #[trigger] self.waiting(
                        mid,
                        app0,
                        end,
                        app1,
                        Some(task),
                        waker,
                        abort_handle,
                        state,
                        element,
                    )
                },
            TaskPoll::Failed => self.waiting(
                inner,
                app0,
                end,
                app1,
                None,
                waker,
                abort_handle,
                state,
                element,
            ),
        }
    }

    /// What a completion signal makes of a pending node, when the look at
    /// its computation found `polled`.
    pub open spec fn woken(
        state0: AsyncThenState<T, A, ThenView, PendingView, Task::Output>,
        polled: TaskPoll<Task::Output>,
        state1: AsyncThenState<T, A, ThenView, PendingView, Task::Output>,
        result: EventResult<A>,
    ) -> bool {
        match polled {
            TaskPoll::Ready(output) => {
                &&& state1 == AsyncThenState::<T, A, ThenView, PendingView, Task::Output>::Build(
                    Some(output),
                )
                &&& result is RequestRebuild
            },
            TaskPoll::Pending(task) => {
                &&& Self::same_but_task(state0, state1)
                &&& state1->task == Some(task)
                &&& result is Stale
            },
            TaskPoll::Failed => {
                &&& Self::same_but_task(state0, state1)
                &&& state1->task is None
                &&& result is Stale
            },
        }
    }

    /// Both states are pending and differ at most in the computation held.
    pub open spec fn same_but_task(
        state0: AsyncThenState<T, A, ThenView, PendingView, Task::Output>,
        state1: AsyncThenState<T, A, ThenView, PendingView, Task::Output>,
    ) -> bool {
        &&& state0 matches AsyncThenState::Pending {
            id: i0,
            state: ps0,
            task: t0,
            waker: w0,
            abort_handle: h0,
        }
        &&& state1 matches AsyncThenState::Pending {
            id: i1,
            state: ps1,
            task: t1,
            waker: w1,
            abort_handle: h1,
        }
        &&& i1 == i0
        &&& ps1 == ps0
        &&& w1 == w0
        &&& h1 == h0
    }

    /// Nothing was delivered.
    pub open spec fn missed(
        app0: T,
        state0: AsyncThenState<T, A, ThenView, PendingView, Task::Output>,
        app1: T,
        state1: AsyncThenState<T, A, ThenView, PendingView, Task::Output>,
        result: EventResult<A>,
    ) -> bool {
        result is Stale && app1 == app0 && state1 == state0
    }

    /// The identity of the child that the node shows, if it shows one.
    pub open spec fn child_id(
        state: AsyncThenState<T, A, ThenView, PendingView, Task::Output>,
    ) -> Option<Id> {
        match state {
            AsyncThenState::Pending { id, .. } => Some(id),
            AsyncThenState::Build(_) => None,
            AsyncThenState::Complete { id, .. } => Some(id),
        }
    }

    /// Makes the view of `output` and constructs it.
    pub fn complete(&self, cx: &mut Cx, app_state: &mut T, output: Task::Output) -> (out: (
        AsyncThenState<T, A, ThenView, PendingView, Task::Output>,
        EitherWidget<PendingView::Element, ThenView::Element>,
    ))
        requires
            self.wf(),
        ensures
            final(cx).path() == old(cx).path(),
            final(cx).driver_waker() == old(cx).driver_waker(),
            old(cx).next() <= final(cx).next(),
            self.coherent(out.0),
            self.consistent(out.0, out.1),
            self.completed(
                *old(cx),
                *old(app_state),
                *final(cx),
                *final(app_state),
                output,
                out.0,
                out.1,
            ),
            Self::child_id(out.0) matches Some(child) && final(cx).allocated_since(*old(cx), child),
    {
        let view = (self.on_output)(&*app_state, &output);
        let (id, state, element) = view.build(cx, app_state);
        (AsyncThenState::Complete { id, output, view, state }, EitherWidget::Second(element))
    }

    /// Makes the node `own` from what the first look at its computation
    /// found: the view of the output where there is one, else the
    /// placeholder. A node whose computation is outstanding is registered as
    /// pending.
    pub fn settle(
        &self,
        cx: &mut Cx,
        app_state: &mut T,
        own: Id,
        polled: TaskPoll<Task::Output>,
        waker: Waker,
        abort_handle: Canceller,
    ) -> (out: (
        AsyncThenState<T, A, ThenView, PendingView, Task::Output>,
        EitherWidget<PendingView::Element, ThenView::Element>,
    ))
        requires
            self.wf(),
        ensures
            final(cx).path() == old(cx).path(),
            final(cx).driver_waker() == old(cx).driver_waker(),
            old(cx).next() <= final(cx).next(),
            self.coherent(out.0),
            self.consistent(out.0, out.1),
            self.settled(
                *old(cx),
                *old(app_state),
                *final(cx),
                *final(app_state),
                own,
                polled,
                waker,
                abort_handle,
                out.0,
                out.1,
            ),
            Self::child_id(out.0) matches Some(child) && final(cx).allocated_since(*old(cx), child),
    {
        match polled {
            TaskPoll::Ready(output) => self.complete(cx, app_state, output),
            TaskPoll::Pending(task) => {
                cx.add_pending_async(own);
                let ghost mid = *cx;
                let (id, state, element) = self.pending.build(cx, app_state);
                let out = (
                    AsyncThenState::Pending { id, state, task: Some(task), waker, abort_handle },
                    EitherWidget::First(element),
                );
                proof {
                    assert(self.waiting(
                        mid,
                        *old(app_state),
                        *cx,
                        *app_state,
                        Some(task),
                        waker,
                        abort_handle,
                        out.0,
                        out.1,
                    ));
                }
                out
            },
            TaskPoll::Failed => {
                let (id, state, element) = self.pending.build(cx, app_state);
                (
                    AsyncThenState::Pending { id, state, task: None, waker, abort_handle },
                    EitherWidget::First(element),
                )
            },
        }
    }

    /// Takes note of what a look at the computation of a pending node found.
    /// An output moves the node on, and asks for a reconciliation; what the
    /// placeholder retained is torn down first. Anything else leaves the
    /// node pending.
    pub fn wake(
        &self,
        state: &mut AsyncThenState<T, A, ThenView, PendingView, Task::Output>,
        polled: TaskPoll<Task::Output>,
    ) -> (result: EventResult<A>)
        requires
            self.wf(),
            self.coherent(*old(state)),
            *old(state) is Pending,
        ensures
            Self::woken(*old(state), polled, *final(state), result),
            polled is Ready ==> exists|gone: AsyncThenState<T, A, ThenView, PendingView, Task::Output>|
                #[trigger] self.torn_down(*old(state), gone) && self.idle(gone),
            self.coherent(*final(state)),
            forall|e: EitherWidget<PendingView::Element, ThenView::Element>| #[trigger]
                self.consistent(*old(state), e) ==> self.consistent(*final(state), e),
    {
        match polled {
            TaskPoll::Ready(output) => {
                self.teardown(state);
                proof {
                    assert(self.torn_down(*old(state), *state) && self.idle(*state));
                }
                *state = AsyncThenState::Build(Some(output));
                EventResult::RequestRebuild
            },
            TaskPoll::Pending(handle) => {
                match state {
                    AsyncThenState::Pending { task, .. } => {
                        *task = Some(handle);
                    },
                    _ => {},
                }
                EventResult::Stale
            },
            TaskPoll::Failed => {
                match state {
                    AsyncThenState::Pending { task, .. } => {
                        *task = None;
                    },
                    _ => {},
                }
                EventResult::Stale
            },
        }
    }
}

impl<Data, T, A, ThenView, PendingView, Task, BuildFuture, Then> View<T, A> for AsyncThen<
    Data,
    T,
    A,
    ThenView,
    PendingView,
    Task,
    BuildFuture,
    Then,
> where
    Data: PartialEq,
    BuildFuture: Fn(&Data) -> Task,
    Then: Fn(&T, &Task::Output) -> ThenView,
    Task: Future + Send + 'static,
    Task::Output: Send + 'static,
    ThenView: View<T, A>,
    PendingView: View<T, A>,
 {
    type State = AsyncThenState<T, A, ThenView, PendingView, Task::Output>;

    type Element = EitherWidget<PendingView::Element, ThenView::Element>;

    open spec fn wf(&self) -> bool {
        &&& self.pending.wf()
        &&& forall|data: Data| call_requires(self.build_future, (&data,))
        &&& forall|app: T, output: Task::Output| call_requires(self.on_output, (&app, &output))
        &&& forall|app: T, output: Task::Output, view: ThenView|
            call_ensures(self.on_output, (&app, &output), view) ==> view.wf()
    }

    open spec fn coherent(&self, state: Self::State) -> bool {
        match state {
            AsyncThenState::Pending { state: ps, .. } => self.pending.coherent(ps),
            AsyncThenState::Build(_) => true,
            AsyncThenState::Complete { view, state: vs, .. } => view.wf() && view.coherent(vs),
        }
    }

    open spec fn consistent(&self, state: Self::State, element: Self::Element) -> bool {
        match state {
            AsyncThenState::Pending { state: ps, .. } => {
                &&& element matches EitherWidget::First(shown)
                &&& self.pending.consistent(ps, shown)
            },
            AsyncThenState::Build(_) => true,
            AsyncThenState::Complete { view, state: vs, .. } => {
                &&& element matches EitherWidget::Second(shown)
                &&& view.consistent(vs, shown)
            },
        }
    }

    open spec fn idle(&self, state: Self::State) -> bool {
        match state {
            AsyncThenState::Pending { state: ps, task, .. } => task is None && self.pending.idle(
                ps,
            ),
            AsyncThenState::Build(_) => true,
            AsyncThenState::Complete { view, state: vs, .. } => view.idle(vs),
        }
    }

    open spec fn unchanged(
        &self,
        prev: Self,
        app: T,
        state: Self::State,
        element: Self::Element,
    ) -> bool {
        &&& Data::obeys_eq_spec()
        &&& prev.data.eq_spec(&self.data)
        &&& match state {
            AsyncThenState::Pending { state: ps, .. } => {
                &&& element matches EitherWidget::First(shown)
                &&& self.pending.unchanged(prev.pending, app, ps, shown)
            },
            AsyncThenState::Build(_) => false,
            AsyncThenState::Complete { output, view, state: vs, .. } => {
                &&& element matches EitherWidget::Second(shown)
                &&& forall|v: ThenView| #[trigger]
                    call_ensures(self.on_output, (&app, &output), v) ==> v.unchanged(
                        view,
                        app,
                        vs,
                        shown,
                    )
            },
        }
    }

    open spec fn built(
        &self,
        cx0: Cx,
        app0: T,
        cx1: Cx,
        app1: T,
        id: Id,
        state: Self::State,
        element: Self::Element,
    ) -> bool {
        &&& id.raw() == cx0.next()
        &&& exists|future: Task| #[trigger] call_ensures(self.build_future, (&self.data,), future)
        &&& exists|inner: Cx, end: Cx, polled: TaskPoll<Task::Output>, abort_handle: Canceller|
            {
                &&& inner.inside(cx0, id, next_after(cx0.next()))
                &&& #[trigger] self.settled(
                    inner,
                    app0,
                    end,
                    app1,
                    id,
                    polled,
                    inner.driver_waker(),
                    abort_handle,
                    state,
                    element,
                )
                &&& cx1.agrees(end)
            }
    }

    open spec fn rebuilt(
        &self,
        prev: Self,
        cx0: Cx,
        app0: T,
        id0: Id,
        state0: Self::State,
        element0: Self::Element,
        cx1: Cx,
        app1: T,
        id1: Id,
        state1: Self::State,
        element1: Self::Element,
        changed: bool,
    ) -> bool {
        exists|differ: bool|
            {
                &&& Data::obeys_eq_spec() ==> differ == !prev.data.eq_spec(&self.data)
                &&& #[trigger] self.rebuilt_given(
                    differ,
                    prev,
                    cx0,
                    app0,
                    id0,
                    state0,
                    element0,
                    cx1,
                    app1,
                    id1,
                    state1,
                    element1,
                    changed,
                )
            }
    }

    open spec fn dispatched(
        &self,
        id_path: Seq<Id>,
        message: Message,
        app0: T,
        state0: Self::State,
        app1: T,
        state1: Self::State,
        result: EventResult<A>,
    ) -> bool {
        match state0 {
            AsyncThenState::Pending { id: cid, state: ps0, task: t0, waker, abort_handle } => {
                if id_path.len() == 0 {
                    if message is AsyncWake {
                        &&& app1 == app0
                        &&& exists|polled: TaskPoll<Task::Output>|
                            {
                                &&& t0 is None ==> polled is Failed
                                &&& polled matches TaskPoll::Pending(back) ==> t0 == Some(back)
                                &&& polled is Ready ==> exists|gone: AsyncThenState<T, A, ThenView, PendingView, Task::Output>|
                                    #[trigger] self.torn_down(state0, gone) && self.idle(gone)
                                &&& #[trigger] Self::woken(state0, polled, state1, result)
                            }
                    } else {
                        Self::missed(app0, state0, app1, state1, result)
                    }
                } else if id_path[0] == cid {
                    &&& Self::same_but_state(state0, state1)
                    &&& self.pending.dispatched(
                        id_path.subrange(1, id_path.len() as int),
                        message,
                        app0,
                        ps0,
                        app1,
                        state1->Pending_state,
                        result,
                    )
                } else {
                    Self::missed(app0, state0, app1, state1, result)
                }
            },
            AsyncThenState::Build(_) => Self::missed(app0, state0, app1, state1, result),
            AsyncThenState::Complete { id: cid, view, state: vs0, .. } => {
                if id_path.len() > 0 && id_path[0] == cid {
                    &&& Self::same_but_state(state0, state1)
                    &&& view.dispatched(
                        id_path.subrange(1, id_path.len() as int),
                        message,
                        app0,
                        vs0,
                        app1,
                        state1->Complete_state,
                        result,
                    )
                } else {
                    Self::missed(app0, state0, app1, state1, result)
                }
            },
        }
    }

    open spec fn torn_down(&self, state0: Self::State, state1: Self::State) -> bool {
        match state0 {
            AsyncThenState::Pending { state: ps0, .. } => {
                &&& Self::same_but_state_and_task(state0, state1)
                &&& state1->task is None
                &&& state1->abort_handle.asked()
                &&& self.pending.torn_down(ps0, state1->Pending_state)
            },
            AsyncThenState::Build(_) => state1 == state0,
            AsyncThenState::Complete { view, state: vs0, .. } => {
                &&& Self::same_but_state(state0, state1)
                &&& view.torn_down(vs0, state1->Complete_state)
            },
        }
    }

    fn build(&self, cx: &mut Cx, app_state: &mut T) -> (out: (Id, Self::State, Self::Element))
        ensures
            !final(cx).exhausted() ==> {
                &&& Self::child_id(out.1) matches Some(child)
                &&& out.0.raw() < child.raw() < final(cx).next()
            },
    {
        let id = cx.new_id();
        cx.push(id);
        let ghost inner = *cx;
        let future = (self.build_future)(&self.data);
        let ghost made = future;
        let waker = cx.waker();
        let (polled, abort_handle) = spawn_and_poll(future, &waker);
        let (state, element) = self.settle(cx, app_state, id, polled, waker, abort_handle);
        let ghost end = *cx;
        cx.pop();
        proof {
            assert(old(cx).path().push(id).drop_last() =~= old(cx).path());
            assert(inner.inside(*old(cx), id, next_after(old(cx).next())));
            assert(cx.agrees(end));
            assert(call_ensures(self.build_future, (&self.data,), made));
        }
        (id, state, element)
    }

    fn rebuild(
        &self,
        cx: &mut Cx,
        prev: &Self,
        id: &mut Id,
        state: &mut Self::State,
        element: &mut Self::Element,
        app_state: &mut T,
    ) -> (changed: bool)
        ensures
            self.unchanged(*prev, *old(app_state), *old(state), *old(element)) ==> Self::child_id(
                *final(state),
            ) == Self::child_id(*old(state)),
    {
        let differ = prev.data != self.data;
        let changed = if differ {
            prev.teardown(state);
            proof {
                assert(prev.torn_down(*old(state), *state) && prev.idle(*state));
            }
            let (new_id, new_state, new_element) = self.build(cx, app_state);
            *id = new_id;
            *state = new_state;
            *element = new_element;
            true
        } else {
            cx.push(*id);
            let ghost inner = *cx;
            let changed = self.advance(cx, prev, state, element, app_state);
            let ghost end = *cx;
            cx.pop();
            proof {
                assert(old(cx).path().push(*id).drop_last() =~= old(cx).path());
                assert(inner.inside(*old(cx), *id, old(cx).next()));
                assert(cx.agrees(end));
            }
            changed
        };
        proof {
            assert(self.rebuilt_given(
                differ,
                *prev,
                *old(cx),
                *old(app_state),
                *old(id),
                *old(state),
                *old(element),
                *cx,
                *app_state,
                *id,
                *state,
                *element,
                changed,
            ));
        }
        changed
    }

    fn event(
        &self,
        id_path: &[Id],
        state: &mut Self::State,
        message: Message,
        app_state: &mut T,
    ) -> (result: EventResult<A>) {
        match state {
            AsyncThenState::Pending { id, state: pending_state, task, waker, .. } => {
                if id_path.len() == 0 {
                    match message {
                        Message::AsyncWake => {
                            let polled = take_and_poll(task, waker);
                            let ghost found = polled;
                            let ghost taken = *state;
                            let result = self.wake(state, polled);
                            proof {
                                assert(Self::same_but_task(*old(state), taken));
                                assert(Self::woken(*old(state), found, *state, result));
                                if found is Ready {
                                    let gone = choose|gone: AsyncThenState<T, A, ThenView, PendingView, Task::Output>|
                                        #[trigger] self.torn_down(taken, gone) && self.idle(gone);
                                    assert(self.torn_down(*old(state), gone) && self.idle(gone));
                                }
                            }
                            result
                        },
                        _ => EventResult::Stale,
                    }
                } else if id_path[0] == *id {
                    let tl = vstd::slice::slice_subrange(id_path, 1, id_path.len());
                    self.pending.event(tl, pending_state, message, app_state)
                } else {
                    EventResult::Stale
                }
            },
            AsyncThenState::Build(_) => EventResult::Stale,
            AsyncThenState::Complete { id, view, state: view_state, .. } => {
                if id_path.len() > 0 && id_path[0] == *id {
                    let tl = vstd::slice::slice_subrange(id_path, 1, id_path.len());
                    view.event(tl, view_state, message, app_state)
                } else {
                    EventResult::Stale
                }
            },
        }
    }

    fn teardown(&self, state: &mut Self::State) {
        match state {
            AsyncThenState::Pending { state: pending_state, task, abort_handle, .. } => {
                abort_handle.cancel();
                *task = None;
                self.pending.teardown(pending_state);
            },
            AsyncThenState::Build(_) => {},
            AsyncThenState::Complete { view, state: view_state, .. } => {
                view.teardown(view_state);
            },
        }
    }
}

impl<Data, T, A, ThenView, PendingView, Task, BuildFuture, Then> AsyncThen<
    Data,
    T,
    A,
    ThenView,
    PendingView,
    Task,
    BuildFuture,
    Then,
> where
    Data: PartialEq,
    BuildFuture: Fn(&Data) -> Task,
    Then: Fn(&T, &Task::Output) -> ThenView,
    Task: Future + Send + 'static,
    Task::Output: Send + 'static,
    ThenView: View<T, A>,
    PendingView: View<T, A>,
 {
    /// Both states stand at the same stage with the same child and differ
    /// at most in what the child retains.
    pub open spec fn same_but_state(
        state0: AsyncThenState<T, A, ThenView, PendingView, Task::Output>,
        state1: AsyncThenState<T, A, ThenView, PendingView, Task::Output>,
    ) -> bool {
        match state0 {
            AsyncThenState::Pending { id, task, waker, abort_handle, .. } => {
                &&& state1 matches AsyncThenState::Pending {
                    id: i1,
                    task: t1,
                    waker: w1,
                    abort_handle: h1,
                    ..
                }
                &&& i1 == id
                &&& t1 == task
                &&& w1 == waker
                &&& h1 == abort_handle
            },
            AsyncThenState::Build(_) => state1 == state0,
            AsyncThenState::Complete { id, output, view, .. } => {
                &&& state1 matches AsyncThenState::Complete { id: i1, output: o1, view: v1, .. }
                &&& i1 == id
                &&& o1 == output
                &&& v1 == view
            },
        }
    }

    /// Both states are pending with the same child, waker and abort handle,
    /// and differ at most in what the child retains, in the computation held
    /// and in whether it has been asked to stop.
    pub open spec fn same_but_state_and_task(
        state0: AsyncThenState<T, A, ThenView, PendingView, Task::Output>,
        state1: AsyncThenState<T, A, ThenView, PendingView, Task::Output>,
    ) -> bool {
        &&& state0 matches AsyncThenState::Pending { id, waker, abort_handle, .. }
        &&& state1 matches AsyncThenState::Pending { id: i1, waker: w1, abort_handle: h1, .. }
        &&& i1 == id
        &&& w1 == waker
        &&& h1.handle() == abort_handle.handle()
    }

    /// What reconciliation does, given whether the data differ from those
    /// of `prev`: with other data what the node retained is torn down and
    /// the node starts over; with the same data it moves on from where it
    /// stands.
    pub open spec fn rebuilt_given(
        &self,
        differ: bool,
        prev: Self,
        cx0: Cx,
        app0: T,
        id0: Id,
        state0: AsyncThenState<T, A, ThenView, PendingView, Task::Output>,
        element0: EitherWidget<PendingView::Element, ThenView::Element>,
        cx1: Cx,
        app1: T,
        id1: Id,
        state1: AsyncThenState<T, A, ThenView, PendingView, Task::Output>,
        element1: EitherWidget<PendingView::Element, ThenView::Element>,
        changed: bool,
    ) -> bool {
        if differ {
            &&& changed
            &&& exists|gone: AsyncThenState<T, A, ThenView, PendingView, Task::Output>|
                #[trigger] prev.torn_down(state0, gone) && prev.idle(gone)
            &&& self.built(cx0, app0, cx1, app1, id1, state1, element1)
        } else {
            &&& id1 == id0
            &&& exists|inner: Cx, end: Cx|
                {
                    &&& inner.inside(cx0, id0, cx0.next())
                    &&& #[trigger] self.advanced(
                        prev,
                        inner,
                        app0,
                        state0,
                        element0,
                        end,
                        app1,
                        state1,
                        element1,
                        changed,
                    )
                    &&& cx1.agrees(end)
                }
        }
    }

    /// What reconciliation with unchanged data does inside the scope of the
    /// node: a finished computation is turned into the view of its output;
    /// otherwise the child that is shown is reconciled.
    pub open spec fn advanced(
        &self,
        prev: Self,
        inner: Cx,
        app0: T,
        state0: AsyncThenState<T, A, ThenView, PendingView, Task::Output>,
        element0: EitherWidget<PendingView::Element, ThenView::Element>,
        end: Cx,
        app1: T,
        state1: AsyncThenState<T, A, ThenView, PendingView, Task::Output>,
        element1: EitherWidget<PendingView::Element, ThenView::Element>,
        changed: bool,
    ) -> bool {
        match state0 {
            AsyncThenState::Build(Some(output)) => {
                &&& changed
                &&& self.completed(inner, app0, end, app1, output, state1, element1)
                &&& end.allocated_since(inner, state1->Complete_id)
            },
            AsyncThenState::Build(None) => {
                &&& !changed
                &&& state1 == state0
                &&& element1 == element0
                &&& app1 == app0
                &&& end == inner
            },
            AsyncThenState::Pending { id: cid, state: ps0, .. } => {
                &&& Self::same_but_state_and_id(state0, state1)
                &&& element0 matches EitherWidget::First(shown0)
                &&& element1 matches EitherWidget::First(shown1)
                &&& self.pending.rebuilt(
                    prev.pending,
                    inner,
                    app0,
                    cid,
                    ps0,
                    shown0,
                    end,
                    app1,
                    state1->Pending_id,
                    state1->Pending_state,
                    shown1,
                    changed,
                )
                &&& state1->Pending_id == cid || end.allocated_since(inner, state1->Pending_id)
            },
            AsyncThenState::Complete { id: cid, output, view, state: vs0 } => {
                &&& state1 matches AsyncThenState::Complete {
                    id: cid1,
                    output: o1,
                    view: v1,
                    state: vs1,
                }
                &&& element0 matches EitherWidget::Second(shown0)
                &&& element1 matches EitherWidget::Second(shown1)
                &&& o1 == output
                &&& call_ensures(self.on_output, (&app0, &output), v1)
                &&& v1.rebuilt(view, inner, app0, cid, vs0, shown0, end, app1, cid1, vs1, shown1, changed)
                &&& cid1 == cid || end.allocated_since(inner, cid1)
            },
        }
    }

    /// Both states are pending and hold the same computation.
    pub open spec fn same_but_state_and_id(
        state0: AsyncThenState<T, A, ThenView, PendingView, Task::Output>,
        state1: AsyncThenState<T, A, ThenView, PendingView, Task::Output>,
    ) -> bool {
        &&& state0 matches AsyncThenState::Pending { task, waker, abort_handle, .. }
        &&& state1 matches AsyncThenState::Pending { task: t1, waker: w1, abort_handle: h1, .. }
        &&& t1 == task
        &&& w1 == waker
        &&& h1 == abort_handle
    }

    /// A completion signal moves a pending node on exactly when the look at
    /// its computation found an output: then the node waits for the next
    /// reconciliation with the output, and the answer asks for one. In every
    /// other case the answer is stale and the node stays pending.
    pub proof fn lemma_wake_outcomes(
        state0: AsyncThenState<T, A, ThenView, PendingView, Task::Output>,
        polled: TaskPoll<Task::Output>,
        state1: AsyncThenState<T, A, ThenView, PendingView, Task::Output>,
        result: EventResult<A>,
    )
        requires
            state0 is Pending,
            Self::woken(state0, polled, state1, result),
        ensures
            polled matches TaskPoll::Ready(output) ==> result is RequestRebuild && state1
                == AsyncThenState::<T, A, ThenView, PendingView, Task::Output>::Build(
                Some(output),
            ),
            !(polled is Ready) ==> result is Stale && state1 is Pending,
    {
    }

    /// The reconciliation that follows a finished computation shows the
    /// view of the output, and that child only, and reports a change.
    pub proof fn lemma_build_becomes_complete(
        &self,
        prev: Self,
        inner: Cx,
        app0: T,
        output: Task::Output,
        element0: EitherWidget<PendingView::Element, ThenView::Element>,
        end: Cx,
        app1: T,
        state1: AsyncThenState<T, A, ThenView, PendingView, Task::Output>,
        element1: EitherWidget<PendingView::Element, ThenView::Element>,
        changed: bool,
    )
        requires
            self.advanced(
                prev,
                inner,
                app0,
                AsyncThenState::Build(Some(output)),
                element0,
                end,
                app1,
                state1,
                element1,
                changed,
            ),
        ensures
            changed,
            state1 is Complete,
            state1->output == output,
            element1 is Second,
            call_ensures(self.on_output, (&app0, &output), state1->view),
    {
    }

    /// A completion signal that finds the computation still running changes
    /// nothing: the node holds the same computation as before, and the
    /// application state is as it was.
    pub proof fn lemma_early_wake_changes_nothing(
        &self,
        app0: T,
        state0: AsyncThenState<T, A, ThenView, PendingView, Task::Output>,
        app1: T,
        state1: AsyncThenState<T, A, ThenView, PendingView, Task::Output>,
        result: EventResult<A>,
    )
        requires
            state0 is Pending,
            self.dispatched(Seq::<Id>::empty(), Message::AsyncWake, app0, state0, app1, state1, result),
            state1 is Pending,
            state1->task is Some,
        ensures
            result is Stale,
            state1 == state0,
            app1 == app0,
    {
    }

    /// Tearing down a pending node cancels its computation: when the call
    /// returns, the computation has been asked to stop through the abort
    /// handle that the node held, and the node holds no computation. A node
    /// that is not pending holds no abort handle, and nothing is cancelled.
    pub proof fn lemma_torn_down_node_is_cancelled(
        &self,
        before: AsyncThenState<T, A, ThenView, PendingView, Task::Output>,
        after: AsyncThenState<T, A, ThenView, PendingView, Task::Output>,
    )
        requires
            self.torn_down(before, after),
        ensures
            before is Pending ==> {
                &&& after is Pending
                &&& after->abort_handle.asked()
                &&& after->abort_handle.handle() == before->abort_handle.handle()
                &&& after->task is None
            },
            before is Build ==> after == before,
            before is Complete ==> after is Complete,
    {
    }

    /// A pending node that was torn down takes no completion signal: the
    /// answer is stale, and neither the node nor the application state
    /// changes. So a cancelled computation never delivers its result.
    pub proof fn lemma_torn_down_node_ignores_wake(
        &self,
        before: AsyncThenState<T, A, ThenView, PendingView, Task::Output>,
        state0: AsyncThenState<T, A, ThenView, PendingView, Task::Output>,
        app0: T,
        app1: T,
        state1: AsyncThenState<T, A, ThenView, PendingView, Task::Output>,
        result: EventResult<A>,
    )
        requires
            before is Pending,
            self.torn_down(before, state0),
            self.dispatched(Seq::<Id>::empty(), Message::AsyncWake, app0, state0, app1, state1, result),
        ensures
            result is Stale,
            app1 == app0,
            state1 is Pending,
            state1->task is None,
            Self::same_but_task(state0, state1),
    {
    }

    /// Moves the node on from where it stands, inside its own scope.
    pub fn advance(
        &self,
        cx: &mut Cx,
        prev: &Self,
        state: &mut AsyncThenState<T, A, ThenView, PendingView, Task::Output>,
        element: &mut EitherWidget<PendingView::Element, ThenView::Element>,
        app_state: &mut T,
    ) -> (changed: bool)
        requires
            self.wf(),
            prev.wf(),
            prev.coherent(*old(state)),
            prev.consistent(*old(state), *old(element)),
        ensures
            final(cx).path() == old(cx).path(),
            final(cx).driver_waker() == old(cx).driver_waker(),
            old(cx).next() <= final(cx).next(),
            self.coherent(*final(state)),
            self.consistent(*final(state), *final(element)),
            self.advanced(
                *prev,
                *old(cx),
                *old(app_state),
                *old(state),
                *old(element),
                *final(cx),
                *final(app_state),
                *final(state),
                *final(element),
                changed,
            ),
            Data::obeys_eq_spec() && prev.data.eq_spec(&self.data) && self.unchanged(
                *prev,
                *old(app_state),
                *old(state),
                *old(element),
            ) ==> {
                &&& !changed
                &&& *final(app_state) == *old(app_state)
                &&& old(element).same(*final(element))
                &&& Self::child_id(*final(state)) == Self::child_id(*old(state))
            },
    {
        match state {
            AsyncThenState::Build(output) => {
                match output.take() {
                    Some(output) => {
                        let (new_state, new_element) = self.complete(cx, app_state, output);
                        *state = new_state;
                        *element = new_element;
                        true
                    },
                    None => false,
                }
            },
            AsyncThenState::Pending { id, state: pending_state, .. } => {
                match element {
                    EitherWidget::First(shown) => self.pending.rebuild(
                        cx,
                        &prev.pending,
                        id,
                        pending_state,
                        shown,
                        app_state,
                    ),
                    EitherWidget::Second(_) => false,
                }
            },
            AsyncThenState::Complete { id, output, view, state: view_state } => {
                let new_view = (self.on_output)(&*app_state, &*output);
                match element {
                    EitherWidget::Second(shown) => {
                        let changed = new_view.rebuild(cx, &*view, id, view_state, shown, app_state);
                        *view = new_view;
                        changed
                    },
                    EitherWidget::First(_) => false,
                }
            },
        }
    }
}

} // verus!
