//! The asynchronous runtime and the geometry types, as far as the engine
//! touches them. What this file says of them is taken on trust.

use vstd::prelude::*;
use std::future::Future;
use std::pin::Pin;
use std::task::Context;
use std::task::Poll;
use std::task::Waker;
use futures::future::AbortHandle;
use futures::future::AbortRegistration;
use futures::future::Abortable;
use futures::future::Aborted;
use tokio::runtime::Handle;
use tokio::runtime::TryCurrentError;
use tokio::task::JoinError;
use tokio::task::JoinHandle;

verus! {

/// `std::task::Waker`: carried through, never looked into.
#[verifier::external_type_specification]
#[verifier::external_body]
pub struct ExWaker(Waker);

/// `kurbo::Size`: a measured size, carried through, never looked into.
#[verifier::external_type_specification]
#[verifier::external_body]
pub struct ExSize(kurbo::Size);

/// `futures::future::AbortHandle`: the handle that cancels one computation.
#[verifier::external_type_specification]
#[verifier::external_body]
pub struct ExAbortHandle(AbortHandle);

/// `futures::future::AbortRegistration`: the other half of an `AbortHandle`.
#[verifier::external_type_specification]
#[verifier::external_body]
pub struct ExAbortRegistration(AbortRegistration);

/// `futures::future::Aborted`: the outcome of a cancelled computation.
#[verifier::external_type_specification]
#[verifier::external_body]
pub struct ExAborted(Aborted);

/// `futures::future::Abortable`: a computation that can be cancelled.
#[verifier::external_type_specification]
#[verifier::external_body]
#[verifier::reject_recursive_types(T)]
pub struct ExAbortable<T>(Abortable<T>);

/// `tokio::task::JoinHandle`: the handle on a spawned computation.
#[verifier::external_type_specification]
#[verifier::external_body]
#[verifier::reject_recursive_types(T)]
pub struct ExJoinHandle<T>(JoinHandle<T>);

/// `tokio::task::JoinError`: why a spawned computation gave no result.
#[verifier::external_type_specification]
#[verifier::external_body]
pub struct ExJoinError(JoinError);

/// `tokio::runtime::Handle`: a runtime on which to spawn.
#[verifier::external_type_specification]
#[verifier::external_body]
pub struct ExHandle(Handle);

/// `tokio::runtime::TryCurrentError`: no runtime has been entered.
#[verifier::external_type_specification]
#[verifier::external_body]
pub struct ExTryCurrentError(TryCurrentError);

/// `AbortHandle::new_pair` makes a handle and its registration. Nothing is
/// claimed of them.
pub assume_specification[ AbortHandle::new_pair ]() -> (pair: (AbortHandle, AbortRegistration));

/// `Abortable::new` ties a computation to a registration. Nothing is claimed
/// of the result.
pub assume_specification<T>[ Abortable::<T>::new ](task: T, reg: AbortRegistration) -> (r:
    Abortable<T>);

/// `Handle::try_current` gives the runtime that the calling thread has
/// entered, or an error where it has entered none. It does not panic.
pub assume_specification[ Handle::try_current ]() -> (r: Result<Handle, TryCurrentError>);

/// `Handle::spawn` starts a computation on the runtime. Nothing is claimed
/// of the handle it returns.
pub assume_specification<F>[ Handle::spawn::<F> ](handle: &Handle, future: F) -> (task: JoinHandle<
    F::Output,
>) where F: Future + Send + 'static, F::Output: Send + 'static
;

/// A computation that was started and has not given its result. Only the
/// library makes one, when it starts a computation, and a look at the
/// computation uses it up: it comes back only while the computation runs.
/// So no computation is looked at again after it has given its result.
#[verifier::reject_recursive_types(O)]
pub struct Running<O> {
    handle: JoinHandle<Result<O, Aborted>>,
}

/// The handle that cancels one computation, together with what the library
/// knows of the flag inside it: whether the computation has been asked to
/// stop. The flag is never taken back.
pub struct Canceller {
    handle: AbortHandle,
    asked: Ghost<bool>,
}

/// What a look at a spawned computation found.
#[verifier::reject_recursive_types(O)]
pub enum TaskPoll<O> {
    /// The computation has finished with this output.
    Ready(O),
    /// The computation is still running; here it is again.
    Pending(Running<O>),
    /// The computation was cancelled or has panicked. It has no output.
    Failed,
}

/// `JoinHandle::poll`: looks once at a spawned computation, and registers
/// `waker` to be woken when it finishes. Nothing is claimed of which of the
/// three it is; the contract claims only that a computation that comes back
/// is the one given.
#[verifier::external_body]
fn poll_task<O>(task: Running<O>, waker: &Waker) -> (polled: TaskPoll<O>)
    ensures
        polled matches TaskPoll::Pending(back) ==> back == task,
{
    let mut task = task;
    let mut future_cx = Context::from_waker(waker);
    match Pin::new(&mut task.handle).poll(&mut future_cx) {
        Poll::Ready(Ok(Ok(output))) => TaskPoll::Ready(output),
        Poll::Ready(_) => TaskPoll::Failed,
        Poll::Pending => TaskPoll::Pending(task),
    }
}

/// `AbortHandle::abort`: sets the flag inside the handle and wakes the
/// computation, which stops at its next poll. It returns at once. The
/// contract claims that the flag is set when the call returns; nothing is
/// claimed of when the computation notices.
#[verifier::external_body]
fn abort_through(canceller: &mut Canceller)
    ensures
        final(canceller).asked(),
        final(canceller).handle() == old(canceller).handle(),
{
    canceller.handle.abort();
}

/// `AbortHandle::is_aborted`: reads the flag inside the handle. The
/// contract claims that a flag that was set is read as set; nothing is
/// claimed where the library has not set it.
#[verifier::external_body]
fn flag_of(canceller: &Canceller) -> (set: bool)
    ensures
        canceller.asked() ==> set,
{
    canceller.handle.is_aborted()
}

impl Canceller {
    /// The computation has been asked to stop.
    pub closed spec fn asked(&self) -> bool {
        self.asked@
    }

    /// The outside handle that this one holds.
    pub closed spec fn handle(&self) -> AbortHandle {
        self.handle
    }

    /// Asks the computation to stop.
    pub fn cancel(&mut self)
        ensures
            final(self).asked(),
            final(self).handle() == old(self).handle(),
    {
        abort_through(self);
    }

    /// Whether the flag inside the handle is set. It is set once the
    /// computation has been asked to stop.
    pub fn is_cancelled(&self) -> (set: bool)
        ensures
            self.asked() ==> set,
    {
        flag_of(self)
    }
}

/// `Waker::clone`: a duplicate of the waker, which wakes what the waker
/// wakes. The contract claims that the duplicate is the same waker.
#[verifier::external_body]
pub(crate) fn clone_waker(waker: &Waker) -> (copy: Waker)
    ensures
        copy == *waker,
{
    waker.clone()
}

/// Starts `future` on the runtime that the calling thread has entered, so
/// that `abort` can cancel it, and looks at it once. What is found depends
/// on the runtime and on how far the computation has got, so nothing is
/// promised of it; `poll_on` says what follows from each answer of the
/// runtime. The computation has not been asked to stop.
pub fn spawn_and_poll<Task>(future: Task, waker: &Waker) -> (started: (
    TaskPoll<Task::Output>,
    Canceller,
)) where Task: Future + Send + 'static, Task::Output: Send + 'static
    ensures
        !started.1.asked(),
{
    let (abort_handle, abort_registration) = AbortHandle::new_pair();
    let future = Abortable::new(future, abort_registration);
    let polled = poll_on(Handle::try_current(), future, waker);
    (polled, Canceller { handle: abort_handle, asked: Ghost(false) })
}

/// Starts `future` on `runtime` and looks at it once. Where the thread has
/// entered no runtime there is nothing to start on: the computation is let
/// go of and counts as failed.
pub fn poll_on<Task>(
    runtime: Result<Handle, TryCurrentError>,
    future: Abortable<Task>,
    waker: &Waker,
) -> (polled: TaskPoll<Task::Output>) where
    Task: Future + Send + 'static,
    Task::Output: Send + 'static,

    ensures
        runtime is Err ==> polled is Failed,
{
    match runtime {
        Ok(handle) => poll_task(Running { handle: handle.spawn(future) }, waker),
        Err(_) => TaskPoll::Failed,
    }
}

/// Looks once at the computation behind `task`, if there is one. The
/// computation is taken out of `task`; `TaskPoll::Pending` brings it back.
pub fn take_and_poll<O>(task: &mut Option<Running<O>>, waker: &Waker) -> (polled: TaskPoll<O>)
    ensures
        *final(task) is None,
        *old(task) is None ==> polled is Failed,
        polled matches TaskPoll::Pending(back) ==> *old(task) == Some(back),
{
    match task.take() {
        Some(handle) => poll_task(handle, waker),
        None => TaskPoll::Failed,
    }
}

} // verus!
