//! Messages that travel to a view, and what a view answers.

use vstd::prelude::*;
use kurbo::Size;

verus! {

/// What a dispatch did.
pub enum EventResult<A> {
    /// The view raised an action for the application.
    Action(A),
    /// State changed: the tree must be reconciled before the next paint.
    RequestRebuild,
    /// The message was handled and nothing needs to follow.
    Nop,
    /// The addressed node is gone, or cannot read the message.
    Stale,
}

/// What is delivered along an identity path.
pub enum Message {
    /// An asynchronous computation may have finished.
    AsyncWake,
    /// The element layer measured the addressed node.
    Measured(Size),
    /// A payload of the backend, which the engine routes and does not read.
    Raw(u64),
}

} // verus!
