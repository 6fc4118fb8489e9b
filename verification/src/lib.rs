//! A reactive view-reconciliation engine.
//!
//! Application logic describes the interface it wants as a tree of views.
//! The engine builds a retained element tree from the first description,
//! reconciles every later description against what it retained, and routes
//! messages back to the views through paths of identities.
//!
//! - `id` and `cx`: identities, and the context that hands them out and
//!   keeps the path of the pass.
//! - `event`: messages and the answers to them.
//! - `view`: the contract of a view, and the views that compose others:
//!   lists by key, local state, narrowed state, children that wait for a
//!   size or for a computation.
//! - `widget`: the retained elements, as far as reconciliation touches them.
//! - `task`: the asynchronous runtime, behind the few calls the engine makes.
//! - `app`: the driver that delivers messages and reconciles on demand.

pub mod app;
pub mod cx;
pub mod event;
pub mod id;
pub mod task;
pub mod widget;
pub mod view;
