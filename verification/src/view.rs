//! The contract between the engine and the nodes of a view tree.

use vstd::prelude::*;
use vstd::view::View as _;
use crate::cx::Cx;
use crate::event::EventResult;
use crate::event::Message;
use crate::id::Id;
use crate::widget::Widget;

pub mod adapt;
pub mod async_then;
pub mod button;
pub mod for_each;
pub mod id_printer;
pub mod layout_observer;
pub mod loader;
pub mod local_state;
pub mod scroll_view;
pub mod text;
pub mod use_state;
pub mod use_state_mut;

verus! {

/// One node of a view tree: an immutable description of a piece of the
/// interface for application state `T`, which can raise actions of type `A`.
///
/// A view is constructed once into retained state and an element, and is
/// afterwards reconciled against the view that stood in its place before.
/// Messages reach it along the identities below its own. What a view
/// retains is handed back to it to be torn down before it is let go of, so
/// that no computation outlives the node that started it.
///
/// The four operations never block and never run at the same time on one
/// tree. Each states what it does as a relation between what it finds and
/// what it leaves, so that a view made of other views can say what it does
/// in terms of what they do.
pub trait View<T, A>: Sized {
    /// What the view retains between passes.
    type State;

    /// The element that the view keeps up to date.
    type Element: Widget;

    /// The functions that the description holds accept every argument, and
    /// the views they return are well formed in turn.
    spec fn wf(&self) -> bool;

    /// `state` is one that a pass of this view leaves behind.
    spec fn coherent(&self, state: Self::State) -> bool;

    /// `element` has the shape that `state` speaks of.
    spec fn consistent(&self, state: Self::State, element: Self::Element) -> bool;

    /// No computation is outstanding anywhere in `state`.
    spec fn idle(&self, state: Self::State) -> bool;

    /// Read under `app`, this description says what `prev` said when
    /// `state` and `element` were last reconciled.
    spec fn unchanged(
        &self,
        prev: Self,
        app: T,
        state: Self::State,
        element: Self::Element,
    ) -> bool;

    /// Construction can lead from `cx0` and `app0` to `cx1` and `app1` and
    /// give the node `id`, `state` and `element`.
    spec fn built(
        &self,
        cx0: Cx,
        app0: T,
        cx1: Cx,
        app1: T,
        id: Id,
        state: Self::State,
        element: Self::Element,
    ) -> bool;

    /// Reconciliation against `prev` can lead from the first six values to
    /// the second six and report `changed`.
    spec fn rebuilt(
        &self,
        prev: Self,
        cx0: Cx,
        app0: T,
        id0: Id,
        state0: Self::State,
        element0: Self::Element,
        cx1: Cx,
        app1: T,
        id1: Id,
        state1: Self::State,
        element1: Self::Element,
        changed: bool,
    ) -> bool;

    /// Delivering `message` along `id_path` can lead from `app0` and
    /// `state0` to `app1` and `state1` and answer `result`.
    spec fn dispatched(
        &self,
        id_path: Seq<Id>,
        message: Message,
        app0: T,
        state0: Self::State,
        app1: T,
        state1: Self::State,
        result: EventResult<A>,
    ) -> bool;

    /// Tearing down can lead from `state0` to `state1`.
    spec fn torn_down(&self, state0: Self::State, state1: Self::State) -> bool;

    /// Constructs the retained subtree of this view. The identities it hands
    /// out nest under the path that is current in `cx`.
    fn build(&self, cx: &mut Cx, app_state: &mut T) -> (out: (Id, Self::State, Self::Element))
        requires
            self.wf(),
        ensures
            final(cx).path() == old(cx).path(),
            final(cx).driver_waker() == old(cx).driver_waker(),
            old(cx).next() <= final(cx).next(),
            final(cx).allocated_since(*old(cx), out.0),
            self.coherent(out.1),
            self.consistent(out.1, out.2),
            self.built(
                *old(cx),
                *old(app_state),
                *final(cx),
                *final(app_state),
                out.0,
                out.1,
                out.2,
            ),
    ;

    /// Reconciles the retained subtree with this view, which takes the place
    /// of `prev`, and says whether the element was touched. A node keeps its
    /// identity unless it is replaced by a new one.
    ///
    /// Where the description has not changed, nothing is touched.
    fn rebuild(
        &self,
        cx: &mut Cx,
        prev: &Self,
        id: &mut Id,
        state: &mut Self::State,
        element: &mut Self::Element,
        app_state: &mut T,
    ) -> (changed: bool)
        requires
            self.wf(),
            prev.wf(),
            prev.coherent(*old(state)),
            prev.consistent(*old(state), *old(element)),
        ensures
            final(cx).path() == old(cx).path(),
            final(cx).driver_waker() == old(cx).driver_waker(),
            old(cx).next() <= final(cx).next(),
            *final(id) == *old(id) || final(cx).allocated_since(*old(cx), *final(id)),
            self.coherent(*final(state)),
            self.consistent(*final(state), *final(element)),
            self.rebuilt(
                *prev,
                *old(cx),
                *old(app_state),
                *old(id),
                *old(state),
                *old(element),
                *final(cx),
                *final(app_state),
                *final(id),
                *final(state),
                *final(element),
                changed,
            ),
            self.unchanged(*prev, *old(app_state), *old(state), *old(element)) ==> {
                &&& !changed
                &&& *final(id) == *old(id)
                &&& *final(app_state) == *old(app_state)
                &&& old(element).same(*final(element))
            },
    ;

    /// Delivers a message. `id_path` holds the identities below this node
    /// that lead to the addressee; it is empty when this node is meant.
    fn event(
        &self,
        id_path: &[Id],
        state: &mut Self::State,
        message: Message,
        app_state: &mut T,
    ) -> (result: EventResult<A>)
        requires
            self.wf(),
            self.coherent(*old(state)),
        ensures
            self.coherent(*final(state)),
            forall|e: Self::Element| #[trigger]
                self.consistent(*old(state), e) ==> self.consistent(*final(state), e),
            self.dispatched(
                id_path@,
                message,
                *old(app_state),
                *old(state),
                *final(app_state),
                *final(state),
                result,
            ),
    ;

    /// Cancels every computation that is outstanding in `state`: each is
    /// asked to stop before the call returns. The engine calls this before
    /// it lets go of a state; a state that is dropped without it leaves its
    /// computations running.
    fn teardown(&self, state: &mut Self::State)
        requires
            self.wf(),
            self.coherent(*old(state)),
        ensures
            self.coherent(*final(state)),
            forall|e: Self::Element| #[trigger]
                self.consistent(*old(state), e) ==> self.consistent(*final(state), e),
            self.idle(*final(state)),
            self.torn_down(*old(state), *final(state)),
    ;
}

} // verus!
