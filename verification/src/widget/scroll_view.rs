//! A scrolling container around one child element.

use vstd::prelude::*;
use crate::event::EventResult;
use crate::event::Message;
use crate::id::Id;
use crate::widget::Pod;
use crate::widget::Widget;

verus! {

/// The element of a scroll container. How far it is scrolled is the
/// backend's knowledge.
pub struct ScrollView<E> {
    pub child: Pod<E>,
}

impl<E: Widget> ScrollView<E> {
    /// A container around a fresh child.
    pub fn new(child: E) -> (element: ScrollView<E>)
        ensures
            element.child.widget == child,
            element.child.needs_update,
    {
        ScrollView { child: Pod::new(child) }
    }

    /// The container of the child.
    pub fn child_mut(&mut self) -> (child: &mut Pod<E>)
        ensures
            *child == old(self).child,
            final(self).child == *final(child),
    {
        &mut self.child
    }
}

impl<E: Widget> Widget for ScrollView<E> {
    open spec fn spec_id(&self) -> Option<Id> {
        None
    }

    open spec fn same(&self, other: Self) -> bool {
        &&& self.child.needs_update == other.child.needs_update
        &&& self.child.widget.same(other.child.widget)
    }

    open spec fn messaged(
        &self,
        id_path: Seq<Id>,
        message: Message,
        after: Self,
        result: EventResult<()>,
    ) -> bool {
        &&& self.child.widget.messaged(id_path, message, after.child.widget, result)
        &&& after.child.needs_update == (self.child.needs_update || result is RequestRebuild)
    }

    proof fn lemma_same_reflexive(&self) {
        self.child.widget.lemma_same_reflexive();
    }

    fn id(&self) -> (r: Option<Id>) {
        None
    }

    fn message(&mut self, id_path: &[Id], message: Message) -> (r: EventResult<()>) {
        let result = self.child.widget.message(id_path, message);
        if let EventResult::RequestRebuild = result {
            self.child.request_update();
        }
        result
    }
}

} // verus!
