//! An element that reports its measured size, and shows a child once the
//! size is known.

use vstd::prelude::*;
use crate::event::EventResult;
use crate::event::Message;
use crate::id::Id;
use crate::id::copy_path;
use crate::widget::Pod;
use crate::widget::Widget;

verus! {

/// The element of a layout observer. Until the first measurement it has no
/// child and shows nothing.
pub struct LayoutObserver<E> {
    pub id_path: Vec<Id>,
    pub child: Option<Pod<E>>,
}

impl<E: Widget> LayoutObserver<E> {
    /// An empty observer that reports its measurements to the node at
    /// `id_path`.
    pub fn new(id_path: &Vec<Id>) -> (element: LayoutObserver<E>)
        ensures
            element.id_path@ == id_path@,
            element.child is None,
    {
        LayoutObserver { id_path: copy_path(id_path), child: None }
    }

    /// The path of the node to which measurements are reported.
    pub fn id_path(&self) -> (path: &Vec<Id>)
        ensures
            path@ == self.id_path@,
    {
        &self.id_path
    }

    /// The container of the child, if there is a child yet.
    pub fn child_mut(&mut self) -> (child: &mut Option<Pod<E>>)
        ensures
            *child == old(self).child,
            final(self).child == *final(child),
            final(self).id_path == old(self).id_path,
    {
        &mut self.child
    }

    /// Shows `child` from now on, in place of what was shown before.
    pub fn set_child(&mut self, child: E)
        ensures
            final(self).child == Some(Pod { widget: child, needs_update: true }),
            final(self).id_path == old(self).id_path,
    {
        self.child = Some(Pod::new(child));
    }
}

impl<E: Widget> Widget for LayoutObserver<E> {
    open spec fn spec_id(&self) -> Option<Id> {
        if self.id_path@.len() > 0 {
            Some(self.id_path@.last())
        } else {
            None
        }
    }

    open spec fn same(&self, other: Self) -> bool {
        &&& self.id_path@ == other.id_path@
        &&& match (self.child, other.child) {
            (Some(a), Some(b)) => a.needs_update == b.needs_update && a.widget.same(b.widget),
            (None, None) => true,
            _ => false,
        }
    }

    open spec fn messaged(
        &self,
        id_path: Seq<Id>,
        message: Message,
        after: Self,
        result: EventResult<()>,
    ) -> bool {
        match self.child {
            Some(child) => {
                &&& after.id_path == self.id_path
                &&& after.child is Some
                &&& child.widget.messaged(id_path, message, after.child->0.widget, result)
                &&& after.child->0.needs_update == (child.needs_update || result is RequestRebuild)
            },
            None => after == *self && result is Stale,
        }
    }

    proof fn lemma_same_reflexive(&self) {
        match self.child {
            Some(child) => child.widget.lemma_same_reflexive(),
            None => {},
        }
    }

    fn id(&self) -> (r: Option<Id>) {
        let n = self.id_path.len();
        if n > 0 {
            Some(self.id_path[n - 1])
        } else {
            None
        }
    }

    fn message(&mut self, id_path: &[Id], message: Message) -> (r: EventResult<()>) {
        match &mut self.child {
            Some(child) => {
                let result = child.widget.message(id_path, message);
                if let EventResult::RequestRebuild = result {
                    child.request_update();
                }
                result
            },
            None => EventResult::Stale,
        }
    }
}

} // verus!
