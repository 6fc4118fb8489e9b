//! A button.

use vstd::prelude::*;
use crate::event::EventResult;
use crate::event::Message;
use crate::id::Id;
use crate::id::copy_path;
use crate::widget::Widget;

verus! {

/// An element that shows a label and reports clicks to the node at its
/// identity path.
pub struct Button {
    id_path: Vec<Id>,
    label: String,
}

impl Button {
    /// The path of the node to which clicks are reported.
    pub closed spec fn path(&self) -> Seq<Id> {
        self.id_path@
    }

    /// The characters of the label.
    pub closed spec fn shown(&self) -> Seq<char> {
        self.label@
    }

    /// A button that reports to the node at `id_path`.
    pub fn new(id_path: &Vec<Id>, label: String) -> (button: Button)
        ensures
            button.path() == id_path@,
            button.shown() == label@,
    {
        Button { id_path: copy_path(id_path), label }
    }

    /// Replaces the label.
    pub fn set_label(&mut self, label: String)
        ensures
            final(self).shown() == label@,
            final(self).path() == old(self).path(),
    {
        self.label = label;
    }

    /// The label.
    pub fn label(&self) -> (label: &String)
        ensures
            label@ == self.shown(),
    {
        &self.label
    }

    /// The path of the node to which clicks are reported.
    pub fn id_path(&self) -> (path: &Vec<Id>)
        ensures
            path@ == self.path(),
    {
        &self.id_path
    }
}

impl Widget for Button {
    open spec fn spec_id(&self) -> Option<Id> {
        if self.path().len() > 0 {
            Some(self.path().last())
        } else {
            None
        }
    }

    open spec fn same(&self, other: Self) -> bool {
        self.path() == other.path() && self.shown() == other.shown()
    }

    open spec fn messaged(
        &self,
        id_path: Seq<Id>,
        message: Message,
        after: Self,
        result: EventResult<()>,
    ) -> bool {
        after == *self && result is Stale
    }

    proof fn lemma_same_reflexive(&self) {
    }

    fn id(&self) -> (r: Option<Id>) {
        let n = self.id_path.len();
        if n > 0 {
            Some(self.id_path[n - 1])
        } else {
            None
        }
    }

    fn message(&mut self, id_path: &[Id], message: Message) -> (r: EventResult<()>) {
        EventResult::Stale
    }
}

} // verus!
