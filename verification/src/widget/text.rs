//! A line of text.

use vstd::prelude::*;
use crate::event::EventResult;
use crate::event::Message;
use crate::id::Id;
use crate::widget::Widget;

verus! {

/// An element that shows a line of text.
pub struct TextWidget {
    text: String,
}

impl TextWidget {
    /// The characters shown.
    pub closed spec fn shown(&self) -> Seq<char> {
        self.text@
    }

    /// An element that shows `text`.
    pub fn new(text: String) -> (widget: TextWidget)
        ensures
            widget.shown() == text@,
    {
        TextWidget { text }
    }

    /// Replaces the text shown.
    pub fn set_text(&mut self, text: String)
        ensures
            final(self).shown() == text@,
    {
        self.text = text;
    }

    /// The text shown.
    pub fn text(&self) -> (text: &String)
        ensures
            text@ == self.shown(),
    {
        &self.text
    }
}

impl Widget for TextWidget {
    open spec fn spec_id(&self) -> Option<Id> {
        None
    }

    open spec fn same(&self, other: Self) -> bool {
        self.shown() == other.shown()
    }

    open spec fn messaged(
        &self,
        id_path: Seq<Id>,
        message: Message,
        after: Self,
        result: EventResult<()>,
    ) -> bool {
        after == *self && result is Stale
    }

    proof fn lemma_same_reflexive(&self) {
    }

    fn id(&self) -> (r: Option<Id>) {
        None
    }

    fn message(&mut self, id_path: &[Id], message: Message) -> (r: EventResult<()>) {
        EventResult::Stale
    }
}

} // verus!
