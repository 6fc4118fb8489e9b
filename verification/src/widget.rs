//! The retained element tree, as far as reconciliation reads and writes it.

use vstd::prelude::*;
use crate::event::EventResult;
use crate::event::Message;
use crate::id::Id;

pub mod button;
pub mod layout_observer;
pub mod scroll_view;
pub mod text;
pub mod vstack;

verus! {

/// What every element offers to the engine. Lifecycle, layout and paint
/// belong to the backend and are not part of it.
pub trait Widget: Sized {
    /// The identity under which the element is registered, if it has one.
    spec fn spec_id(&self) -> Option<Id>;

    /// `other` shows exactly what `self` shows.
    spec fn same(&self, other: Self) -> bool;

    /// Delivering `message` along `id_path` can turn `self` into `after`
    /// and answer `result`.
    spec fn messaged(
        &self,
        id_path: Seq<Id>,
        message: Message,
        after: Self,
        result: EventResult<()>,
    ) -> bool;

    /// An element shows what it shows.
    proof fn lemma_same_reflexive(&self)
        ensures
            self.same(*self),
    ;

    /// The identity under which the element is registered, if it has one.
    fn id(&self) -> (r: Option<Id>)
        ensures
            r == self.spec_id(),
    ;

    /// Delivers a message that the backend addressed to this element or to
    /// one below it.
    fn message(&mut self, id_path: &[Id], message: Message) -> (r: EventResult<()>)
        ensures
            old(self).messaged(id_path@, message, *final(self), r),
    ;
}

/// `i` is the first place at which `x` occurs in `s`.
pub open spec fn is_first_at<T>(s: Seq<T>, x: T, i: int) -> bool {
    &&& 0 <= i < s.len()
    &&& s[i] == x
    &&& forall|j: int| 0 <= j < i ==> s[j] != x
}

/// `x` occurs nowhere in `s`.
pub open spec fn is_absent<T>(s: Seq<T>, x: T) -> bool {
    forall|j: int| 0 <= j < s.len() ==> s[j] != x
}

/// The container of one child element. It remembers whether the child has
/// to go through the next update pass.
pub struct Pod<E> {
    pub widget: E,
    pub needs_update: bool,
}

impl<E> Pod<E> {
    /// Wraps a fresh element. A fresh element has never been updated, so it
    /// is due for the next pass.
    pub fn new(widget: E) -> (pod: Pod<E>)
        ensures
            pod.widget == widget,
            pod.needs_update,
    {
        Pod { widget, needs_update: true }
    }

    /// Marks the child as due for the next update pass.
    pub fn request_update(&mut self)
        ensures
            final(self).needs_update,
            final(self).widget == old(self).widget,
    {
        self.needs_update = true;
    }

    /// Whether the child is due for the next update pass.
    pub fn needs_update(&self) -> (r: bool)
        ensures
            r == self.needs_update,
    {
        self.needs_update
    }

    /// Records that the update pass has visited the child, and says whether
    /// the child was due.
    pub fn take_update(&mut self) -> (was_due: bool)
        ensures
            was_due == old(self).needs_update,
            !final(self).needs_update,
            final(self).widget == old(self).widget,
    {
        let was_due = self.needs_update;
        self.needs_update = false;
        was_due
    }

    /// The child, for a parent that knows its type.
    pub fn downcast_mut(&mut self) -> (widget: &mut E)
        ensures
            *widget == old(self).widget,
            final(self).widget == *final(widget),
            final(self).needs_update == old(self).needs_update,
    {
        &mut self.widget
    }

    /// The child.
    pub fn widget(&self) -> (widget: &E)
        ensures
            *widget == self.widget,
    {
        &self.widget
    }
}

/// One of two elements, for a node whose child changes its type over time.
pub enum EitherWidget<P, R> {
    First(P),
    Second(R),
}

impl<P: Widget, R: Widget> Widget for EitherWidget<P, R> {
    open spec fn spec_id(&self) -> Option<Id> {
        match *self {
            EitherWidget::First(p) => p.spec_id(),
            EitherWidget::Second(r) => r.spec_id(),
        }
    }

    open spec fn same(&self, other: Self) -> bool {
        match (*self, other) {
            (EitherWidget::First(a), EitherWidget::First(b)) => a.same(b),
            (EitherWidget::Second(a), EitherWidget::Second(b)) => a.same(b),
            _ => false,
        }
    }

    open spec fn messaged(
        &self,
        id_path: Seq<Id>,
        message: Message,
        after: Self,
        result: EventResult<()>,
    ) -> bool {
        match (*self, after) {
            (EitherWidget::First(a), EitherWidget::First(b)) => a.messaged(
                id_path,
                message,
                b,
                result,
            ),
            (EitherWidget::Second(a), EitherWidget::Second(b)) => a.messaged(
                id_path,
                message,
                b,
                result,
            ),
            _ => false,
        }
    }

    proof fn lemma_same_reflexive(&self) {
        match *self {
            EitherWidget::First(p) => p.lemma_same_reflexive(),
            EitherWidget::Second(r) => r.lemma_same_reflexive(),
        }
    }

    fn id(&self) -> (r: Option<Id>) {
        match self {
            EitherWidget::First(p) => p.id(),
            EitherWidget::Second(r) => r.id(),
        }
    }

    fn message(&mut self, id_path: &[Id], message: Message) -> (r: EventResult<()>) {
        match self {
            EitherWidget::First(p) => p.message(id_path, message),
            EitherWidget::Second(r) => r.message(id_path, message),
        }
    }
}

} // verus!
