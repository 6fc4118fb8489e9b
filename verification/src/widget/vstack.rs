//! A vertical stack of child elements.

use vstd::prelude::*;
use crate::cx::Cx;
use crate::cx::next_after;
use crate::event::EventResult;
use crate::event::Message;
use crate::id::Id;
use crate::widget::Pod;
use crate::widget::Widget;
use crate::widget::is_absent;
use crate::widget::is_first_at;

verus! {

/// The children of a stack, top to bottom.
pub struct VStack<E> {
    pub id: Option<Id>,
    pub children: Vec<Pod<E>>,
}

/// The identities of the children, place by place.
pub open spec fn child_ids<E: Widget>(children: Seq<Pod<E>>) -> Seq<Option<Id>> {
    Seq::new(children.len(), |i: int| children[i].widget.spec_id())
}

/// The first child that has the identity `id`, if there is one.
fn find_child<E: Widget>(children: &Vec<Pod<E>>, id: Id) -> (found: Option<usize>)
    ensures
        match found {
            Some(i) => is_first_at(child_ids(children@), Some(id), i as int),
            None => is_absent(child_ids(children@), Some(id)),
        },
{
    let mut i: usize = 0;
    while i < children.len()
        invariant
            i <= children.len(),
            forall|j: int| 0 <= j < i ==> child_ids(children@)[j] != Some(id),
        decreases children.len() - i,
    {
        let hit = match children[i].widget.id() {
            Some(other) => other == id,
            None => false,
        };
        if hit {
            return Some(i);
        }
        i += 1;
    }
    None
}

impl<E: Widget> VStack<E> {
    /// A stack of the given children, without an identity of its own.
    pub fn new(children: Vec<Pod<E>>) -> (stack: VStack<E>)
        ensures
            stack.id is None,
            stack.children == children,
    {
        VStack { id: None, children }
    }

    /// A stack with a fresh identity, whose children `children` makes inside
    /// the scope of that identity.
    pub fn with_id<F: FnOnce(&mut Cx) -> Vec<Pod<E>>>(cx: &mut Cx, children: F) -> (stack: VStack<E>)
        requires
            forall|inner: &mut Cx|
                inner.inside(*old(cx), Id { raw: old(cx).next() }, next_after(old(cx).next()))
                    ==> #[trigger] call_requires(children, (inner,)),
        ensures
            stack.id == Some(Id { raw: old(cx).next() }),
            final(cx).path() == old(cx).path(),
            exists|inner: &mut Cx|
                {
                    &&& #[trigger] inner.inside(
                        *old(cx),
                        Id { raw: old(cx).next() },
                        next_after(old(cx).next()),
                    )
                    &&& call_ensures(children, (inner,), stack.children)
                    &&& final(cx).next() == final(inner).next()
                    &&& final(cx).pending() == final(inner).pending()
                },
    {
        let (id, made) = cx.with_new_id(children);
        let mut stack = VStack::new(made);
        stack.id = Some(id);
        stack
    }

    /// The children, for a parent that reorders, replaces or reconciles them.
    pub fn children_mut(&mut self) -> (children: &mut Vec<Pod<E>>)
        ensures
            *children == old(self).children,
            final(self).children == *final(children),
            final(self).id == old(self).id,
    {
        &mut self.children
    }

    /// The places of the children that are due for the update pass, in
    /// order. The pass counts as run: no child is due afterwards.
    pub fn take_updates(&mut self) -> (due: Vec<usize>)
        ensures
            final(self).id == old(self).id,
            final(self).children@.len() == old(self).children@.len(),
            forall|i: int|
                0 <= i < old(self).children@.len() ==> {
                    &&& !(#[trigger] final(self).children@[i]).needs_update
                    &&& final(self).children@[i].widget == old(self).children@[i].widget
                },
            forall|k: int|
                0 <= k < due@.len() ==> 0 <= #[trigger] due@[k] < old(self).children@.len() && old(
                    self,
                ).children@[due@[k] as int].needs_update,
            forall|j: int, k: int| 0 <= j < k < due@.len() ==> due@[j] < due@[k],
            forall|i: int|
                0 <= i < old(self).children@.len() && (#[trigger] old(
                    self,
                ).children@[i]).needs_update ==> due@.contains(i as usize),
    {
        let mut due: Vec<usize> = Vec::new();
        let mut i: usize = 0;
        while i < self.children.len()
            invariant
                i <= self.children@.len(),
                self.id == old(self).id,
                self.children@.len() == old(self).children@.len(),
                forall|j: int|
                    0 <= j < self.children@.len() ==> (#[trigger] self.children@[j]).widget == old(
                        self,
                    ).children@[j].widget,
                forall|j: int| 0 <= j < i ==> !(#[trigger] self.children@[j]).needs_update,
                forall|j: int|
                    i <= j < self.children@.len() ==> (#[trigger] self.children@[j]).needs_update
                        == old(self).children@[j].needs_update,
                forall|k: int|
                    0 <= k < due@.len() ==> 0 <= #[trigger] due@[k] < i && old(
                        self,
                    ).children@[due@[k] as int].needs_update,
                forall|j: int, k: int| 0 <= j < k < due@.len() ==> due@[j] < due@[k],
                forall|j: int|
                    0 <= j < i && (#[trigger] old(self).children@[j]).needs_update
                        ==> due@.contains(j as usize),
            decreases self.children@.len() - i,
        {
            let ghost found = due@;
            let was_due = self.children[i].take_update();
            if was_due {
                due.push(i);
                proof {
                    assert(due@[found.len() as int] == i);
                    assert forall|j: int|
                        0 <= j < i && (#[trigger] old(self).children@[j]).needs_update implies due@.contains(
                        j as usize,
                    ) by {
                        let k = choose|k: int| 0 <= k < found.len() && found[k] == j as usize;
                        assert(due@[k] == j as usize);
                    }
                }
            }
            i += 1;
        }
        due
    }

    /// `after` is `self` with the child at `i` replaced by what a delivery
    /// that answered `result` left of it.
    pub open spec fn delivered_at(
        &self,
        i: int,
        tail: Seq<Id>,
        message: Message,
        after: Self,
        result: EventResult<()>,
    ) -> bool {
        &&& after.id == self.id
        &&& after.children@.len() == self.children@.len()
        &&& forall|j: int|
            0 <= j < self.children@.len() && j != i ==> after.children@[j] == self.children@[j]
        &&& self.children@[i].widget.messaged(tail, message, after.children@[i].widget, result)
        &&& after.children@[i].needs_update == (self.children@[i].needs_update
            || result is RequestRebuild)
    }
}

impl<E: Widget> Widget for VStack<E> {
    open spec fn spec_id(&self) -> Option<Id> {
        self.id
    }

    open spec fn same(&self, other: Self) -> bool {
        &&& self.id == other.id
        &&& self.children@.len() == other.children@.len()
        &&& forall|i: int|
            0 <= i < self.children@.len() ==> {
                &&& (#[trigger] self.children@[i]).needs_update == other.children@[i].needs_update
                &&& self.children@[i].widget.same(other.children@[i].widget)
            }
    }

    open spec fn messaged(
        &self,
        id_path: Seq<Id>,
        message: Message,
        after: Self,
        result: EventResult<()>,
    ) -> bool {
        if id_path.len() > 0 && exists|i: int|
            is_first_at(child_ids(self.children@), Some(id_path[0]), i) {
            exists|i: int|
                {
                    &&& is_first_at(child_ids(self.children@), Some(id_path[0]), i)
                    &&& #[trigger] self.delivered_at(
                        i,
                        id_path.subrange(1, id_path.len() as int),
                        message,
                        after,
                        result,
                    )
                }
        } else {
            after == *self && result is Stale
        }
    }

    proof fn lemma_same_reflexive(&self) {
        assert forall|i: int| 0 <= i < self.children@.len() implies (
        #[trigger] self.children@[i]).widget.same(self.children@[i].widget) by {
            self.children@[i].widget.lemma_same_reflexive();
        }
    }

    fn id(&self) -> (r: Option<Id>) {
        self.id
    }

    fn message(&mut self, id_path: &[Id], message: Message) -> (r: EventResult<()>) {
        if id_path.len() == 0 {
            return EventResult::Stale;
        }
        let hd = id_path[0];
        let tl = vstd::slice::slice_subrange(id_path, 1, id_path.len());
        match find_child(&self.children, hd) {
            Some(i) => {
                let pod = &mut self.children[i];
                let result = pod.widget.message(tl, message);
                if let EventResult::RequestRebuild = result {
                    pod.request_update();
                }
                proof {
                    assert(old(self).delivered_at(i as int, tl@, message, *self, result));
                }
                result
            },
            None => EventResult::Stale,
        }
    }
}

} // verus!
