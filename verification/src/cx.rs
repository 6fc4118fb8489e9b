//! The context of a construction or reconciliation pass: where in the tree
//! the pass stands, and which identity is handed out next.

use vstd::prelude::*;
use std::task::Waker;
use crate::id::Id;
use crate::id::copy_path;
use crate::task::clone_waker;

verus! {

/// The context that every construction and reconciliation call receives.
pub struct Cx {
    id_path: Vec<Id>,
    next_id: u64,
    pending_async: Vec<Vec<Id>>,
    waker: Waker,
}

/// The number that follows `raw` in the order of allocation. The last number
/// is followed by itself: an allocator that has reached it is exhausted.
pub open spec fn next_after(raw: u64) -> u64 {
    if raw < u64::MAX {
        (raw + 1) as u64
    } else {
        raw
    }
}

/// The path of the node `id` that stands at `path` or right below it.
pub open spec fn node_path(path: Seq<Id>, id: Id) -> Seq<Id> {
    if ends_with(path, id) {
        path
    } else {
        path.push(id)
    }
}

/// `path` leads to the node `id`.
pub open spec fn ends_with(path: Seq<Id>, id: Id) -> bool {
    path.len() > 0 && path.last() == id
}

impl Cx {
    /// The identities from the root to the node the pass is in.
    pub closed spec fn path(&self) -> Seq<Id> {
        self.id_path@
    }

    /// The number of the identity that is handed out next.
    pub closed spec fn next(&self) -> u64 {
        self.next_id
    }

    /// The paths of the nodes registered as waiting for a computation, in
    /// the order of registration.
    pub closed spec fn pending(&self) -> Seq<Seq<Id>> {
        Seq::new(self.pending_async@.len(), |k: int| self.pending_async@[k]@)
    }

    /// The waker of the driver that runs the pass. A node that starts a
    /// computation has the driver woken through it when the computation
    /// finishes.
    pub closed spec fn driver_waker(&self) -> Waker {
        self.waker
    }

    /// No fresh identity is left.
    pub open spec fn exhausted(&self) -> bool {
        self.next() == u64::MAX
    }

    /// `id` was handed out between the states `before` and `self`.
    pub open spec fn allocated_since(&self, before: Cx, id: Id) -> bool {
        before.next() <= id.raw() && (id.raw() < self.next() || self.exhausted())
    }

    /// `self` is `outer` as a callee inside the scope of `id` finds it.
    pub open spec fn inside(&self, outer: Cx, id: Id, next: u64) -> bool {
        &&& self.path() == outer.path().push(id)
        &&& self.next() == next
        &&& self.pending() == outer.pending()
        &&& self.driver_waker() == outer.driver_waker()
    }

    /// `self` has handed out and registered what `other` has.
    pub open spec fn agrees(&self, other: Cx) -> bool {
        self.next() == other.next() && self.pending() == other.pending()
    }

    /// Of two identities, one handed out before the state `mid` and one
    /// after it, neither is the other, as long as identities are left. So
    /// nodes that are constructed one after the other never share one.
    pub proof fn lemma_later_identity_differs(start: Cx, mid: Cx, end: Cx, first: Id, second: Id)
        requires
            mid.allocated_since(start, first),
            end.allocated_since(mid, second),
            mid.next() <= end.next(),
            !end.exhausted(),
        ensures
            first != second,
    {
    }

    /// The path that a callee finds inside the scope of `id` is the path of
    /// the caller followed by `id`: it names the callee's ancestors, from the
    /// root down, and nothing else.
    pub proof fn lemma_scope_round_trip(inner: Cx, outer: Cx, id: Id, next: u64)
        requires
            inner.inside(outer, id, next),
        ensures
            inner.path().len() == outer.path().len() + 1,
            inner.path().last() == id,
            inner.path().drop_last() == outer.path(),
            forall|k: int| 0 <= k < outer.path().len() ==> inner.path()[k] == outer.path()[k],
    {
        assert(outer.path().push(id).drop_last() =~= outer.path());
    }

    /// A context at the root, with no identity handed out yet.
    pub fn new(waker: Waker) -> (cx: Cx)
        ensures
            cx.path() == Seq::<Id>::empty(),
            cx.next() == 1,
            cx.pending() == Seq::<Seq<Id>>::empty(),
            cx.driver_waker() == waker,
    {
        let cx = Cx { id_path: Vec::new(), next_id: 1, pending_async: Vec::new(), waker };
        assert(cx.pending() =~= Seq::<Seq<Id>>::empty());
        cx
    }

    /// The identities from the root to the node the pass is in.
    pub fn id_path(&self) -> (path: &Vec<Id>)
        ensures
            path@ == self.path(),
    {
        &self.id_path
    }

    /// Whether the pass stands at the root.
    pub fn is_empty(&self) -> (r: bool)
        ensures
            r == (self.path().len() == 0),
    {
        self.id_path.len() == 0
    }

    /// Hands out the next identity.
    pub fn new_id(&mut self) -> (id: Id)
        ensures
            id.raw() == old(self).next(),
            final(self).next() == next_after(old(self).next()),
            final(self).path() == old(self).path(),
            final(self).pending() == old(self).pending(),
            final(self).driver_waker() == old(self).driver_waker(),
    {
        let raw: u64 = self.next_id;
        if raw < u64::MAX {
            self.next_id = raw + 1;
        }
        Id::from_raw(raw)
    }

    /// Enters the scope of `id`.
    pub fn push(&mut self, id: Id)
        ensures
            final(self).path() == old(self).path().push(id),
            final(self).next() == old(self).next(),
            final(self).pending() == old(self).pending(),
            final(self).driver_waker() == old(self).driver_waker(),
    {
        self.id_path.push(id);
    }

    /// Leaves the innermost scope. At the root there is none to leave.
    pub fn pop(&mut self)
        ensures
            final(self).path() == if old(self).path().len() > 0 {
                old(self).path().drop_last()
            } else {
                old(self).path()
            },
            final(self).next() == old(self).next(),
            final(self).pending() == old(self).pending(),
            final(self).driver_waker() == old(self).driver_waker(),
    {
        let _ = self.id_path.pop();
    }

    /// Runs `f` inside the scope of `id`, and restores the path that was
    /// current before, whatever `f` did to it.
    pub fn with_id<R, F: FnOnce(&mut Cx) -> R>(&mut self, id: Id, f: F) -> (r: R)
        requires
            forall|inner: &mut Cx|
                inner.inside(*old(self), id, old(self).next()) ==> #[trigger] call_requires(f, (inner,)),
        ensures
            final(self).path() == old(self).path(),
            exists|inner: &mut Cx|
                {
                    &&& inner.inside(*old(self), id, old(self).next())
                    &&& #[trigger] call_ensures(f, (inner,), r)
                    &&& final(self).next() == final(inner).next()
                    &&& final(self).pending() == final(inner).pending()
                    &&& final(self).driver_waker() == final(inner).driver_waker()
                },
    {
        let saved = copy_path(&self.id_path);
        self.id_path.push(id);
        let r = f(self);
        self.id_path = saved;
        r
    }

    /// Hands out a fresh identity and runs `f` inside its scope. The path that
    /// was current before is restored, whatever `f` did to it.
    pub fn with_new_id<R, F: FnOnce(&mut Cx) -> R>(&mut self, f: F) -> (r: (Id, R))
        requires
            forall|inner: &mut Cx|
                inner.inside(
                    *old(self),
                    Id { raw: old(self).next() },
                    next_after(old(self).next()),
                ) ==> #[trigger] call_requires(f, (inner,)),
        ensures
            r.0.raw() == old(self).next(),
            final(self).path() == old(self).path(),
            exists|inner: &mut Cx|
                #![trigger inner.inside(*old(self), r.0, next_after(old(self).next()))]
                #![trigger call_ensures(f, (inner,), r.1)]
                {
                    &&& inner.inside(*old(self), r.0, next_after(old(self).next()))
                    &&& call_ensures(f, (inner,), r.1)
                    &&& final(self).next() == final(inner).next()
                    &&& final(self).pending() == final(inner).pending()
                    &&& final(self).driver_waker() == final(inner).driver_waker()
                },
    {
        let saved = copy_path(&self.id_path);
        let id = self.new_id();
        self.id_path.push(id);
        let r = f(self);
        self.id_path = saved;
        let ghost callee = choose|inner: &mut Cx|
            {
                &&& inner.inside(*old(self), id, next_after(old(self).next()))
                &&& #[trigger] call_ensures(f, (inner,), r)
                &&& self.next() == final(inner).next()
                &&& self.pending() == final(inner).pending()
                &&& self.driver_waker() == final(inner).driver_waker()
            };
        let out = (id, r);
        assert(call_ensures(f, (callee,), out.1));
        out
    }

    /// The waker of the driver, for a node that starts a computation.
    pub fn waker(&self) -> (waker: Waker)
        ensures
            waker == self.driver_waker(),
    {
        clone_waker(&self.waker)
    }

    /// Registers the node `id`, which stands at the current path or right
    /// below it, as waiting for a computation.
    pub fn add_pending_async(&mut self, id: Id)
        ensures
            final(self).pending() == old(self).pending().push(node_path(old(self).path(), id)),
            final(self).path() == old(self).path(),
            final(self).next() == old(self).next(),
            final(self).driver_waker() == old(self).driver_waker(),
    {
        let mut path = copy_path(&self.id_path);
        let n = path.len();
        if n == 0 || path[n - 1] != id {
            path.push(id);
        }
        self.pending_async.push(path);
        assert(self.pending() =~= old(self).pending().push(node_path(old(self).path(), id)));
    }

    /// Whether the node `id` is registered as waiting for a computation.
    pub fn is_pending_async(&self, id: Id) -> (r: bool)
        ensures
            r == exists|k: int| 0 <= k < self.pending().len() && ends_with(self.pending()[k], id),
    {
        let mut k: usize = 0;
        while k < self.pending_async.len()
            invariant
                k <= self.pending_async@.len(),
                forall|j: int| 0 <= j < k ==> !ends_with(self.pending()[j], id),
            decreases self.pending_async@.len() - k,
        {
            let path = &self.pending_async[k];
            let n = path.len();
            if n > 0 && path[n - 1] == id {
                assert(ends_with(self.pending()[k as int], id));
                return true;
            }
            k += 1;
        }
        false
    }

    /// The paths of the nodes registered as waiting for a computation.
    pub fn pending_async(&self) -> (paths: &Vec<Vec<Id>>)
        ensures
            paths@.len() == self.pending().len(),
            forall|k: int| 0 <= k < paths@.len() ==> (#[trigger] paths@[k])@ == self.pending()[k],
    {
        &self.pending_async
    }

    /// Whether any node is registered as waiting for a computation.
    pub fn has_pending_async(&self) -> (any: bool)
        ensures
            any == (self.pending().len() > 0),
    {
        self.pending_async.len() > 0
    }

    /// Takes the registrations out, for a driver that takes note of them.
    pub fn take_pending_async(&mut self) -> (paths: Vec<Vec<Id>>)
        ensures
            paths@.len() == old(self).pending().len(),
            forall|k: int|
                0 <= k < paths@.len() ==> (#[trigger] paths@[k])@ == old(self).pending()[k],
            final(self).pending() == Seq::<Seq<Id>>::empty(),
            final(self).path() == old(self).path(),
            final(self).next() == old(self).next(),
            final(self).driver_waker() == old(self).driver_waker(),
    {
        let mut paths: Vec<Vec<Id>> = Vec::new();
        std::mem::swap(&mut self.pending_async, &mut paths);
        assert(self.pending() =~= Seq::<Seq<Id>>::empty());
        paths
    }
}

} // verus!
