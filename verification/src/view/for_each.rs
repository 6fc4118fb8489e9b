//! A list of child views, one per item, matched by key from pass to pass.

use vstd::prelude::*;
use vstd::view::View as _;
use std::marker::PhantomData;
use crate::cx::Cx;
use crate::cx::next_after;
use crate::event::EventResult;
use crate::event::Message;
use crate::id::Id;
use crate::view::View;
use crate::widget::Pod;
use crate::widget::Widget;
use crate::widget::vstack::VStack;

verus! {

/// A view with one child per item. `key` names each item; `map` makes the
/// child view of an item from the application state.
///
/// Reconciliation walks the items in order and gives each the first retained
/// entry of the same key that no earlier item has taken. An item that finds
/// none gets a fresh child, so of two items with one key the second is a
/// fresh insert unless two entries with that key were retained. Entries that
/// no item takes are torn down.
pub struct ForEach<I, V, F, K> {
    pub items: Vec<I>,
    pub key: K,
    pub map: F,
    pub phantom: PhantomData<V>,
}

/// What `ForEach` retains for one item.
pub struct ItemState<T, A, V: View<T, A>> {
    pub key: usize,
    pub id: Id,
    pub view: V,
    pub state: V::State,
}

/// What `ForEach` retains: one entry per item of the last pass, in order.
pub struct ForEachState<T, A, V: View<T, A>> {
    pub items: Vec<ItemState<T, A, V>>,
}

/// What a pass did for one item.
pub struct Step<T, A, V: View<T, A>> {
    /// The context and the application state before and after the step.
    pub cx0: Cx,
    pub app0: T,
    pub cx1: Cx,
    pub app1: T,
    /// The key of the item and the view made for it.
    pub key: usize,
    pub view: V,
    /// The retained entries and their elements that were still untaken.
    pub rest_items: Seq<ItemState<T, A, V>>,
    pub rest_children: Seq<Pod<V::Element>>,
    /// Where among them the item found its entry, if it found one.
    pub position: Option<int>,
    /// Whether the child reported a change.
    pub changed: bool,
    /// The entry and the element that the step leaves for the item.
    pub entry: ItemState<T, A, V>,
    pub pod: Pod<V::Element>,
}

/// `p` is the first place in `items` that holds an entry with the key `key`.
pub open spec fn is_first_key_at<T, A, V: View<T, A>>(
    items: Seq<ItemState<T, A, V>>,
    key: usize,
    p: int,
) -> bool {
    &&& 0 <= p < items.len()
    &&& items[p].key == key
    &&& forall|q: int| 0 <= q < p ==> items[q].key != key
}

/// No entry of `items` has the key `key`.
pub open spec fn is_key_absent<T, A, V: View<T, A>>(
    items: Seq<ItemState<T, A, V>>,
    key: usize,
) -> bool {
    forall|q: int| 0 <= q < items.len() ==> items[q].key != key
}

/// The first entry with the key `key`, if there is one.
pub fn find_key<T, A, V: View<T, A>>(items: &Vec<ItemState<T, A, V>>, key: usize) -> (found:
    Option<usize>)
    ensures
        match found {
            Some(p) => is_first_key_at(items@, key, p as int),
            None => is_key_absent(items@, key),
        },
{
    let mut p: usize = 0;
    while p < items.len()
        invariant
            p <= items.len(),
            forall|q: int| 0 <= q < p ==> items@[q].key != key,
        decreases items.len() - p,
    {
        if items[p].key == key {
            return Some(p);
        }
        p += 1;
    }
    None
}

/// The first entry with the identity `id`, if there is one.
pub fn find_identity<T, A, V: View<T, A>>(items: &Vec<ItemState<T, A, V>>, id: Id) -> (found:
    Option<usize>)
    ensures
        match found {
            Some(p) => {
                &&& p < items@.len()
                &&& items@[p as int].id == id
                &&& forall|q: int| 0 <= q < p ==> items@[q].id != id
            },
            None => forall|q: int| 0 <= q < items@.len() ==> items@[q].id != id,
        },
{
    let mut p: usize = 0;
    while p < items.len()
        invariant
            p <= items.len(),
            forall|q: int| 0 <= q < p ==> items@[q].id != id,
        decreases items.len() - p,
    {
        if items[p].id == id {
            return Some(p);
        }
        p += 1;
    }
    None
}

impl<I, V, F, K> ForEach<I, V, F, K> {
    /// A list view of `items`.
    pub fn new(items: Vec<I>, key: K, map: F) -> (view: Self)
        ensures
            view.items == items,
            view.key == key,
            view.map == map,
    {
        ForEach { items, key, map, phantom: PhantomData }
    }

    /// The steps of a pass follow one another: each starts from the context
    /// and the application state that its predecessor left, and the first
    /// starts from `start` and `app`.
    pub open spec fn chained<T, A>(
        steps: Seq<Step<T, A, V>>,
        start: Cx,
        app: T,
    ) -> bool where V: View<T, A> {
        &&& steps.len() > 0 ==> steps[0].cx0 == start && steps[0].app0 == app
        &&& forall|a: int, b: int|
            0 <= a && b == a + 1 && b < steps.len() ==> (#[trigger] steps[b]).cx0 == (
            #[trigger] steps[a]).cx1 && steps[b].app0 == steps[a].app1
    }

    /// The context that a pass of these steps leaves.
    pub open spec fn cx_after<T, A>(steps: Seq<Step<T, A, V>>, start: Cx) -> Cx where V: View<T, A> {
        if steps.len() == 0 {
            start
        } else {
            steps.last().cx1
        }
    }

    /// The application state that a pass of these steps leaves.
    pub open spec fn app_after<T, A>(steps: Seq<Step<T, A, V>>, app: T) -> T where V: View<T, A> {
        if steps.len() == 0 {
            app
        } else {
            steps.last().app1
        }
    }

    /// The entries and elements of the steps are what the node holds.
    pub open spec fn collected<T, A>(
        steps: Seq<Step<T, A, V>>,
        items: Seq<ItemState<T, A, V>>,
        children: Seq<Pod<V::Element>>,
    ) -> bool where V: View<T, A> {
        &&& items.len() == steps.len()
        &&& children.len() == steps.len()
        &&& forall|k: int|
            0 <= k < steps.len() ==> items[k] == (#[trigger] steps[k]).entry && children[k]
                == steps[k].pod
    }
}

impl<I, V, F, K> ForEach<I, V, F, K> {
    /// Step `s` makes the view of item `k` and constructs it afresh.
    pub open spec fn step_fresh<T, A>(&self, k: int, s: Step<T, A, V>) -> bool where
        V: View<T, A>,
        F: Fn(&T, &I) -> V,
        K: Fn(&I) -> usize,
     {
        &&& call_ensures(self.key, (&self.items@[k],), s.key)
        &&& call_ensures(self.map, (&s.app0, &self.items@[k]), s.view)
        &&& s.view.built(s.cx0, s.app0, s.cx1, s.app1, s.entry.id, s.entry.state, s.pod.widget)
        &&& Self::step_kept_scope(s)
        &&& s.cx1.allocated_since(s.cx0, s.entry.id)
        &&& s.entry.key == s.key
        &&& s.entry.view == s.view
        &&& s.pod.needs_update
    }

    /// Step `s` leaves the path and the driver's waker as it found them, and
    /// hands out identities only.
    pub open spec fn step_kept_scope<T, A>(s: Step<T, A, V>) -> bool where V: View<T, A> {
        &&& s.cx1.path() == s.cx0.path()
        &&& s.cx1.driver_waker() == s.cx0.driver_waker()
        &&& s.cx0.next() <= s.cx1.next()
    }

    /// Step `s` makes the view of item `k` and reconciles the first untaken
    /// entry of the same key with it.
    pub open spec fn step_reused<T, A>(&self, k: int, s: Step<T, A, V>, p: int) -> bool where
        V: View<T, A>,
        F: Fn(&T, &I) -> V,
        K: Fn(&I) -> usize,
     {
        &&& call_ensures(self.key, (&self.items@[k],), s.key)
        &&& call_ensures(self.map, (&s.app0, &self.items@[k]), s.view)
        &&& is_first_key_at(s.rest_items, s.key, p)
        &&& p < s.rest_children.len()
        &&& s.view.rebuilt(
            s.rest_items[p].view,
            s.cx0,
            s.app0,
            s.rest_items[p].id,
            s.rest_items[p].state,
            s.rest_children[p].widget,
            s.cx1,
            s.app1,
            s.entry.id,
            s.entry.state,
            s.pod.widget,
            s.changed,
        )
        &&& Self::step_kept_scope(s)
        &&& s.entry.id == s.rest_items[p].id || s.cx1.allocated_since(s.cx0, s.entry.id)
        &&& s.entry.key == s.key
        &&& s.entry.view == s.view
        &&& s.pod.needs_update == (s.rest_children[p].needs_update || s.changed)
    }

    /// Step `s` is what reconciliation does for item `k`.
    pub open spec fn step_reconciled<T, A>(&self, k: int, s: Step<T, A, V>) -> bool where
        V: View<T, A>,
        F: Fn(&T, &I) -> V,
        K: Fn(&I) -> usize,
     {
        match s.position {
            Some(p) => self.step_reused(k, s, p),
            None => is_key_absent(s.rest_items, s.key) && self.step_fresh(k, s),
        }
    }

    /// The entries that are still untaken after step `s`.
    pub open spec fn rest_items_after<T, A>(s: Step<T, A, V>) -> Seq<
        ItemState<T, A, V>,
    > where V: View<T, A> {
        match s.position {
            Some(p) => s.rest_items.remove(p),
            None => s.rest_items,
        }
    }

    /// The elements that are still untaken after step `s`.
    pub open spec fn rest_children_after<T, A>(s: Step<T, A, V>) -> Seq<
        Pod<V::Element>,
    > where V: View<T, A> {
        match s.position {
            Some(p) => s.rest_children.remove(p),
            None => s.rest_children,
        }
    }

    /// Every step starts from the entries that its predecessor left untaken,
    /// and the first from all that were retained.
    pub open spec fn handed_on<T, A>(
        steps: Seq<Step<T, A, V>>,
        items: Seq<ItemState<T, A, V>>,
        children: Seq<Pod<V::Element>>,
    ) -> bool where V: View<T, A> {
        &&& steps.len() > 0 ==> steps[0].rest_items == items && steps[0].rest_children
            == children
        &&& forall|a: int, b: int|
            0 <= a && b == a + 1 && b < steps.len() ==> (#[trigger] steps[b]).rest_items
                == Self::rest_items_after(#[trigger] steps[a]) && steps[b].rest_children
                == Self::rest_children_after(steps[a])
    }

    /// The number of retained entries that no step has taken.
    pub open spec fn left_over<T, A>(
        steps: Seq<Step<T, A, V>>,
        items: Seq<ItemState<T, A, V>>,
    ) -> nat where V: View<T, A> {
        if steps.len() == 0 {
            items.len()
        } else {
            Self::rest_items_after(steps.last()).len()
        }
    }

    /// Some step found its entry out of place or found none, or its child
    /// reported a change.
    pub open spec fn disturbed<T, A>(steps: Seq<Step<T, A, V>>) -> bool where V: View<T, A> {
        exists|k: int|
            0 <= k < steps.len() && ((#[trigger] steps[k]).changed || steps[k].position != Some(
                0int,
            ))
    }

    /// The entries that are still untaken after all of `steps`.
    pub open spec fn rest_items_now<T, A>(
        steps: Seq<Step<T, A, V>>,
        items: Seq<ItemState<T, A, V>>,
    ) -> Seq<ItemState<T, A, V>> where V: View<T, A> {
        if steps.len() == 0 {
            items
        } else {
            Self::rest_items_after(steps.last())
        }
    }

    /// The elements that are still untaken after all of `steps`.
    pub open spec fn rest_children_now<T, A>(
        steps: Seq<Step<T, A, V>>,
        children: Seq<Pod<V::Element>>,
    ) -> Seq<Pod<V::Element>> where V: View<T, A> {
        if steps.len() == 0 {
            children
        } else {
            Self::rest_children_after(steps.last())
        }
    }

    /// `steps` are the first steps of a reconciliation pass that starts from
    /// `start` and `app` with the retained `items` and `children`.
    #[verifier::opaque]
    pub open spec fn traced<T, A>(
        &self,
        steps: Seq<Step<T, A, V>>,
        start: Cx,
        app: T,
        items: Seq<ItemState<T, A, V>>,
        children: Seq<Pod<V::Element>>,
    ) -> bool where V: View<T, A>, F: Fn(&T, &I) -> V, K: Fn(&I) -> usize {
        &&& Self::chained(steps, start, app)
        &&& Self::handed_on(steps, items, children)
        &&& forall|k: int| 0 <= k < steps.len() ==> self.step_reconciled(k, #[trigger] steps[k])
    }

    /// A pass that has done `steps` can go on with `step`.
    pub proof fn lemma_traced_push<T, A>(
        &self,
        steps: Seq<Step<T, A, V>>,
        step: Step<T, A, V>,
        start: Cx,
        app: T,
        items: Seq<ItemState<T, A, V>>,
        children: Seq<Pod<V::Element>>,
    ) where V: View<T, A>, F: Fn(&T, &I) -> V, K: Fn(&I) -> usize
        requires
            self.traced(steps, start, app, items, children),
            step.cx0 == Self::cx_after(steps, start),
            step.app0 == Self::app_after(steps, app),
            step.rest_items == Self::rest_items_now(steps, items),
            step.rest_children == Self::rest_children_now(steps, children),
            self.step_reconciled(steps.len() as int, step),
        ensures
            self.traced(steps.push(step), start, app, items, children),
    {
        reveal(ForEach::traced);
        let longer = steps.push(step);
        assert forall|k: int| 0 <= k < longer.len() implies self.step_reconciled(
            k,
            #[trigger] longer[k],
        ) by {
            if k < steps.len() {
                assert(longer[k] == steps[k]);
            }
        }
        assert(Self::chained(longer, start, app)) by {
            assert forall|a: int, b: int| 0 <= a && b == a + 1 && b < longer.len() implies (
            #[trigger] longer[b]).cx0 == (#[trigger] longer[a]).cx1 && longer[b].app0
                == longer[a].app1 by {
                assert(longer[a] == steps[a]);
                if b < steps.len() {
                    assert(longer[b] == steps[b]);
                }
            }
        }
        assert(Self::handed_on(longer, items, children)) by {
            assert forall|a: int, b: int| 0 <= a && b == a + 1 && b < longer.len() implies (
            #[trigger] longer[b]).rest_items == Self::rest_items_after(#[trigger] longer[a])
                && longer[b].rest_children == Self::rest_children_after(longer[a]) by {
                assert(longer[a] == steps[a]);
                if b < steps.len() {
                    assert(longer[b] == steps[b]);
                }
            }
        }
    }

    /// `gone` is what tearing down leaves of the entries `rest`, place by
    /// place: the same entries, with nothing outstanding in what they
    /// retain.
    pub open spec fn let_go<T, A>(
        rest: Seq<ItemState<T, A, V>>,
        gone: Seq<ItemState<T, A, V>>,
    ) -> bool where V: View<T, A> {
        &&& gone.len() == rest.len()
        &&& forall|k: int|
            0 <= k < rest.len() ==> {
                &&& (#[trigger] gone[k]).key == rest[k].key
                &&& gone[k].id == rest[k].id
                &&& gone[k].view == rest[k].view
                &&& rest[k].view.torn_down(rest[k].state, gone[k].state)
                &&& rest[k].view.idle(gone[k].state)
            }
    }

    /// The entries of `after` are those of `before`, place by place, with
    /// the keys and identities they had.
    pub open spec fn same_entries<T, A>(
        before: Seq<ItemState<T, A, V>>,
        after: Seq<ItemState<T, A, V>>,
    ) -> bool where V: View<T, A> {
        &&& after.len() == before.len()
        &&& forall|k: int|
            0 <= k < after.len() ==> (#[trigger] after[k]).id == before[k].id && after[k].key
                == before[k].key
    }

    /// Every step of a pass runs under the path and with the waker that the
    /// pass started with, and starts from a context that has handed out no
    /// fewer identities.
    pub proof fn lemma_steps_stay_in_scope<T, A>(
        steps: Seq<Step<T, A, V>>,
        start: Cx,
        app: T,
        k: int,
    ) where V: View<T, A>
        requires
            Self::chained(steps, start, app),
            forall|j: int| 0 <= j < steps.len() ==> Self::step_kept_scope(#[trigger] steps[j]),
            0 <= k < steps.len(),
        ensures
            steps[k].cx0.path() == start.path(),
            steps[k].cx1.path() == start.path(),
            steps[k].cx0.driver_waker() == start.driver_waker(),
            steps[k].cx1.driver_waker() == start.driver_waker(),
            start.next() <= steps[k].cx0.next(),
        decreases k,
    {
        assert(Self::step_kept_scope(steps[k]));
        if k > 0 {
            Self::lemma_steps_stay_in_scope(steps, start, app, k - 1);
            assert(Self::step_kept_scope(steps[k - 1]));
            assert(steps[k].cx0 == steps[k - 1].cx1);
        }
    }

    /// In a reconciliation pass every child is constructed or reconciled
    /// under the path and with the waker that the pass started with. A child
    /// that is constructed afresh gets an identity that none of the retained
    /// entries has, the untaken ones included, as long as identities are
    /// left.
    pub proof fn lemma_reconciled_in_scope<T, A>(
        &self,
        steps: Seq<Step<T, A, V>>,
        start: Cx,
        app: T,
        items: Seq<ItemState<T, A, V>>,
        children: Seq<Pod<V::Element>>,
        parent: Id,
        k: int,
    ) where V: View<T, A>, F: Fn(&T, &I) -> V, K: Fn(&I) -> usize
        requires
            self.traced(steps, start, app, items, children),
            0 <= k < steps.len(),
        ensures
            steps[k].cx0.path() == start.path(),
            steps[k].cx1.path() == start.path(),
            steps[k].cx0.driver_waker() == start.driver_waker(),
            steps[k].position is None && distinct_below(items, parent, start.next())
                && !steps[k].cx1.exhausted() ==> forall|j: int|
                0 <= j < items.len() ==> (#[trigger] items[j]).id != steps[k].entry.id,
    {
        reveal(ForEach::traced);
        assert forall|j: int| 0 <= j < steps.len() implies Self::step_kept_scope(
            #[trigger] steps[j],
        ) by {
            assert(self.step_reconciled(j, steps[j]));
        }
        Self::lemma_steps_stay_in_scope(steps, start, app, k);
        assert(self.step_reconciled(k, steps[k]));
    }

    /// The entries that are still untaken when step `k` begins; for `k` the
    /// number of steps, when the pass ends.
    pub open spec fn rest_before<T, A>(
        steps: Seq<Step<T, A, V>>,
        items: Seq<ItemState<T, A, V>>,
        k: int,
    ) -> Seq<ItemState<T, A, V>> where V: View<T, A> {
        if k == 0 {
            items
        } else {
            Self::rest_items_after(steps[k - 1])
        }
    }

    /// The items of the pass have, one by one and in order, the keys of the
    /// retained entries.
    pub open spec fn keys_in_place<T, A>(
        steps: Seq<Step<T, A, V>>,
        items: Seq<ItemState<T, A, V>>,
    ) -> bool where V: View<T, A> {
        &&& steps.len() == items.len()
        &&& forall|k: int| 0 <= k < steps.len() ==> (#[trigger] steps[k]).key == items[k].key
    }

    /// Some child reported a change.
    pub open spec fn some_child_changed<T, A>(steps: Seq<Step<T, A, V>>) -> bool where
        V: View<T, A>,
     {
        exists|k: int| 0 <= k < steps.len() && (#[trigger] steps[k]).changed
    }

    /// The first `k` items of a pass find their entries at the front of what
    /// is untaken exactly when they have the keys of the first `k` retained
    /// entries, in order. Then the entries from the `k`th on are still
    /// untaken, and nothing else.
    pub proof fn lemma_in_place_prefix<T, A>(
        &self,
        steps: Seq<Step<T, A, V>>,
        start: Cx,
        app: T,
        items: Seq<ItemState<T, A, V>>,
        children: Seq<Pod<V::Element>>,
        k: int,
    ) where V: View<T, A>, F: Fn(&T, &I) -> V, K: Fn(&I) -> usize
        requires
            self.traced(steps, start, app, items, children),
            0 <= k <= steps.len(),
            (forall|j: int| 0 <= j < k ==> (#[trigger] steps[j]).position == Some(0int)) || (k
                <= items.len() && forall|j: int|
                0 <= j < k ==> (#[trigger] steps[j]).key == items[j].key),
        ensures
            k <= items.len(),
            forall|j: int| 0 <= j < k ==> (#[trigger] steps[j]).position == Some(0int),
            forall|j: int| 0 <= j < k ==> (#[trigger] steps[j]).key == items[j].key,
            Self::rest_before(steps, items, k) == items.subrange(k, items.len() as int),
        decreases k,
    {
        reveal(ForEach::traced);
        if k == 0 {
            assert(items.subrange(0, items.len() as int) =~= items);
        } else {
            let j = k - 1;
            self.lemma_in_place_prefix(steps, start, app, items, children, j);
            let s = steps[j];
            assert(s.rest_items == Self::rest_before(steps, items, j)) by {
                if j > 0 {
                    assert(steps[j].rest_items == Self::rest_items_after(steps[j - 1]));
                }
            }
            let rest = items.subrange(j, items.len() as int);
            assert(self.step_reconciled(j, s));
            if j < items.len() {
                assert(rest[0] == items[j]);
            }
            assert(s.position == Some(0int) && s.key == items[j].key && j < items.len()) by {
                match s.position {
                    Some(p) => {
                        assert(is_first_key_at(rest, s.key, p));
                        if p != 0 {
                            assert(s.key == items[j].key);
                            assert(rest[0].key != s.key);
                        }
                    },
                    None => {
                        assert(is_key_absent(rest, s.key));
                        assert(s.key == items[j].key);
                        assert(rest[0].key != s.key);
                    },
                }
            }
            assert(rest.remove(0) =~= items.subrange(k, items.len() as int));
        }
    }

    /// A reconciliation pass reports a change exactly when a child reported
    /// one or the items do not have, one by one and in order, the keys of
    /// the retained entries. So a pass over the same keys in the same order
    /// changes nothing by itself, and every reordering, insertion and
    /// removal is reported.
    pub proof fn lemma_change_reported<T, A>(
        &self,
        steps: Seq<Step<T, A, V>>,
        start: Cx,
        app: T,
        items: Seq<ItemState<T, A, V>>,
        children: Seq<Pod<V::Element>>,
    ) where V: View<T, A>, F: Fn(&T, &I) -> V, K: Fn(&I) -> usize
        requires
            self.traced(steps, start, app, items, children),
        ensures
            (Self::disturbed(steps) || Self::left_over(steps, items) > 0) == (
            Self::some_child_changed(steps) || !Self::keys_in_place(steps, items)),
    {
        let n = steps.len() as int;
        if !Self::disturbed(steps) && Self::left_over(steps, items) == 0 {
            assert forall|j: int| 0 <= j < n implies (#[trigger] steps[j]).position == Some(
                0int,
            ) && !steps[j].changed by {}
            self.lemma_in_place_prefix(steps, start, app, items, children, n);
            assert(Self::rest_before(steps, items, n).len() == Self::left_over(steps, items));
            assert(Self::keys_in_place(steps, items));
            assert(!Self::some_child_changed(steps));
        }
        if !Self::some_child_changed(steps) && Self::keys_in_place(steps, items) {
            self.lemma_in_place_prefix(steps, start, app, items, children, n);
            assert(Self::rest_before(steps, items, n).len() == Self::left_over(steps, items));
            assert(!Self::disturbed(steps)) by {
                if Self::disturbed(steps) {
                    let k = choose|k: int|
                        0 <= k < steps.len() && ((#[trigger] steps[k]).changed || steps[k].position
                            != Some(0int));
                    assert(steps[k].position == Some(0int));
                    assert(steps[k].changed);
                }
            }
        }
    }

    /// The entries of `items` are well formed and go with the elements of
    /// `children`, place by place.
    pub open spec fn paired<T, A>(
        items: Seq<ItemState<T, A, V>>,
        children: Seq<Pod<V::Element>>,
    ) -> bool where V: View<T, A> {
        &&& items.len() == children.len()
        &&& forall|k: int|
            0 <= k < items.len() ==> {
                &&& (#[trigger] items[k]).view.wf()
                &&& items[k].view.coherent(items[k].state)
                &&& items[k].view.consistent(items[k].state, children[k].widget)
            }
    }

    /// The first elements of `before` are shown unchanged by `after`.
    pub open spec fn still<T, A>(
        before: Seq<Pod<V::Element>>,
        after: Seq<Pod<V::Element>>,
    ) -> bool where V: View<T, A> {
        &&& after.len() <= before.len()
        &&& forall|k: int|
            0 <= k < after.len() ==> {
                &&& (#[trigger] after[k]).needs_update == before[k].needs_update
                &&& before[k].widget.same(after[k].widget)
            }
    }
}

/// Reconciles one retained entry and its element with the view that takes
/// the place of the entry's own.
fn reconcile_entry<T, A, V: View<T, A>>(
    view: V,
    cx: &mut Cx,
    app_state: &mut T,
    entry: &mut ItemState<T, A, V>,
    pod: &mut Pod<V::Element>,
) -> (changed: bool)
    requires
        view.wf(),
        old(entry).view.wf(),
        old(entry).view.coherent(old(entry).state),
        old(entry).view.consistent(old(entry).state, old(pod).widget),
    ensures
        final(cx).path() == old(cx).path(),
        final(cx).driver_waker() == old(cx).driver_waker(),
        old(cx).next() <= final(cx).next(),
        final(entry).view == view,
        final(entry).key == old(entry).key,
        final(entry).id == old(entry).id || final(cx).allocated_since(*old(cx), final(entry).id),
        view.coherent(final(entry).state),
        view.consistent(final(entry).state, final(pod).widget),
        view.rebuilt(
            old(entry).view,
            *old(cx),
            *old(app_state),
            old(entry).id,
            old(entry).state,
            old(pod).widget,
            *final(cx),
            *final(app_state),
            final(entry).id,
            final(entry).state,
            final(pod).widget,
            changed,
        ),
        final(pod).needs_update == (old(pod).needs_update || changed),
        view.unchanged(old(entry).view, *old(app_state), old(entry).state, old(pod).widget) ==> {
            &&& !changed
            &&& final(entry).id == old(entry).id
            &&& *final(app_state) == *old(app_state)
            &&& old(pod).widget.same(final(pod).widget)
        },
{
    let changed = view.rebuild(
        cx,
        &entry.view,
        &mut entry.id,
        &mut entry.state,
        &mut pod.widget,
        app_state,
    );
    entry.view = view;
    if changed {
        pod.request_update();
    }
    changed
}


impl<I, T, A, V, F, K> View<T, A> for ForEach<I, V, F, K> where
    V: View<T, A>,
    F: Fn(&T, &I) -> V,
    K: Fn(&I) -> usize,
 {
    type State = ForEachState<T, A, V>;

    type Element = VStack<V::Element>;

    open spec fn wf(&self) -> bool {
        &&& forall|item: I| call_requires(self.key, (&item,))
        &&& forall|app: T, item: I| call_requires(self.map, (&app, &item))
        &&& forall|app: T, item: I, v: V| call_ensures(self.map, (&app, &item), v) ==> v.wf()
    }

    open spec fn coherent(&self, state: Self::State) -> bool {
        forall|k: int|
            0 <= k < state.items@.len() ==> (#[trigger] state.items@[k]).view.wf()
                && state.items@[k].view.coherent(state.items@[k].state)
    }

    open spec fn consistent(&self, state: Self::State, element: Self::Element) -> bool {
        &&& element.children@.len() == state.items@.len()
        &&& forall|k: int|
            0 <= k < state.items@.len() ==> (#[trigger] state.items@[k]).view.consistent(
                state.items@[k].state,
                element.children@[k].widget,
            )
    }

    open spec fn idle(&self, state: Self::State) -> bool {
        forall|k: int|
            0 <= k < state.items@.len() ==> (#[trigger] state.items@[k]).view.idle(
                state.items@[k].state,
            )
    }

    open spec fn unchanged(
        &self,
        prev: Self,
        app: T,
        state: Self::State,
        element: Self::Element,
    ) -> bool {
        &&& self.items@.len() == state.items@.len()
        &&& forall|k: int, key: usize|
            0 <= k < self.items@.len() && #[trigger] call_ensures(
                self.key,
                (&self.items@[k],),
                key,
            ) ==> key == state.items@[k].key
        &&& forall|k: int, v: V|
            0 <= k < self.items@.len() && #[trigger] call_ensures(
                self.map,
                (&app, &self.items@[k]),
                v,
            ) ==> v.unchanged(
                state.items@[k].view,
                app,
                state.items@[k].state,
                element.children@[k].widget,
            )
    }

    open spec fn built(
        &self,
        cx0: Cx,
        app0: T,
        cx1: Cx,
        app1: T,
        id: Id,
        state: Self::State,
        element: Self::Element,
    ) -> bool {
        &&& id.raw() == cx0.next()
        &&& element.id is None
        &&& exists|start: Cx, steps: Seq<Step<T, A, V>>|
            {
                &&& start.inside(cx0, id, next_after(cx0.next()))
                &&& steps.len() == self.items@.len()
                &&& #[trigger] Self::chained(steps, start, app0)
                &&& forall|k: int|
                    0 <= k < steps.len() ==> (#[trigger] steps[k]).position is None
                        && self.step_fresh(k, steps[k])
                &&& Self::collected(steps, state.items@, element.children@)
                &&& cx1.next() == Self::cx_after(steps, start).next()
                &&& cx1.pending() == Self::cx_after(steps, start).pending()
                &&& app1 == Self::app_after(steps, app0)
            }
    }

    open spec fn rebuilt(
        &self,
        prev: Self,
        cx0: Cx,
        app0: T,
        id0: Id,
        state0: Self::State,
        element0: Self::Element,
        cx1: Cx,
        app1: T,
        id1: Id,
        state1: Self::State,
        element1: Self::Element,
        changed: bool,
    ) -> bool {
        &&& id1 == id0
        &&& element1.id == element0.id
        &&& exists|start: Cx, steps: Seq<Step<T, A, V>>, gone: Seq<ItemState<T, A, V>>|
            #![trigger
                self.traced(steps, start, app0, state0.items@, element0.children@),
                Self::let_go(Self::rest_items_now(steps, state0.items@), gone),
            ]
            {
                &&& start.inside(cx0, id0, cx0.next())
                &&& steps.len() == self.items@.len()
                &&& self.traced(steps, start, app0, state0.items@, element0.children@)
                &&& Self::let_go(Self::rest_items_now(steps, state0.items@), gone)
                &&& Self::collected(steps, state1.items@, element1.children@)
                &&& cx1.next() == Self::cx_after(steps, start).next()
                &&& cx1.pending() == Self::cx_after(steps, start).pending()
                &&& app1 == Self::app_after(steps, app0)
                &&& changed == (Self::disturbed(steps) || Self::left_over(steps, state0.items@)
                    > 0)
            }
    }

    open spec fn dispatched(
        &self,
        id_path: Seq<Id>,
        message: Message,
        app0: T,
        state0: Self::State,
        app1: T,
        state1: Self::State,
        result: EventResult<A>,
    ) -> bool {
        if id_path.len() > 0 && exists|p: int| is_first_identity_at(state0.items@, id_path[0], p) {
            exists|p: int|
                {
                    &&& #[trigger] is_first_identity_at(state0.items@, id_path[0], p)
                    &&& state1.items@.len() == state0.items@.len()
                    &&& forall|q: int|
                        0 <= q < state0.items@.len() && q != p ==> state1.items@[q]
                            == state0.items@[q]
                    &&& state1.items@[p].key == state0.items@[p].key
                    &&& state1.items@[p].id == state0.items@[p].id
                    &&& state1.items@[p].view == state0.items@[p].view
                    &&& state0.items@[p].view.dispatched(
                        id_path.subrange(1, id_path.len() as int),
                        message,
                        app0,
                        state0.items@[p].state,
                        app1,
                        state1.items@[p].state,
                        result,
                    )
                }
        } else {
            result is Stale && app1 == app0 && state1 == state0
        }
    }

    open spec fn torn_down(&self, state0: Self::State, state1: Self::State) -> bool {
        &&& state1.items@.len() == state0.items@.len()
        &&& forall|k: int|
            0 <= k < state0.items@.len() ==> {
                &&& (#[trigger] state1.items@[k]).key == state0.items@[k].key
                &&& state1.items@[k].id == state0.items@[k].id
                &&& state1.items@[k].view == state0.items@[k].view
                &&& state0.items@[k].view.torn_down(state0.items@[k].state, state1.items@[k].state)
            }
    }

    fn build(&self, cx: &mut Cx, app_state: &mut T) -> (out: (Id, Self::State, Self::Element))
        ensures
            !final(cx).exhausted() ==> distinct_below(out.1.items@, out.0, final(cx).next()),
    {
        let id = cx.new_id();
        cx.push(id);
        let ghost start = *cx;
        let ghost mut steps: Seq<Step<T, A, V>> = Seq::<Step<T, A, V>>::empty();
        let mut children: Vec<Pod<V::Element>> = Vec::new();
        let mut items: Vec<ItemState<T, A, V>> = Vec::new();
        let mut i: usize = 0;
        while i < self.items.len()
            invariant
                self.wf(),
                i <= self.items@.len(),
                steps.len() == i,
                cx.path() == start.path(),
                cx.driver_waker() == start.driver_waker(),
                start.next() <= cx.next(),
                id.raw() < start.next() || start.exhausted(),
                Self::chained(steps, start, *old(app_state)),
                *cx == Self::cx_after(steps, start),
                *app_state == Self::app_after(steps, *old(app_state)),
                forall|k: int|
                    0 <= k < steps.len() ==> (#[trigger] steps[k]).position is None
                        && self.step_fresh(k, steps[k]),
                Self::collected(steps, items@, children@),
                forall|k: int|
                    0 <= k < i ==> {
                        &&& (#[trigger] items@[k]).view.wf()
                        &&& items@[k].view.coherent(items@[k].state)
                        &&& items@[k].view.consistent(items@[k].state, children@[k].widget)
                    },
                !cx.exhausted() ==> distinct_below(items@, id, cx.next()),
            decreases self.items@.len() - i,
        {
            let item = &self.items[i];
            let key = (self.key)(item);
            let view = (self.map)(&*app_state, item);
            let ghost cx_before = *cx;
            let ghost app_before = *app_state;
            let (child_id, child_state, child_element) = view.build(cx, app_state);
            let pod = Pod::new(child_element);
            let entry = ItemState { key, id: child_id, view, state: child_state };
            proof {
                let step = Step {
                    cx0: cx_before,
                    app0: app_before,
                    cx1: *cx,
                    app1: *app_state,
                    key,
                    view: entry.view,
                    rest_items: Seq::<ItemState<T, A, V>>::empty(),
                    rest_children: Seq::<Pod<V::Element>>::empty(),
                    position: None,
                    changed: false,
                    entry,
                    pod,
                };
                let before = steps;
                steps = steps.push(step);
                assert(forall|k: int| 0 <= k < before.len() ==> steps[k] == before[k]);
                assert(self.step_fresh(i as int, step));
            }
            children.push(pod);
            items.push(entry);
            i += 1;
        }
        let element = VStack::new(children);
        cx.pop();
        proof {
            assert(old(cx).path().push(id).drop_last() =~= old(cx).path());
            assert(Self::collected(steps, items@, element.children@));
        }
        (id, ForEachState { items }, element)
    }

    fn rebuild(
        &self,
        cx: &mut Cx,
        prev: &Self,
        id: &mut Id,
        state: &mut Self::State,
        element: &mut Self::Element,
        app_state: &mut T,
    ) -> (changed: bool)
        ensures
            distinct_below(old(state).items@, *old(id), old(cx).next()) && !final(cx).exhausted()
                ==> distinct_below(final(state).items@, *final(id), final(cx).next()),
            self.unchanged(*prev, *old(app_state), *old(state), *old(element)) ==> Self::same_entries(
                old(state).items@,
                final(state).items@,
            ),
    {
        let mut changed = false;
        cx.push(*id);
        let ghost start = *cx;
        let ghost old_items = state.items@;
        let ghost old_children = element.children@;
        let ghost calm = self.unchanged(*prev, *old(app_state), *old(state), *old(element));
        let ghost mut steps: Seq<Step<T, A, V>> = Seq::<Step<T, A, V>>::empty();
        let mut children: Vec<Pod<V::Element>> = Vec::new();
        let mut items: Vec<ItemState<T, A, V>> = Vec::new();
        let mut removed: usize = 0;
        let mut i: usize = 0;
        proof {
            reveal(ForEach::traced);
            assert(self.traced(steps, start, *old(app_state), old_items, old_children));
            assert(Self::paired(old_items, old_children));
            assert(old_items.len() == state.items.len());
            assert(items@ + state.items@ =~= old_items);
        }
        while i < self.items.len()
            invariant
                self.wf(),
                i <= self.items@.len(),
                steps.len() == i,
                old_items == old(state).items@,
                old_children == old(element).children@,
                calm == self.unchanged(*prev, *old(app_state), *old(state), *old(element)),
                cx.path() == start.path(),
                cx.driver_waker() == start.driver_waker(),
                start.next() <= cx.next(),
                element.id == old(element).id,
                self.traced(steps, start, *old(app_state), old_items, old_children),
                *cx == Self::cx_after(steps, start),
                *app_state == Self::app_after(steps, *old(app_state)),
                state.items@ == Self::rest_items_now(steps, old_items),
                element.children@ == Self::rest_children_now(steps, old_children),
                Self::collected(steps, items@, children@),
                Self::paired(items@, children@),
                Self::paired(state.items@, element.children@),
                removed + state.items@.len() == old_items.len(),
                old_items.len() <= usize::MAX,
                changed == Self::disturbed(steps),
                !changed ==> removed == i,
                distinct_below(old_items, *id, start.next()) && !cx.exhausted() ==> distinct_below(
                    items@ + state.items@,
                    *id,
                    cx.next(),
                ),
                calm ==> {
                    &&& !changed
                    &&& *app_state == *old(app_state)
                    &&& state.items@ == old_items.subrange(i as int, old_items.len() as int)
                    &&& element.children@ == old_children.subrange(
                        i as int,
                        old_children.len() as int,
                    )
                    &&& Self::still(old_children, children@)
                    &&& forall|k: int|
                        0 <= k < i ==> (#[trigger] items@[k]).id == old_items[k].id && items@[k].key
                            == old_items[k].key
                },
            decreases self.items@.len() - i,
        {
            let item = &self.items[i];
            let key = (self.key)(item);
            let view = (self.map)(&*app_state, item);
            let ghost cx_before = *cx;
            let ghost app_before = *app_state;
            let ghost rest_items = state.items@;
            let ghost rest_children = element.children@;
            let ghost before = steps;
            let ghost kept_items = items@;
            let ghost kept_children = children@;
            match find_key(&state.items, key) {
                Some(index) => {
                    let old_index = index + removed;
                    let mut entry = state.items.remove(index);
                    let mut pod = element.children.remove(index);
                    removed += 1;
                    proof {
                        assert(entry == rest_items[index as int]);
                        assert(pod == rest_children[index as int]);
                        if calm {
                            assert(rest_items[0] == old_items[i as int]);
                            assert(rest_children[0] == old_children[i as int]);
                            assert(call_ensures(self.key, (&self.items@[i as int],), key));
                            assert(index == 0);
                            assert(call_ensures(
                                self.map,
                                (&*old(app_state), &self.items@[i as int]),
                                view,
                            ));
                        }
                    }
                    let item_changed = reconcile_entry(view, cx, app_state, &mut entry, &mut pod);
                    if item_changed {
                        changed = true;
                    }
                    if old_index != children.len() {
                        changed = true;
                    }
                    proof {
                        let step = Step {
                            cx0: cx_before,
                            app0: app_before,
                            cx1: *cx,
                            app1: *app_state,
                            key,
                            view: entry.view,
                            rest_items,
                            rest_children,
                            position: Some(index as int),
                            changed: item_changed,
                            entry,
                            pod,
                        };
                        assert(self.step_reused(i as int, step, index as int));
                        self.lemma_traced_push(
                            before,
                            step,
                            start,
                            *old(app_state),
                            old_items,
                            old_children,
                        );
                        Self::lemma_disturbed_push(before, step);
                        steps = before.push(step);
                        Self::lemma_paired_remove(rest_items, rest_children, index as int);
                        if distinct_below(old_items, *id, start.next()) && !cx.exhausted() {
                            lemma_distinct_replace(
                                kept_items,
                                rest_items,
                                index as int,
                                entry,
                                *id,
                                cx_before.next(),
                                cx.next(),
                            );
                        }
                        if calm {
                            assert(state.items@ =~= old_items.subrange(
                                i + 1,
                                old_items.len() as int,
                            ));
                            assert(element.children@ =~= old_children.subrange(
                                i + 1,
                                old_children.len() as int,
                            ));
                        }
                    }
                    children.push(pod);
                    items.push(entry);
                },
                None => {
                    changed = true;
                    let (child_id, child_state, child_element) = view.build(cx, app_state);
                    let pod = Pod::new(child_element);
                    let entry = ItemState { key, id: child_id, view, state: child_state };
                    proof {
                        let step = Step {
                            cx0: cx_before,
                            app0: app_before,
                            cx1: *cx,
                            app1: *app_state,
                            key,
                            view: entry.view,
                            rest_items,
                            rest_children,
                            position: None,
                            changed: false,
                            entry,
                            pod,
                        };
                        assert(self.step_fresh(i as int, step));
                        self.lemma_traced_push(
                            before,
                            step,
                            start,
                            *old(app_state),
                            old_items,
                            old_children,
                        );
                        Self::lemma_disturbed_push(before, step);
                        steps = before.push(step);
                        if distinct_below(old_items, *id, start.next()) && !cx.exhausted() {
                            lemma_distinct_insert(
                                kept_items,
                                rest_items,
                                entry,
                                *id,
                                cx_before.next(),
                                cx.next(),
                            );
                        }
                        if calm {
                            assert(rest_items[0] == old_items[i as int]);
                            assert(call_ensures(self.key, (&self.items@[i as int],), key));
                            assert(false);
                        }
                    }
                    children.push(pod);
                    items.push(entry);
                },
            }
            proof {
                assert(Self::collected(steps, items@, children@)) by {
                    assert forall|k: int| 0 <= k < steps.len() implies items@[k] == (
                    #[trigger] steps[k]).entry && children@[k] == steps[k].pod by {
                        if k < before.len() {
                            assert(steps[k] == before[k]);
                            assert(items@[k] == kept_items[k]);
                            assert(children@[k] == kept_children[k]);
                        }
                    }
                }
                assert(Self::paired(items@, children@)) by {
                    assert forall|k: int| 0 <= k < items@.len() implies {
                        &&& (#[trigger] items@[k]).view.wf()
                        &&& items@[k].view.coherent(items@[k].state)
                        &&& items@[k].view.consistent(items@[k].state, children@[k].widget)
                    } by {
                        if k < kept_items.len() {
                            assert(items@[k] == kept_items[k]);
                            assert(children@[k] == kept_children[k]);
                        }
                    }
                }
                if calm {
                    assert forall|k: int| 0 <= k < items@.len() implies (#[trigger] items@[k]).id
                        == old_items[k].id && items@[k].key == old_items[k].key by {
                        if k < kept_items.len() {
                            assert(items@[k] == kept_items[k]);
                        }
                    }
                    assert(Self::still(old_children, children@)) by {
                        assert forall|k: int| 0 <= k < children@.len() implies {
                            &&& (#[trigger] children@[k]).needs_update
                                == old_children[k].needs_update
                            &&& old_children[k].widget.same(children@[k].widget)
                        } by {
                            if k < kept_children.len() {
                                assert(children@[k] == kept_children[k]);
                            }
                        }
                    }
                }
            }
            i += 1;
        }
        if state.items.len() > 0 {
            changed = true;
        }
        proof {
            if distinct_below(old_items, *id, start.next()) && !cx.exhausted() {
                lemma_distinct_prefix(items@, state.items@, *id, cx.next());
            }
        }
        let ghost rest = state.items@;
        let mut j: usize = 0;
        while j < state.items.len()
            invariant
                j <= state.items@.len(),
                rest == Self::rest_items_now(steps, old_items),
                state.items@.len() == rest.len(),
                forall|k: int|
                    0 <= k < state.items@.len() ==> {
                        &&& (#[trigger] state.items@[k]).key == rest[k].key
                        &&& state.items@[k].id == rest[k].id
                        &&& state.items@[k].view == rest[k].view
                        &&& state.items@[k].view.wf()
                        &&& state.items@[k].view.coherent(state.items@[k].state)
                    },
                forall|k: int|
                    0 <= k < j ==> {
                        &&& (#[trigger] state.items@[k]).view.idle(state.items@[k].state)
                        &&& state.items@[k].view.torn_down(rest[k].state, state.items@[k].state)
                    },
                forall|k: int|
                    j <= k < state.items@.len() ==> (#[trigger] state.items@[k]) == rest[k],
            decreases state.items@.len() - j,
        {
            let entry = &mut state.items[j];
            entry.view.teardown(&mut entry.state);
            j += 1;
        }
        let ghost gone = state.items@;
        proof {
            assert(Self::let_go(rest, gone));
        }
        element.children = children;
        state.items = items;
        cx.pop();
        proof {
            assert(old(cx).path().push(*id).drop_last() =~= old(cx).path());
            assert(start.inside(*old(cx), *id, old(cx).next()));
            assert(self.traced(
                steps,
                start,
                *old(app_state),
                old(state).items@,
                old(element).children@,
            ));
            assert(Self::let_go(Self::rest_items_now(steps, old(state).items@), gone));
            if calm {
                assert(old_items.len() == self.items@.len());
                assert(Self::same_entries(old_items, state.items@));
            }
        }
        changed
    }

    fn event(
        &self,
        id_path: &[Id],
        state: &mut Self::State,
        message: Message,
        app_state: &mut T,
    ) -> (result: EventResult<A>) {
        if id_path.len() == 0 {
            return EventResult::Stale;
        }
        let hd = id_path[0];
        match find_identity(&state.items, hd) {
            Some(p) => {
                let tl = vstd::slice::slice_subrange(id_path, 1, id_path.len());
                let entry = &mut state.items[p];
                let result = entry.view.event(tl, &mut entry.state, message, app_state);
                proof {
                    assert(is_first_identity_at(old(state).items@, id_path@[0], p as int));
                }
                result
            },
            None => EventResult::Stale,
        }
    }

    fn teardown(&self, state: &mut Self::State) {
        let mut j: usize = 0;
        while j < state.items.len()
            invariant
                j <= state.items@.len(),
                state.items@.len() == old(state).items@.len(),
                forall|k: int|
                    0 <= k < state.items@.len() ==> {
                        &&& (#[trigger] state.items@[k]).key == old(state).items@[k].key
                        &&& state.items@[k].id == old(state).items@[k].id
                        &&& state.items@[k].view == old(state).items@[k].view
                        &&& state.items@[k].view.wf()
                        &&& state.items@[k].view.coherent(state.items@[k].state)
                        &&& forall|e: V::Element| #[trigger]
                            state.items@[k].view.consistent(old(state).items@[k].state, e)
                                ==> state.items@[k].view.consistent(state.items@[k].state, e)
                    },
                forall|k: int|
                    0 <= k < j ==> {
                        &&& (#[trigger] state.items@[k]).view.idle(state.items@[k].state)
                        &&& state.items@[k].view.torn_down(
                            old(state).items@[k].state,
                            state.items@[k].state,
                        )
                    },
                forall|k: int|
                    j <= k < state.items@.len() ==> (#[trigger] state.items@[k])
                        == old(state).items@[k],
            decreases state.items@.len() - j,
        {
            let entry = &mut state.items[j];
            entry.view.teardown(&mut entry.state);
            j += 1;
        }
    }
}

/// `p` is the first place in `items` that holds an entry with the identity
/// `id`.
pub open spec fn is_first_identity_at<T, A, V: View<T, A>>(
    items: Seq<ItemState<T, A, V>>,
    id: Id,
    p: int,
) -> bool {
    &&& 0 <= p < items.len()
    &&& items[p].id == id
    &&& forall|q: int| 0 <= q < p ==> items[q].id != id
}

/// The entries of `items` have identities that differ from one another and
/// from `parent`, and all of them were handed out before `limit`.
pub open spec fn distinct_below<T, A, V: View<T, A>>(
    items: Seq<ItemState<T, A, V>>,
    parent: Id,
    limit: u64,
) -> bool {
    &&& parent.raw() < limit
    &&& forall|a: int| 0 <= a < items.len() ==> parent.raw() < (#[trigger] items[a]).id.raw() < limit
    &&& forall|a: int, b: int|
        0 <= a < b < items.len() ==> (#[trigger] items[a]).id != (#[trigger] items[b]).id
}

/// Entries with distinct identities stay so when one that was still untaken
/// joins the taken ones, whether it kept its identity or got a fresh one.
pub proof fn lemma_distinct_replace<T, A, V: View<T, A>>(
    kept: Seq<ItemState<T, A, V>>,
    rest: Seq<ItemState<T, A, V>>,
    p: int,
    entry: ItemState<T, A, V>,
    parent: Id,
    limit0: u64,
    limit1: u64,
)
    requires
        distinct_below(kept + rest, parent, limit0),
        0 <= p < rest.len(),
        limit0 <= limit1,
        entry.id == rest[p].id || limit0 <= entry.id.raw() < limit1,
    ensures
        distinct_below(kept.push(entry) + rest.remove(p), parent, limit1),
{
    let before = kept + rest;
    let after = kept.push(entry) + rest.remove(p);
    let n = kept.len() as int;
    assert(before[n + p] == rest[p]);
    assert forall|a: int| 0 <= a < after.len() implies parent.raw() < (#[trigger] after[a]).id.raw()
        < limit1 && (a != n ==> after[a] == before[if a < n {
        a
    } else if a - n - 1 < p {
        a - 1
    } else {
        a
    }]) by {
        if a < n {
            assert(after[a] == kept[a]);
            assert(before[a] == kept[a]);
        } else if a == n {
            assert(after[a] == entry);
        } else {
            let r = a - n - 1;
            assert(after[a] == rest.remove(p)[r]);
            if r < p {
                assert(before[a - 1] == rest[r]);
            } else {
                assert(before[a] == rest[r + 1]);
            }
        }
    }
    assert forall|a: int, b: int| 0 <= a < b < after.len() implies (#[trigger] after[a]).id != (
    #[trigger] after[b]).id by {
        let ia = if a < n {
            a
        } else if a == n {
            n + p
        } else if a - n - 1 < p {
            a - 1
        } else {
            a
        };
        let ib = if b < n {
            b
        } else if b == n {
            n + p
        } else if b - n - 1 < p {
            b - 1
        } else {
            b
        };
        assert(ia != ib);
        assert(0 <= ia < before.len() && 0 <= ib < before.len());
        if ia < ib {
            assert(before[ia].id != before[ib].id);
        } else {
            assert(before[ib].id != before[ia].id);
        }
        assert(parent.raw() < before[ia].id.raw() < limit0);
        assert(parent.raw() < before[ib].id.raw() < limit0);
    }
}

/// Entries with distinct identities stay so when an entry with a fresh
/// identity joins the taken ones.
pub proof fn lemma_distinct_insert<T, A, V: View<T, A>>(
    kept: Seq<ItemState<T, A, V>>,
    rest: Seq<ItemState<T, A, V>>,
    entry: ItemState<T, A, V>,
    parent: Id,
    limit0: u64,
    limit1: u64,
)
    requires
        distinct_below(kept + rest, parent, limit0),
        limit0 <= entry.id.raw() < limit1,
    ensures
        distinct_below(kept.push(entry) + rest, parent, limit1),
{
    let before = kept + rest;
    let after = kept.push(entry) + rest;
    let n = kept.len() as int;
    assert forall|a: int| 0 <= a < after.len() implies parent.raw() < (#[trigger] after[a]).id.raw()
        < limit1 && (a != n ==> after[a] == before[if a < n {
        a
    } else {
        a - 1
    }] && after[a].id.raw() < limit0) by {
        if a < n {
            assert(after[a] == kept[a]);
            assert(before[a] == kept[a]);
        } else if a == n {
            assert(after[a] == entry);
        } else {
            assert(after[a] == rest[a - n - 1]);
            assert(before[a - 1] == rest[a - n - 1]);
        }
    }
    assert forall|a: int, b: int| 0 <= a < b < after.len() implies (#[trigger] after[a]).id != (
    #[trigger] after[b]).id by {
        if a != n && b != n {
            let ia = if a < n {
                a
            } else {
                a - 1
            };
            let ib = if b < n {
                b
            } else {
                b - 1
            };
            assert(before[ia].id != before[ib].id);
        }
    }
}

/// Of entries with distinct identities, the first ones have distinct
/// identities.
pub proof fn lemma_distinct_prefix<T, A, V: View<T, A>>(
    kept: Seq<ItemState<T, A, V>>,
    rest: Seq<ItemState<T, A, V>>,
    parent: Id,
    limit: u64,
)
    requires
        distinct_below(kept + rest, parent, limit),
    ensures
        distinct_below(kept, parent, limit),
{
    let all = kept + rest;
    assert forall|a: int| 0 <= a < kept.len() implies parent.raw() < (#[trigger] kept[a]).id.raw()
        < limit by {
        assert(all[a] == kept[a]);
    }
    assert forall|a: int, b: int| 0 <= a < b < kept.len() implies (#[trigger] kept[a]).id != (
    #[trigger] kept[b]).id by {
        assert(all[a] == kept[a]);
        assert(all[b] == kept[b]);
    }
}

impl<I, V, F, K> ForEach<I, V, F, K> {
    /// Entries and elements that go together still do when one place is
    /// taken out of both.
    pub proof fn lemma_paired_remove<T, A>(
        items: Seq<ItemState<T, A, V>>,
        children: Seq<Pod<V::Element>>,
        p: int,
    ) where V: View<T, A>
        requires
            Self::paired(items, children),
            0 <= p < items.len(),
        ensures
            Self::paired(items.remove(p), children.remove(p)),
    {
        let less = items.remove(p);
        let fewer = children.remove(p);
        assert forall|k: int| 0 <= k < less.len() implies {
            &&& (#[trigger] less[k]).view.wf()
            &&& less[k].view.coherent(less[k].state)
            &&& less[k].view.consistent(less[k].state, fewer[k].widget)
        } by {
            if k < p {
                assert(less[k] == items[k]);
                assert(fewer[k] == children[k]);
            } else {
                assert(less[k] == items[k + 1]);
                assert(fewer[k] == children[k + 1]);
            }
        }
    }

    /// A pass is disturbed after one more step exactly when it was before,
    /// or the new step is out of place or reports a change.
    pub proof fn lemma_disturbed_push<T, A>(
        steps: Seq<Step<T, A, V>>,
        step: Step<T, A, V>,
    ) where V: View<T, A>
        ensures
            Self::disturbed(steps.push(step)) == (Self::disturbed(steps) || step.changed
                || step.position != Some(0int)),
    {
        let longer = steps.push(step);
        if Self::disturbed(steps) {
            let k = choose|k: int|
                0 <= k < steps.len() && ((#[trigger] steps[k]).changed || steps[k].position
                    != Some(0int));
            assert(longer[k] == steps[k]);
        }
        if step.changed || step.position != Some(0int) {
            assert(longer[steps.len() as int] == step);
        }
        if Self::disturbed(longer) {
            let k = choose|k: int|
                0 <= k < longer.len() && ((#[trigger] longer[k]).changed || longer[k].position
                    != Some(0int));
            if k < steps.len() {
                assert(longer[k] == steps[k]);
            }
        }
    }
}

} // verus!
