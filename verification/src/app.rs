//! The driver of a view tree: it keeps the application state together with
//! the retained tree, delivers messages, and reconciles when a delivery asks
//! for it.

use vstd::prelude::*;
use vstd::view::View as _;
use std::task::Waker;
use crate::cx::Cx;
use crate::event::EventResult;
use crate::event::Message;
use crate::id::Id;
use crate::id::copy_path;
use crate::view::View;
use crate::widget::Pod;
use crate::widget::Widget;

verus! {

/// An application: its state, the function that describes the interface for
/// a state, and the tree retained from the last description.
pub struct App<T, A, V: View<T, A>, F> {
    pub data: T,
    pub app_logic: F,
    pub cx: Cx,
    pub view: V,
    pub id: Id,
    pub state: V::State,
    pub element: Pod<V::Element>,
}

/// What one cycle of the driver came to.
pub enum Cycle<A> {
    /// Nothing has to follow.
    Idle,
    /// The tree was reconciled. The flag says whether an element was
    /// touched, so that the update pass has to run.
    Rebuilt(bool),
    /// A view raised an action, which the application has to handle.
    Action(A),
}

impl<T, A, V: View<T, A>, F: Fn(&T) -> V> App<T, A, V, F> {
    /// The application logic accepts every state and describes it with a
    /// well-formed view.
    pub open spec fn logic_wf(app_logic: F) -> bool {
        &&& forall|data: T| call_requires(app_logic, (&data,))
        &&& forall|data: T, view: V| call_ensures(app_logic, (&data,), view) ==> view.wf()
    }

    /// The retained tree is one that the passes of the root view leave.
    pub open spec fn wf(&self) -> bool {
        &&& Self::logic_wf(self.app_logic)
        &&& self.view.wf()
        &&& self.view.coherent(self.state)
        &&& self.view.consistent(self.state, self.element.widget)
    }

    /// Delivering `message` along `id_path` can lead from `self` to `after`
    /// and answer `result`. The path starts at the root.
    pub open spec fn delivered(
        &self,
        id_path: Seq<Id>,
        message: Message,
        after: Self,
        result: EventResult<A>,
    ) -> bool {
        if id_path.len() > 0 && id_path[0] == self.id {
            &&& after.app_logic == self.app_logic
            &&& after.cx == self.cx
            &&& after.view == self.view
            &&& after.id == self.id
            &&& after.element == self.element
            &&& self.view.dispatched(
                id_path.subrange(1, id_path.len() as int),
                message,
                self.data,
                self.state,
                after.data,
                after.state,
                result,
            )
        } else {
            after == *self && result is Stale
        }
    }

    /// Describing the state anew and reconciling the tree with the
    /// description can lead from `self` to `after` and report `changed`.
    pub open spec fn reconciled(&self, after: Self, changed: bool) -> bool {
        &&& after.app_logic == self.app_logic
        &&& call_ensures(self.app_logic, (&self.data,), after.view)
        &&& after.cx.path() == self.cx.path()
        &&& after.view.rebuilt(
            self.view,
            self.cx,
            self.data,
            self.id,
            self.state,
            self.element.widget,
            after.cx,
            after.data,
            after.id,
            after.state,
            after.element.widget,
            changed,
        )
        &&& after.element.needs_update == (self.element.needs_update || changed)
    }

    /// What a cycle that starts with the delivery of `message` along
    /// `id_path` can come to: a delivery that asks for it is followed by a
    /// reconciliation, an action is handed on, and anything else ends the
    /// cycle.
    pub open spec fn cycled(
        &self,
        id_path: Seq<Id>,
        message: Message,
        after: Self,
        cycle: Cycle<A>,
    ) -> bool {
        exists|mid: Self, result: EventResult<A>|
            {
                &&& #[trigger] self.delivered(id_path, message, mid, result)
                &&& match result {
                    EventResult::RequestRebuild => {
                        &&& cycle matches Cycle::Rebuilt(changed)
                        &&& mid.reconciled(after, changed)
                    },
                    EventResult::Action(action) => after == mid && cycle == Cycle::Action(action),
                    _ => after == mid && cycle is Idle,
                }
            }
    }

    /// Describes `data` and constructs the tree of the description.
    pub fn new(data: T, app_logic: F, waker: Waker) -> (app: Self)
        requires
            Self::logic_wf(app_logic),
        ensures
            app.wf(),
            app.app_logic == app_logic,
            app.cx.path() == Seq::<Id>::empty(),
            app.element.needs_update,
            call_ensures(app_logic, (&data,), app.view),
            exists|start: Cx|
                {
                    &&& start.path() == Seq::<Id>::empty()
                    &&& start.next() == 1
                    &&& start.pending() == Seq::<Seq<Id>>::empty()
                    &&& #[trigger] app.view.built(
                        start,
                        data,
                        app.cx,
                        app.data,
                        app.id,
                        app.state,
                        app.element.widget,
                    )
                },
    {
        let ghost first = data;
        let mut data = data;
        let mut cx = Cx::new(waker);
        let ghost start = cx;
        let view = app_logic(&data);
        let (id, state, element) = view.build(&mut cx, &mut data);
        let app = App { data, app_logic, cx, view, id, state, element: Pod::new(element) };
        proof {
            assert(app.view.built(
                start,
                first,
                app.cx,
                app.data,
                app.id,
                app.state,
                app.element.widget,
            ));
        }
        app
    }

    /// Describes the state anew and reconciles the tree with the
    /// description. Says whether an element was touched; if so, the root
    /// element is marked for the update pass. Where the description has not
    /// changed, nothing is touched.
    pub fn rebuild(&mut self) -> (changed: bool)
        requires
            old(self).wf(),
        ensures
            final(self).wf(),
            old(self).reconciled(*final(self), changed),
            final(self).view.unchanged(
                old(self).view,
                old(self).data,
                old(self).state,
                old(self).element.widget,
            ) ==> {
                &&& !changed
                &&& final(self).id == old(self).id
                &&& final(self).data == old(self).data
                &&& final(self).element.needs_update == old(self).element.needs_update
                &&& old(self).element.widget.same(final(self).element.widget)
            },
    {
        let view = (self.app_logic)(&self.data);
        let changed = view.rebuild(
            &mut self.cx,
            &self.view,
            &mut self.id,
            &mut self.state,
            &mut self.element.widget,
            &mut self.data,
        );
        self.view = view;
        if changed {
            self.element.request_update();
        }
        changed
    }

    /// Delivers a message that is addressed by a path from the root. A path
    /// that does not start at the root of this tree reaches nothing.
    pub fn deliver(&mut self, id_path: &[Id], message: Message) -> (result: EventResult<A>)
        requires
            old(self).wf(),
        ensures
            final(self).wf(),
            old(self).delivered(id_path@, message, *final(self), result),
    {
        if id_path.len() > 0 && id_path[0] == self.id {
            let tl = vstd::slice::slice_subrange(id_path, 1, id_path.len());
            self.view.event(tl, &mut self.state, message, &mut self.data)
        } else {
            EventResult::Stale
        }
    }

    /// Runs one cycle: delivers the message and reconciles the tree if the
    /// delivery asks for it.
    pub fn dispatch(&mut self, id_path: &[Id], message: Message) -> (cycle: Cycle<A>)
        requires
            old(self).wf(),
        ensures
            final(self).wf(),
            old(self).cycled(id_path@, message, *final(self), cycle),
    {
        let result = self.deliver(id_path, message);
        let ghost mid = *self;
        let ghost answer = result;
        let cycle = match result {
            EventResult::RequestRebuild => Cycle::Rebuilt(self.rebuild()),
            EventResult::Action(action) => Cycle::Action(action),
            _ => Cycle::Idle,
        };
        proof {
            assert(old(self).delivered(id_path@, message, mid, answer));
        }
        cycle
    }

    /// Cancels every computation that is outstanding in the tree. To be
    /// called before the application is let go of.
    pub fn teardown(&mut self)
        requires
            old(self).wf(),
        ensures
            final(self).wf(),
            final(self).view.idle(final(self).state),
            old(self).view.torn_down(old(self).state, final(self).state),
            final(self).view == old(self).view,
            final(self).data == old(self).data,
            final(self).id == old(self).id,
            final(self).element == old(self).element,
    {
        self.view.teardown(&mut self.state);
    }

    /// The paths of the nodes that have registered as waiting for a
    /// computation since the registrations were last taken. The driver
    /// delivers a completion signal to each of them when it is woken.
    pub fn take_pending_async(&mut self) -> (paths: Vec<Vec<Id>>)
        ensures
            paths@.len() == old(self).cx.pending().len(),
            forall|k: int|
                0 <= k < paths@.len() ==> (#[trigger] paths@[k])@ == old(self).cx.pending()[k],
            final(self).cx.pending() == Seq::<Seq<Id>>::empty(),
            final(self).cx.path() == old(self).cx.path(),
            final(self).cx.next() == old(self).cx.next(),
            final(self).data == old(self).data,
            final(self).view == old(self).view,
            final(self).id == old(self).id,
            final(self).state == old(self).state,
            final(self).element == old(self).element,
            final(self).app_logic == old(self).app_logic,
    {
        self.cx.take_pending_async()
    }
}

/// The paths that `list` holds.
pub open spec fn paths_of(list: Seq<Vec<Id>>) -> Seq<Seq<Id>> {
    Seq::new(list.len(), |k: int| list[k]@)
}

/// The paths of `waiting` whose flag in `idle` is set, in order.
pub open spec fn kept_waiting(waiting: Seq<Seq<Id>>, idle: Seq<bool>) -> Seq<Seq<Id>>
    decreases waiting.len(),
{
    if waiting.len() == 0 || idle.len() != waiting.len() {
        Seq::<Seq<Id>>::empty()
    } else {
        let before = kept_waiting(waiting.drop_last(), idle.drop_last());
        if idle.last() {
            before.push(waiting.last())
        } else {
            before
        }
    }
}

/// `base`, followed by the paths of `fresh` that are not in it, each once
/// and in order.
pub open spec fn joined(base: Seq<Seq<Id>>, fresh: Seq<Seq<Id>>) -> Seq<Seq<Id>>
    decreases fresh.len(),
{
    if fresh.len() == 0 {
        base
    } else {
        let before = joined(base, fresh.drop_last());
        if before.contains(fresh.last()) {
            before
        } else {
            before.push(fresh.last())
        }
    }
}

/// Whether two paths are the same.
pub fn same_path(a: &Vec<Id>, b: &Vec<Id>) -> (same: bool)
    ensures
        same == (a@ == b@),
{
    if a.len() != b.len() {
        return false;
    }
    let mut i: usize = 0;
    while i < a.len()
        invariant
            i <= a.len(),
            a.len() == b.len(),
            forall|k: int| 0 <= k < i ==> a@[k] == b@[k],
        decreases a.len() - i,
    {
        if a[i] != b[i] {
            return false;
        }
        i += 1;
    }
    assert(a@ =~= b@);
    true
}

/// Whether `list` holds `path`.
pub fn holds_path(list: &Vec<Vec<Id>>, path: &Vec<Id>) -> (found: bool)
    ensures
        found == paths_of(list@).contains(path@),
{
    let mut i: usize = 0;
    while i < list.len()
        invariant
            i <= list.len(),
            forall|k: int| 0 <= k < i ==> paths_of(list@)[k] != path@,
        decreases list.len() - i,
    {
        if same_path(&list[i], path) {
            assert(paths_of(list@)[i as int] == path@);
            return true;
        }
        i += 1;
    }
    false
}

/// The nodes that wait for a computation after a wake signal was delivered
/// to each node of `waiting`. `idle` says of each whether its cycle came to
/// nothing, so that its computation still runs: those stay, in order. The
/// nodes of `fresh`, which registered in the meantime, follow them, unless
/// they are waiting already.
pub fn still_waiting(waiting: Vec<Vec<Id>>, idle: &Vec<bool>, fresh: Vec<Vec<Id>>) -> (next: Vec<
    Vec<Id>,
>)
    requires
        idle@.len() == waiting@.len(),
    ensures
        paths_of(next@) == joined(kept_waiting(paths_of(waiting@), idle@), paths_of(fresh@)),
{
    let mut next: Vec<Vec<Id>> = Vec::new();
    let ghost asked = paths_of(waiting@);
    let ghost added = paths_of(fresh@);
    let mut i: usize = 0;
    assert(paths_of(next@) =~= kept_waiting(asked.subrange(0, 0), idle@.subrange(0, 0)));
    while i < waiting.len()
        invariant
            i <= waiting.len(),
            idle@.len() == waiting@.len(),
            asked == paths_of(waiting@),
            paths_of(next@) == kept_waiting(asked.subrange(0, i as int), idle@.subrange(0, i as int)),
        decreases waiting.len() - i,
    {
        let ghost before = paths_of(next@);
        if idle[i] {
            next.push(copy_path(&waiting[i]));
            assert(paths_of(next@) =~= before.push(asked[i as int]));
        }
        proof {
            let upto = asked.subrange(0, i + 1);
            let flags = idle@.subrange(0, i + 1);
            assert(upto.drop_last() =~= asked.subrange(0, i as int));
            assert(flags.drop_last() =~= idle@.subrange(0, i as int));
            assert(upto.last() == asked[i as int]);
            assert(flags.last() == idle@[i as int]);
        }
        i += 1;
    }
    assert(asked.subrange(0, asked.len() as int) =~= asked);
    assert(idle@.subrange(0, idle@.len() as int) =~= idle@);
    let ghost kept = kept_waiting(asked, idle@);
    let mut j: usize = 0;
    assert(added.subrange(0, 0) =~= Seq::<Seq<Id>>::empty());
    while j < fresh.len()
        invariant
            j <= fresh.len(),
            added == paths_of(fresh@),
            paths_of(next@) == joined(kept, added.subrange(0, j as int)),
        decreases fresh.len() - j,
    {
        let ghost before = paths_of(next@);
        let found = holds_path(&next, &fresh[j]);
        if !found {
            next.push(copy_path(&fresh[j]));
            assert(paths_of(next@) =~= before.push(added[j as int]));
        }
        proof {
            let upto = added.subrange(0, j + 1);
            assert(upto.drop_last() =~= added.subrange(0, j as int));
            assert(upto.last() == added[j as int]);
        }
        j += 1;
    }
    assert(added.subrange(0, added.len() as int) =~= added);
    next
}

} // verus!
