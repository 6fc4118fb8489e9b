//! A view that waits for the size of its element before it makes its child.

use vstd::prelude::*;
use vstd::view::View as _;
use std::marker::PhantomData;
use kurbo::Size;
use crate::cx::Cx;
use crate::cx::next_after;
use crate::event::EventResult;
use crate::event::Message;
use crate::id::Id;
use crate::view::View;
use crate::widget::Widget;

verus! {

/// A view whose child depends on the size that the element layer measures.
/// Until the first measurement arrives it shows nothing. From then on every
/// reconciliation makes the child view from the last measured size with
/// `callback`. A measurement is the only message the node itself reads;
/// any other message at its own path is stale.
pub struct LayoutObserver<T, A, F, V> {
    pub callback: F,
    pub phantom: PhantomData<(T, A, V)>,
}

/// The child of a layout observer: its identity, its view and what it
/// retains.
pub struct ObservedChild<T, A, V: View<T, A>> {
    pub id: Id,
    pub view: V,
    pub state: V::State,
}

/// What `LayoutObserver` retains: the last measured size, and the child once
/// there is one.
pub struct LayoutObserverState<T, A, V: View<T, A>> {
    pub size: Option<Size>,
    pub child: Option<ObservedChild<T, A, V>>,
}

impl<T, A, F, V> LayoutObserver<T, A, F, V> {
    /// A view whose child `callback` makes from the measured size.
    pub fn new(callback: F) -> (view: Self)
        ensures
            view.callback == callback,
    {
        LayoutObserver { callback, phantom: PhantomData }
    }
}

impl<T, A, F, V> LayoutObserver<T, A, F, V> where F: Fn(Size) -> V, V: View<T, A> {
    /// What reconciliation does once a size is known, inside the scope of
    /// the node: a child that exists is reconciled with the view made from
    /// the size; where none exists yet, that view is constructed.
    pub open spec fn observed(
        &self,
        size: Size,
        inner: Cx,
        app0: T,
        state0: LayoutObserverState<T, A, V>,
        element0: crate::widget::layout_observer::LayoutObserver<V::Element>,
        end: Cx,
        app1: T,
        state1: LayoutObserverState<T, A, V>,
        element1: crate::widget::layout_observer::LayoutObserver<V::Element>,
        changed: bool,
    ) -> bool {
        &&& state1.size == state0.size
        &&& element1.id_path == element0.id_path
        &&& state1.child matches Some(c1)
        &&& element1.child matches Some(pod1)
        &&& call_ensures(self.callback, (size,), c1.view)
        &&& match state0.child {
            Some(c0) => {
                &&& element0.child matches Some(pod0)
                &&& c1.view.rebuilt(
                    c0.view,
                    inner,
                    app0,
                    c0.id,
                    c0.state,
                    pod0.widget,
                    end,
                    app1,
                    c1.id,
                    c1.state,
                    pod1.widget,
                    changed,
                )
                &&& c1.id == c0.id || end.allocated_since(inner, c1.id)
                &&& pod1.needs_update == (pod0.needs_update || changed)
            },
            None => {
                &&& changed
                &&& pod1.needs_update
                &&& end.allocated_since(inner, c1.id)
                &&& c1.view.built(inner, app0, end, app1, c1.id, c1.state, pod1.widget)
            },
        }
    }

    /// Nothing was delivered.
    pub open spec fn missed(
        app0: T,
        state0: LayoutObserverState<T, A, V>,
        app1: T,
        state1: LayoutObserverState<T, A, V>,
        result: EventResult<A>,
    ) -> bool {
        result is Stale && app1 == app0 && state1 == state0
    }
}

impl<T, A, F, V> View<T, A> for LayoutObserver<T, A, F, V> where F: Fn(Size) -> V, V: View<T, A> {
    type State = LayoutObserverState<T, A, V>;

    type Element = crate::widget::layout_observer::LayoutObserver<V::Element>;

    open spec fn wf(&self) -> bool {
        &&& forall|size: Size| call_requires(self.callback, (size,))
        &&& forall|size: Size, view: V| call_ensures(self.callback, (size,), view) ==> view.wf()
    }

    open spec fn coherent(&self, state: Self::State) -> bool {
        state.child matches Some(child) ==> child.view.wf() && child.view.coherent(child.state)
    }

    open spec fn consistent(&self, state: Self::State, element: Self::Element) -> bool {
        match state.child {
            Some(child) => {
                &&& element.child matches Some(pod)
                &&& child.view.consistent(child.state, pod.widget)
            },
            None => element.child is None,
        }
    }

    open spec fn idle(&self, state: Self::State) -> bool {
        state.child matches Some(child) ==> child.view.idle(child.state)
    }

    open spec fn unchanged(
        &self,
        prev: Self,
        app: T,
        state: Self::State,
        element: Self::Element,
    ) -> bool {
        match state.size {
            Some(size) => {
                &&& state.child matches Some(child)
                &&& element.child matches Some(pod)
                &&& forall|view: V| #[trigger]
                    call_ensures(self.callback, (size,), view) ==> view.unchanged(
                        child.view,
                        app,
                        child.state,
                        pod.widget,
                    )
            },
            None => state.child is None && element.child is None,
        }
    }

    open spec fn built(
        &self,
        cx0: Cx,
        app0: T,
        cx1: Cx,
        app1: T,
        id: Id,
        state: Self::State,
        element: Self::Element,
    ) -> bool {
        &&& id.raw() == cx0.next()
        &&& cx1.next() == next_after(cx0.next())
        &&& cx1.pending() == cx0.pending()
        &&& app1 == app0
        &&& state.size is None
        &&& state.child is None
        &&& element.child is None
        &&& element.id_path@ == cx0.path().push(id)
    }

    open spec fn rebuilt(
        &self,
        prev: Self,
        cx0: Cx,
        app0: T,
        id0: Id,
        state0: Self::State,
        element0: Self::Element,
        cx1: Cx,
        app1: T,
        id1: Id,
        state1: Self::State,
        element1: Self::Element,
        changed: bool,
    ) -> bool {
        &&& id1 == id0
        &&& match state0.size {
            Some(size) => exists|inner: Cx, end: Cx|
                {
                    &&& inner.inside(cx0, id0, cx0.next())
                    &&& #[trigger] self.observed(
                        size,
                        inner,
                        app0,
                        state0,
                        element0,
                        end,
                        app1,
                        state1,
                        element1,
                        changed,
                    )
                    &&& cx1.agrees(end)
                },
            None => {
                &&& !changed
                &&& state1 == state0
                &&& element1 == element0
                &&& app1 == app0
                &&& cx1.agrees(cx0)
            },
        }
    }

    open spec fn dispatched(
        &self,
        id_path: Seq<Id>,
        message: Message,
        app0: T,
        state0: Self::State,
        app1: T,
        state1: Self::State,
        result: EventResult<A>,
    ) -> bool {
        if id_path.len() == 0 {
            match message {
                Message::Measured(size) => {
                    &&& result is RequestRebuild
                    &&& app1 == app0
                    &&& state1.child == state0.child
                    &&& state1.size == Some(size)
                },
                _ => Self::missed(app0, state0, app1, state1, result),
            }
        } else {
            match state0.child {
                Some(c0) => {
                    if id_path[0] == c0.id {
                        &&& state1.size == state0.size
                        &&& state1.child matches Some(c1)
                        &&& c1.id == c0.id
                        &&& c1.view == c0.view
                        &&& c0.view.dispatched(
                            id_path.subrange(1, id_path.len() as int),
                            message,
                            app0,
                            c0.state,
                            app1,
                            c1.state,
                            result,
                        )
                    } else {
                        Self::missed(app0, state0, app1, state1, result)
                    }
                },
                None => Self::missed(app0, state0, app1, state1, result),
            }
        }
    }

    open spec fn torn_down(&self, state0: Self::State, state1: Self::State) -> bool {
        &&& state1.size == state0.size
        &&& match state0.child {
            Some(c0) => {
                &&& state1.child matches Some(c1)
                &&& c1.id == c0.id
                &&& c1.view == c0.view
                &&& c0.view.torn_down(c0.state, c1.state)
            },
            None => state1.child is None,
        }
    }

    fn build(&self, cx: &mut Cx, app_state: &mut T) -> (out: (Id, Self::State, Self::Element)) {
        let id = cx.new_id();
        cx.push(id);
        let element = crate::widget::layout_observer::LayoutObserver::new(cx.id_path());
        cx.pop();
        assert(old(cx).path().push(id).drop_last() =~= old(cx).path());
        (id, LayoutObserverState { size: None, child: None }, element)
    }

    fn rebuild(
        &self,
        cx: &mut Cx,
        prev: &Self,
        id: &mut Id,
        state: &mut Self::State,
        element: &mut Self::Element,
        app_state: &mut T,
    ) -> (changed: bool)
        ensures
            self.unchanged(*prev, *old(app_state), *old(state), *old(element)) ==> {
                &&& final(state).size == old(state).size
                &&& final(state).child is Some == old(state).child is Some
                &&& final(state).child matches Some(child) ==> child.id == old(state).child->0.id
            },
    {
        let size = match state.size {
            Some(size) => size,
            None => {
                return false;
            },
        };
        let view = (self.callback)(size);
        cx.push(*id);
        let ghost inner = *cx;
        let changed = match state.child.take() {
            Some(mut child) => {
                let changed = match element.child_mut() {
                    Some(pod) => {
                        let changed = view.rebuild(
                            cx,
                            &child.view,
                            &mut child.id,
                            &mut child.state,
                            pod.downcast_mut(),
                            app_state,
                        );
                        if changed {
                            pod.request_update();
                        }
                        changed
                    },
                    None => false,
                };
                child.view = view;
                state.child = Some(child);
                changed
            },
            None => {
                let (child_id, child_state, child_element) = view.build(cx, app_state);
                element.set_child(child_element);
                state.child = Some(ObservedChild { id: child_id, view, state: child_state });
                true
            },
        };
        let ghost end = *cx;
        cx.pop();
        proof {
            assert(old(cx).path().push(*id).drop_last() =~= old(cx).path());
            assert(inner.inside(*old(cx), *id, old(cx).next()));
            assert(cx.agrees(end));
            assert(self.observed(
                size,
                inner,
                *old(app_state),
                *old(state),
                *old(element),
                end,
                *app_state,
                *state,
                *element,
                changed,
            ));
        }
        changed
    }

    fn event(
        &self,
        id_path: &[Id],
        state: &mut Self::State,
        message: Message,
        app_state: &mut T,
    ) -> (result: EventResult<A>) {
        if id_path.len() == 0 {
            match message {
                Message::Measured(size) => {
                    state.size = Some(size);
                    EventResult::RequestRebuild
                },
                _ => EventResult::Stale,
            }
        } else {
            match &mut state.child {
                Some(child) => {
                    if id_path[0] == child.id {
                        let tl = vstd::slice::slice_subrange(id_path, 1, id_path.len());
                        child.view.event(tl, &mut child.state, message, app_state)
                    } else {
                        EventResult::Stale
                    }
                },
                None => EventResult::Stale,
            }
        }
    }

    fn teardown(&self, state: &mut Self::State) {
        match &mut state.child {
            Some(child) => {
                child.view.teardown(&mut child.state);
            },
            None => {},
        }
    }
}

} // verus!
