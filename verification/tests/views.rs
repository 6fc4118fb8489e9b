use std::sync::atomic::{AtomicU32, Ordering};
use std::sync::Arc;

use kurbo::Size;
use xilem::app::{holds_path, same_path, still_waiting, App, Cycle};
use xilem::cx::Cx;
use xilem::event::{EventResult, Message};
use xilem::id::Id;
use xilem::view::adapt::{Adapt, AdaptThunk, AdaptThunkResult, ThunkOp};
use xilem::view::button::{button, Button};
use xilem::view::for_each::{find_identity, find_key, ForEach, ForEachState, ItemState};
use xilem::view::layout_observer::LayoutObserver;
use xilem::view::local_state::LocalState;
use xilem::view::scroll_view::{scroll_view, ScrollView};
use xilem::view::text::{text, Text};
use xilem::view::use_state::{write_back, write_back_unless, UseState};
use xilem::view::use_state_mut::UseStateMut;
use xilem::view::View;
use xilem::widget::Widget;

fn root() -> Cx {
    Cx::new(futures::task::noop_waker())
}

type Item = (usize, &'static str);
type TextList = ForEach<Item, Text, fn(&u32, &Item) -> Text, fn(&Item) -> usize>;

fn key_of(item: &Item) -> usize {
    item.0
}

fn text_of(app: &u32, item: &Item) -> Text {
    text(format!("{}{}", item.1, app))
}

fn list(items: Vec<Item>) -> TextList {
    ForEach::new(items, key_of, text_of)
}

fn keys<V: View<u32, ()>>(state: &ForEachState<u32, (), V>) -> Vec<usize> {
    state.items.iter().map(|entry| entry.key).collect()
}

fn ids<V: View<u32, ()>>(state: &ForEachState<u32, (), V>) -> Vec<u64> {
    state.items.iter().map(|entry| entry.id.to_raw()).collect()
}

type Click = fn(&u32) -> (u32, ());
type Clicker = Button<u32, (), Click>;
type Cell = LocalState<u32, Clicker, fn() -> u32, fn(&u32, &u32) -> Clicker>;
type CellList = ForEach<Item, Cell, fn(&u32, &Item) -> Cell, fn(&Item) -> usize>;

fn add_one(n: &u32) -> (u32, ()) {
    (*n + 1, ())
}

fn zero() -> u32 {
    0
}

fn clicker(outer: &u32, inner: &u32) -> Clicker {
    button(format!("{outer}.{inner}"), add_one)
}

fn cell_of(_app: &u32, _item: &Item) -> Cell {
    LocalState::new(zero, clicker)
}

fn cells(items: Vec<Item>) -> CellList {
    ForEach::new(items, key_of, cell_of)
}

#[test]
fn for_each_builds_one_child_per_item_under_its_own_identity() {
    let mut cx = root();
    let mut app = 5u32;
    let view = list(vec![(10, "a"), (20, "b"), (30, "c")]);
    let (id, state, element) = view.build(&mut cx, &mut app);
    assert_eq!(id.to_raw(), 1);
    assert_eq!(keys(&state), vec![10, 20, 30]);
    assert_eq!(ids(&state), vec![2, 3, 4]);
    assert_eq!(element.children.len(), 3);
    assert_eq!(element.children[0].widget().text(), "a5");
    assert_eq!(element.children[2].widget().text(), "c5");
    assert!(element.children.iter().all(|pod| pod.needs_update()));
    assert!(cx.is_empty());
    assert_eq!(app, 5);
}

#[test]
fn for_each_reuses_entries_by_key_and_destroys_the_rest() {
    let mut cx = root();
    let mut app = 0u32;
    let old = cells(vec![(1, "a"), (2, "b"), (3, "c")]);
    let (mut id, mut state, mut element) = old.build(&mut cx, &mut app);
    let before = ids(&state);
    for (entry, clicks) in before.iter().zip([1, 2, 3]) {
        for _ in 0..clicks {
            let result = old.event(&[Id::from_raw(*entry)], &mut state, Message::Raw(0), &mut app);
            assert!(matches!(result, EventResult::Action(())));
        }
    }
    for pod in element.children_mut().iter_mut() {
        pod.take_update();
    }
    let new = cells(vec![(3, "c"), (1, "a"), (4, "d")]);
    let changed = new.rebuild(&mut cx, &old, &mut id, &mut state, &mut element, &mut app);
    assert!(changed);
    assert_eq!(id.to_raw(), 1);
    assert_eq!(keys(&state), vec![3, 1, 4]);
    let after = ids(&state);
    assert_eq!(after[0], before[2]);
    assert_eq!(after[1], before[0]);
    assert!(!before.contains(&after[2]));
    let locals: Vec<u32> = state.items.iter().map(|entry| entry.state.local_state).collect();
    assert_eq!(locals, vec![3, 1, 0]);
    assert_eq!(element.children.len(), 3);
    assert_eq!(element.children[0].widget().label(), "0.3");
    assert_eq!(element.children[1].widget().label(), "0.1");
    assert_eq!(element.children[2].widget().label(), "0.0");
    assert!(element.children.iter().all(|pod| pod.needs_update()));
    let gone = old.event(&[Id::from_raw(before[1])], &mut state, Message::Raw(0), &mut app);
    assert!(matches!(gone, EventResult::Stale));
    assert!(cx.is_empty());
    assert_eq!(app, 0);
}

#[test]
fn for_each_with_the_same_keys_reports_no_change() {
    let mut cx = root();
    let mut app = 0u32;
    let old = list(vec![(1, "a"), (2, "b")]);
    let (mut id, mut state, mut element) = old.build(&mut cx, &mut app);
    let before = ids(&state);
    for pod in element.children_mut().iter_mut() {
        pod.take_update();
    }
    let new = list(vec![(1, "a"), (2, "b")]);
    let changed = new.rebuild(&mut cx, &old, &mut id, &mut state, &mut element, &mut app);
    assert!(!changed);
    assert_eq!(ids(&state), before);
    assert!(element.children.iter().all(|pod| !pod.needs_update()));
    let again = new.rebuild(&mut cx, &new, &mut id, &mut state, &mut element, &mut app);
    assert!(!again);
    assert_eq!(element.children[0].widget().text(), "a0");
    assert_eq!(element.children[1].widget().text(), "b0");
}

#[test]
fn for_each_reports_a_change_of_a_child_and_marks_its_element() {
    let mut cx = root();
    let mut app = 0u32;
    let old = list(vec![(1, "a"), (2, "b")]);
    let (mut id, mut state, mut element): (_, ForEachState<u32, (), Text>, _) = old.build(&mut cx, &mut app);
    for pod in element.children_mut().iter_mut() {
        pod.take_update();
    }
    let new = list(vec![(1, "a"), (2, "z")]);
    let changed = new.rebuild(&mut cx, &old, &mut id, &mut state, &mut element, &mut app);
    assert!(changed);
    assert!(!element.children[0].needs_update());
    assert!(element.children[1].needs_update());
    assert_eq!(element.children[1].widget().text(), "z0");
}

#[test]
fn for_each_reports_reordering_removal_and_insertion() {
    let cases: Vec<(Vec<Item>, Vec<Item>)> = vec![
        (vec![(1, "a"), (2, "b")], vec![(2, "b"), (1, "a")]),
        (vec![(1, "a"), (2, "b")], vec![(1, "a")]),
        (vec![(1, "a")], vec![(1, "a"), (2, "b")]),
        (vec![(1, "a")], vec![]),
        (vec![], vec![(1, "a")]),
    ];
    for (first, second) in cases {
        let mut cx = root();
        let mut app = 0u32;
        let old = list(first);
        let (mut id, mut state, mut element) = old.build(&mut cx, &mut app);
        let new = list(second.clone());
        assert!(new.rebuild(&mut cx, &old, &mut id, &mut state, &mut element, &mut app));
        assert_eq!(keys(&state), second.iter().map(|item| item.0).collect::<Vec<_>>());
        assert_eq!(element.children.len(), second.len());
    }
    let mut cx = root();
    let mut app = 0u32;
    let old = list(vec![]);
    let (mut id, mut state, mut element): (_, ForEachState<u32, (), Text>, _) = old.build(&mut cx, &mut app);
    let new = list(vec![]);
    assert!(!new.rebuild(&mut cx, &old, &mut id, &mut state, &mut element, &mut app));
}

#[test]
fn for_each_gives_a_second_item_with_the_same_key_a_fresh_child() {
    let mut cx = root();
    let mut app = 0u32;
    let old = list(vec![(1, "a"), (2, "b")]);
    let (mut id, mut state, mut element) = old.build(&mut cx, &mut app);
    let before = ids(&state);
    let new = list(vec![(1, "a"), (1, "x"), (2, "b")]);
    assert!(new.rebuild(&mut cx, &old, &mut id, &mut state, &mut element, &mut app));
    let after = ids(&state);
    assert_eq!(after[0], before[0]);
    assert!(!before.contains(&after[1]));
    assert_eq!(after[2], before[1]);
    assert_eq!(element.children[1].widget().text(), "x0");
    let mut distinct = after.clone();
    distinct.sort();
    distinct.dedup();
    assert_eq!(distinct.len(), 3);
}

#[test]
fn for_each_routes_a_message_to_the_child_with_the_identity() {
    let mut cx = root();
    let mut app = 0u32;
    let view = cells(vec![(1, "a"), (2, "b")]);
    let (_, mut state, _) = view.build(&mut cx, &mut app);
    let second = state.items[1].id;
    assert!(matches!(
        view.event(&[second], &mut state, Message::Raw(3), &mut app),
        EventResult::Action(())
    ));
    assert_eq!(state.items[0].state.local_state, 0);
    assert_eq!(state.items[1].state.local_state, 1);
    assert!(matches!(
        view.event(&[second, Id::from_raw(1)], &mut state, Message::Raw(3), &mut app),
        EventResult::Stale
    ));
    assert!(matches!(
        view.event(&[Id::from_raw(999)], &mut state, Message::Raw(3), &mut app),
        EventResult::Stale
    ));
    assert!(matches!(
        view.event(&[], &mut state, Message::Raw(3), &mut app),
        EventResult::Stale
    ));
    assert_eq!(state.items[1].state.local_state, 1);
}

#[test]
fn for_each_answers_stale_for_a_removed_child() {
    let mut cx = root();
    let mut app = 0u32;
    let old = cells(vec![(1, "a"), (2, "b")]);
    let (mut id, mut state, mut element) = old.build(&mut cx, &mut app);
    let gone = state.items[1].id;
    let new = cells(vec![(1, "a")]);
    assert!(new.rebuild(&mut cx, &old, &mut id, &mut state, &mut element, &mut app));
    assert!(matches!(
        new.event(&[gone], &mut state, Message::Raw(3), &mut app),
        EventResult::Stale
    ));
}

#[test]
fn for_each_teardown_keeps_the_entries() {
    let mut cx = root();
    let mut app = 0u32;
    let view = list(vec![(1, "a"), (2, "b"), (3, "c")]);
    let (_, mut state, _) = view.build(&mut cx, &mut app);
    let before = ids(&state);
    view.teardown(&mut state);
    assert_eq!(keys(&state), vec![1, 2, 3]);
    assert_eq!(ids(&state), before);
}

#[test]
fn find_key_and_find_identity_give_the_first_match() {
    let entry = |key: usize, raw: u64| ItemState::<u32, (), Text> {
        key,
        id: Id::from_raw(raw),
        view: text("x".to_string()),
        state: (),
    };
    let items = vec![entry(5, 50), entry(6, 60), entry(5, 70), entry(7, 60)];
    assert_eq!(find_key(&items, 5), Some(0));
    assert_eq!(find_key(&items, 6), Some(1));
    assert_eq!(find_key(&items, 7), Some(3));
    assert_eq!(find_key(&items, 8), None);
    assert_eq!(find_identity(&items, Id::from_raw(60)), Some(1));
    assert_eq!(find_identity(&items, Id::from_raw(70)), Some(2));
    assert_eq!(find_identity(&items, Id::from_raw(1)), None);
    assert_eq!(find_key(&Vec::<ItemState<u32, (), Text>>::new(), 5), None);
}

#[test]
fn local_state_is_made_once_and_belongs_to_the_child() {
    let mut cx = root();
    let mut app = 100u32;
    let made = Arc::new(AtomicU32::new(0));
    let count = made.clone();
    let view = LocalState::new(
        move || {
            count.fetch_add(1, Ordering::SeqCst);
            7u32
        },
        clicker,
    );
    let (mut id, mut state, mut element) = View::<u32, ()>::build(&view, &mut cx, &mut app);
    assert_eq!(element.label(), "100.7");
    assert_eq!(state.local_state, 7);
    let result = View::<u32, ()>::event(&view, &[], &mut state, Message::Raw(0), &mut app);
    assert!(matches!(result, EventResult::Action(())));
    assert_eq!(state.local_state, 8);
    assert_eq!(app, 100);
    let changed =
        View::<u32, ()>::rebuild(&view, &mut cx, &view, &mut id, &mut state, &mut element, &mut app);
    assert!(changed);
    assert_eq!(element.label(), "100.8");
    let changed =
        View::<u32, ()>::rebuild(&view, &mut cx, &view, &mut id, &mut state, &mut element, &mut app);
    assert!(!changed);
    assert_eq!(made.load(Ordering::SeqCst), 1);
    assert_eq!(app, 100);
    View::<u32, ()>::teardown(&view, &mut state);
}

#[test]
fn local_state_shows_the_child_made_from_both_states() {
    let mut cx = root();
    let mut app = 3u32;
    let view = LocalState::new(|| 4u32, |outer: &u32, inner: &u32| text(format!("{outer}+{inner}")));
    let (mut id, mut state, mut element) = View::<u32, ()>::build(&view, &mut cx, &mut app);
    assert_eq!(element.text(), "3+4");
    app = 9;
    let changed =
        View::<u32, ()>::rebuild(&view, &mut cx, &view, &mut id, &mut state, &mut element, &mut app);
    assert!(changed);
    assert_eq!(element.text(), "9+4");
    assert_eq!(id.to_raw(), 1);
}

#[test]
fn adapt_lets_the_child_work_on_a_part_and_puts_it_back() {
    let mut cx = root();
    let mut app = (50u32, 6u32);
    let make = |whole: &(u32, u32)| {
        Adapt::new(
            |whole: &(u32, u32)| whole.1,
            |whole: &(u32, u32), part: u32| (whole.0, part),
            |action: ()| action,
            button(format!("{}", whole.1), add_one as Click),
        )
    };
    let old = make(&app);
    let (mut id, mut state, mut element) = old.build(&mut cx, &mut app);
    assert_eq!(element.label(), "6");
    assert!(matches!(
        old.event(&[], &mut state, Message::Raw(1), &mut app),
        EventResult::Action(())
    ));
    assert_eq!(app, (50, 7));
    let new = make(&app);
    assert!(new.rebuild(&mut cx, &old, &mut id, &mut state, &mut element, &mut app));
    assert_eq!(element.label(), "7");
    assert!(!new.rebuild(&mut cx, &new, &mut id, &mut state, &mut element, &mut app));
    assert_eq!(app, (50, 7));
    new.teardown(&mut state);
}

#[test]
fn adapt_lets_put_decide_what_flows_back() {
    let mut cx = root();
    let mut app = (50u32, 6u32);
    let view = Adapt::new(
        |whole: &(u32, u32)| whole.1,
        |whole: &(u32, u32), part: u32| if part % 2 == 0 { (whole.0 + 1, part) } else { *whole },
        |action: ()| action,
        button("b".to_string(), add_one as Click),
    );
    let (_, mut state, _) = view.build(&mut cx, &mut app);
    assert_eq!(app, (51, 6));
    let _ = view.event(&[], &mut state, Message::Raw(1), &mut app);
    assert_eq!(app, (51, 6));
}

#[test]
fn thunk_result_has_the_variant_of_the_call() {
    let mut cx = root();
    let mut part = 1u32;
    let child: Clicker = button("one".to_string(), add_one);
    let built = AdaptThunk { child: &child, op: ThunkOp::Build { cx: &mut cx } }.call(&mut part);
    let (mut id, mut state, mut element) = match built {
        AdaptThunkResult::Build(out) => out,
        _ => panic!("a build call gave no build result"),
    };
    assert_eq!(id.to_raw(), 1);
    assert_eq!(element.label(), "one");
    let answer = AdaptThunk {
        child: &child,
        op: ThunkOp::Event { id_path: &[], state: &mut state, message: Message::Raw(0) },
    }
    .call(&mut part);
    assert!(matches!(answer, AdaptThunkResult::Event(EventResult::Action(()))));
    assert_eq!(part, 2);
    let next: Clicker = button("two".to_string(), add_one);
    let rebuilt = AdaptThunk {
        child: &next,
        op: ThunkOp::Rebuild {
            cx: &mut cx,
            prev: &child,
            id: &mut id,
            state: &mut state,
            element: &mut element,
        },
    }
    .call(&mut part);
    assert!(matches!(rebuilt, AdaptThunkResult::Rebuild(true)));
    assert_eq!(element.label(), "two");
}

#[test]
fn scroll_view_marks_its_child_when_the_child_changed() {
    let mut cx = root();
    let mut app = 0u32;
    let old: ScrollView<u32, (), Text> = scroll_view(text("a".to_string()));
    let (mut id, mut state, mut element) = old.build(&mut cx, &mut app);
    assert_eq!(element.child.widget().text(), "a");
    assert!(element.child_mut().take_update());
    let same: ScrollView<u32, (), Text> = ScrollView::new(text("a".to_string()));
    assert!(!same.rebuild(&mut cx, &old, &mut id, &mut state, &mut element, &mut app));
    assert!(!element.child.needs_update());
    let new: ScrollView<u32, (), Text> = scroll_view(text("b".to_string()));
    assert!(new.rebuild(&mut cx, &same, &mut id, &mut state, &mut element, &mut app));
    assert!(element.child.needs_update());
    assert_eq!(element.child.widget().text(), "b");
    assert!(matches!(
        new.event(&[], &mut state, Message::Raw(0), &mut app),
        EventResult::Stale
    ));
    assert_eq!(element.id(), None);
    new.teardown(&mut state);
}

fn observer() -> LayoutObserver<u32, (), impl Fn(Size) -> Clicker, Clicker> {
    LayoutObserver::new(|size: Size| button(format!("{}x{}", size.width, size.height), add_one as Click))
}

#[test]
fn layout_observer_shows_nothing_before_the_first_measurement() {
    let mut cx = root();
    let mut app = 0u32;
    cx.push(Id::from_raw(70));
    let view = observer();
    let (mut id, mut state, mut element) = view.build(&mut cx, &mut app);
    assert_eq!(id.to_raw(), 1);
    assert!(element.child.is_none());
    assert!(state.size.is_none());
    assert!(state.child.is_none());
    assert_eq!(element.id_path(), &vec![Id::from_raw(70), Id::from_raw(1)]);
    assert_eq!(element.id(), Some(Id::from_raw(1)));
    assert!(!view.rebuild(&mut cx, &view, &mut id, &mut state, &mut element, &mut app));
    assert!(element.child.is_none());
    assert!(matches!(
        view.event(&[Id::from_raw(2)], &mut state, Message::Raw(0), &mut app),
        EventResult::Stale
    ));
}

#[test]
fn layout_observer_builds_its_child_from_the_measured_size() {
    let mut cx = root();
    let mut app = 0u32;
    let view = observer();
    let (mut id, mut state, mut element) = view.build(&mut cx, &mut app);
    let result = view.event(&[], &mut state, Message::Measured(Size::new(3.0, 4.0)), &mut app);
    assert!(matches!(result, EventResult::RequestRebuild));
    assert_eq!(state.size, Some(Size::new(3.0, 4.0)));
    assert!(view.rebuild(&mut cx, &view, &mut id, &mut state, &mut element, &mut app));
    assert_eq!(id.to_raw(), 1);
    let child = state.child.as_ref().map(|child| child.id);
    assert_eq!(child, Some(Id::from_raw(2)));
    assert_eq!(element.child.as_ref().map(|pod| pod.widget().label().clone()), Some("3x4".to_string()));
    assert!(!view.rebuild(&mut cx, &view, &mut id, &mut state, &mut element, &mut app));
    let result = view.event(&[], &mut state, Message::Measured(Size::new(5.0, 4.0)), &mut app);
    assert!(matches!(result, EventResult::RequestRebuild));
    if let Some(pod) = element.child_mut() {
        pod.take_update();
    }
    assert!(view.rebuild(&mut cx, &view, &mut id, &mut state, &mut element, &mut app));
    assert_eq!(state.child.as_ref().map(|child| child.id), Some(Id::from_raw(2)));
    assert_eq!(element.child.as_ref().map(|pod| pod.widget().label().clone()), Some("5x4".to_string()));
    assert_eq!(element.child.as_ref().map(|pod| pod.needs_update()), Some(true));
    assert!(cx.is_empty());
}

#[test]
fn layout_observer_reads_measurements_only_and_routes_to_its_child() {
    let mut cx = root();
    let mut app = 0u32;
    let view = observer();
    let (mut id, mut state, mut element) = view.build(&mut cx, &mut app);
    assert!(matches!(
        view.event(&[], &mut state, Message::Raw(9), &mut app),
        EventResult::Stale
    ));
    assert!(matches!(
        view.event(&[], &mut state, Message::AsyncWake, &mut app),
        EventResult::Stale
    ));
    assert!(state.size.is_none());
    let _ = view.event(&[], &mut state, Message::Measured(Size::new(1.0, 2.0)), &mut app);
    let result = view.event(&[], &mut state, Message::Raw(9), &mut app);
    assert!(matches!(result, EventResult::Stale));
    assert_eq!(state.size, Some(Size::new(1.0, 2.0)));
    assert!(state.child.is_none());
    assert!(view.rebuild(&mut cx, &view, &mut id, &mut state, &mut element, &mut app));
    assert!(matches!(
        view.event(&[Id::from_raw(2)], &mut state, Message::Raw(0), &mut app),
        EventResult::Action(())
    ));
    assert_eq!(app, 1);
    assert!(matches!(
        view.event(&[Id::from_raw(3)], &mut state, Message::Raw(0), &mut app),
        EventResult::Stale
    ));
    assert_eq!(app, 1);
    view.teardown(&mut state);
}

type Scope = (Arc<AtomicU32>, u32);
type Sharer = Button<Scope, (), fn(&Scope) -> (Scope, ())>;

fn through_the_handle(scope: &Scope) -> (Scope, ()) {
    scope.0.fetch_add(1, Ordering::SeqCst);
    ((scope.0.clone(), scope.1 + 1), ())
}

fn another_handle(scope: &Scope) -> (Scope, ()) {
    ((Arc::new(AtomicU32::new(100)), scope.1 + 1), ())
}

fn sharer(local: &u32) -> Sharer {
    if *local < 11 {
        button(format!("{local}"), through_the_handle)
    } else {
        button(format!("{local}"), another_handle)
    }
}

#[test]
fn use_state_writes_back_only_a_reassigned_handle() {
    let mut cx = root();
    let mut app = Arc::new(AtomicU32::new(0));
    let original = app.clone();
    let view: UseState<AtomicU32, (), u32, Sharer, _, _> = UseState::new(|| 10u32, sharer);
    let (mut id, mut state, mut element) = view.build(&mut cx, &mut app);
    assert!(Arc::ptr_eq(&app, &original));
    assert_eq!(element.label(), "10");
    assert_eq!(state.state, Some(10));

    let _ = view.event(&[], &mut state, Message::Raw(0), &mut app);
    assert!(Arc::ptr_eq(&app, &original));
    assert_eq!(app.load(Ordering::SeqCst), 1);
    assert_eq!(state.state, Some(11));
    assert!(view.rebuild(&mut cx, &view, &mut id, &mut state, &mut element, &mut app));
    assert_eq!(element.label(), "11");
    assert!(Arc::ptr_eq(&app, &original));
    assert!(!view.rebuild(&mut cx, &view, &mut id, &mut state, &mut element, &mut app));

    let _ = view.event(&[], &mut state, Message::Raw(1), &mut app);
    assert!(!Arc::ptr_eq(&app, &original));
    assert_eq!(app.load(Ordering::SeqCst), 100);
    assert_eq!(original.load(Ordering::SeqCst), 1);
    assert_eq!(state.state, Some(12));
    view.teardown(&mut state);
}

#[test]
fn write_back_replaces_the_handle_unless_it_is_the_same() {
    let mut app = Arc::new(1u32);
    let original = app.clone();
    write_back(&mut app, original.clone());
    assert!(Arc::ptr_eq(&app, &original));
    let other = Arc::new(1u32);
    write_back(&mut app, other.clone());
    assert!(Arc::ptr_eq(&app, &other));
    assert!(!Arc::ptr_eq(&app, &original));

    let mut app = Arc::new(5u32);
    let kept = app.clone();
    write_back_unless(&mut app, Arc::new(6u32), true);
    assert!(Arc::ptr_eq(&app, &kept));
    assert_eq!(*app, 5);
    write_back_unless(&mut app, Arc::new(6u32), false);
    assert!(!Arc::ptr_eq(&app, &kept));
    assert_eq!(*app, 6);
}

type Pair = (u32, u32);

fn add_to_both(pair: &Pair) -> (Pair, ()) {
    ((pair.0 + 1, pair.1 + 10), ())
}

fn pair_button(outer: &u32, inner: &u32) -> Button<Pair, (), fn(&Pair) -> (Pair, ())> {
    button(format!("{outer}/{inner}"), add_to_both)
}

#[test]
fn use_state_mut_lets_the_child_change_both_states() {
    let mut cx = root();
    let mut app = 1u32;
    let view = UseStateMut::new(|| 2u32, pair_button);
    let (mut id, mut state, mut element) = view.build(&mut cx, &mut app);
    assert_eq!(element.label(), "1/2");
    assert_eq!(app, 1);
    assert_eq!(state.local_state, Some(2));
    let result = view.event(&[], &mut state, Message::Raw(0), &mut app);
    assert!(matches!(result, EventResult::Action(())));
    assert_eq!(app, 2);
    assert_eq!(state.local_state, Some(12));
    assert!(view.rebuild(&mut cx, &view, &mut id, &mut state, &mut element, &mut app));
    assert_eq!(element.label(), "2/12");
    assert!(!view.rebuild(&mut cx, &view, &mut id, &mut state, &mut element, &mut app));
    assert_eq!(app, 2);
    view.teardown(&mut state);
}

#[test]
fn driver_reconciles_after_a_delivery_that_asks_for_it() {
    let mut app = App::new(4u32, |_data: &u32| observer(), futures::task::noop_waker());
    assert_eq!(app.id.to_raw(), 1);
    assert!(app.element.widget().child.is_none());
    assert!(app.element.take_update());
    let cycle = app.dispatch(&[Id::from_raw(1)], Message::Measured(Size::new(2.0, 3.0)));
    assert!(matches!(cycle, Cycle::Rebuilt(true)));
    assert!(app.element.needs_update());
    let label = app.element.widget().child.as_ref().map(|pod| pod.widget().label().clone());
    assert_eq!(label, Some("2x3".to_string()));
    assert!(app.element.take_update());
    assert!(!app.rebuild());
    assert!(!app.element.needs_update());
    let cycle = app.dispatch(&[Id::from_raw(1)], Message::Measured(Size::new(2.0, 3.0)));
    assert!(matches!(cycle, Cycle::Rebuilt(false)));
    assert!(!app.element.needs_update());
}

#[test]
fn driver_hands_on_actions_and_ignores_stale_deliveries() {
    let mut app = App::new(
        4u32,
        |data: &u32| button(format!("{data}"), add_one as Click),
        futures::task::noop_waker(),
    );
    assert!(app.element.take_update());
    let cycle = app.dispatch(&[Id::from_raw(1)], Message::Raw(7));
    assert!(matches!(cycle, Cycle::Action(())));
    assert_eq!(app.data, 5);
    assert_eq!(app.element.widget().label(), "4");
    assert!(matches!(app.dispatch(&[Id::from_raw(2)], Message::Raw(0)), Cycle::Idle));
    assert!(matches!(app.dispatch(&[], Message::Raw(0)), Cycle::Idle));
    assert!(matches!(
        app.dispatch(&[Id::from_raw(1), Id::from_raw(9)], Message::Raw(0)),
        Cycle::Idle
    ));
    assert_eq!(app.data, 5);
    assert!(!app.element.needs_update());
    assert!(matches!(
        app.deliver(&[Id::from_raw(1)], Message::Raw(0)),
        EventResult::Action(())
    ));
    assert_eq!(app.data, 6);
    assert!(app.rebuild());
    assert_eq!(app.element.widget().label(), "6");
    assert!(app.element.needs_update());
    assert!(app.take_pending_async().is_empty());
    app.teardown();
}

fn path(raws: &[u64]) -> Vec<Id> {
    raws.iter().map(|raw| Id::from_raw(*raw)).collect()
}

#[test]
fn paths_are_compared_identity_by_identity() {
    assert!(same_path(&path(&[]), &path(&[])));
    assert!(same_path(&path(&[1, 2, 3]), &path(&[1, 2, 3])));
    assert!(!same_path(&path(&[1, 2, 3]), &path(&[1, 2])));
    assert!(!same_path(&path(&[1, 2]), &path(&[1, 2, 3])));
    assert!(!same_path(&path(&[1, 2, 3]), &path(&[1, 9, 3])));
    let list = vec![path(&[1]), path(&[1, 2]), path(&[])];
    assert!(holds_path(&list, &path(&[1, 2])));
    assert!(holds_path(&list, &path(&[])));
    assert!(!holds_path(&list, &path(&[2, 1])));
    assert!(!holds_path(&Vec::new(), &path(&[1])));
}

#[test]
fn nodes_stay_waiting_while_their_computation_runs() {
    let waiting = vec![path(&[1, 2]), path(&[1, 3]), path(&[1, 4])];
    let idle = vec![true, false, true];
    let fresh = vec![path(&[1, 4]), path(&[1, 3]), path(&[1, 5]), path(&[1, 5])];
    let next = still_waiting(waiting, &idle, fresh);
    assert_eq!(next, vec![path(&[1, 2]), path(&[1, 4]), path(&[1, 3]), path(&[1, 5])]);
    assert_eq!(still_waiting(Vec::new(), &Vec::new(), Vec::new()), Vec::<Vec<Id>>::new());
    assert_eq!(
        still_waiting(vec![path(&[7])], &vec![false], Vec::new()),
        Vec::<Vec<Id>>::new()
    );
    assert_eq!(
        still_waiting(vec![path(&[7]), path(&[7])], &vec![true, true], vec![path(&[7])]),
        vec![path(&[7]), path(&[7])]
    );
}

#[test]
fn adapt_maps_the_actions_of_its_child() {
    let mut cx = root();
    let mut app = (50u32, 6u32);
    let view = Adapt::new(
        |whole: &(u32, u32)| whole.1,
        |whole: &(u32, u32), part: u32| (whole.0, part),
        |_action: ()| "clicked",
        button("b".to_string(), add_one as Click),
    );
    let (_, mut state, _) = view.build(&mut cx, &mut app);
    let result: EventResult<&str> = view.event(&[], &mut state, Message::Raw(1), &mut app);
    assert!(matches!(result, EventResult::Action("clicked")));
    assert_eq!(app, (50, 7));
    let result: EventResult<&str> =
        view.event(&[Id::from_raw(9)], &mut state, Message::Raw(1), &mut app);
    assert!(matches!(result, EventResult::Stale));
    assert_eq!(app, (50, 7));
}
