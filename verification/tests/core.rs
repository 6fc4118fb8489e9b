use xilem::cx::Cx;
use xilem::event::{EventResult, Message};
use xilem::id::{copy_path, Id};
use xilem::view::id_printer::{print_path, push_decimal, IdPrinter};
use xilem::view::View;
use xilem::widget::text::TextWidget;
use xilem::widget::vstack::VStack;
use xilem::widget::{EitherWidget, Pod, Widget};

fn root() -> Cx {
    Cx::new(futures::task::noop_waker())
}

fn raws(path: &[Id]) -> Vec<u64> {
    path.iter().map(|id| id.to_raw()).collect()
}

#[test]
fn fresh_context_stands_at_the_root() {
    let cx = root();
    assert!(cx.is_empty());
    assert!(cx.id_path().is_empty());
}

#[test]
fn identities_are_handed_out_in_order_from_one() {
    let mut cx = root();
    assert_eq!(cx.new_id().to_raw(), 1);
    assert_eq!(cx.new_id().to_raw(), 2);
    assert_eq!(cx.new_id().to_raw(), 3);
}

#[test]
fn id_round_trips_through_its_number() {
    assert_eq!(Id::from_raw(42).to_raw(), 42);
    assert_eq!(Id::from_raw(7), Id::from_raw(7));
    assert_ne!(Id::from_raw(7), Id::from_raw(8));
}

#[test]
fn copy_path_copies_every_identity() {
    let path = vec![Id::from_raw(3), Id::from_raw(1), Id::from_raw(2)];
    assert_eq!(copy_path(&path), path);
    assert_eq!(copy_path(&Vec::new()), Vec::<Id>::new());
}

#[test]
fn push_and_pop_extend_and_shorten_the_path() {
    let mut cx = root();
    cx.push(Id::from_raw(5));
    cx.push(Id::from_raw(9));
    assert_eq!(raws(cx.id_path()), vec![5, 9]);
    assert!(!cx.is_empty());
    cx.pop();
    assert_eq!(raws(cx.id_path()), vec![5]);
    cx.pop();
    cx.pop();
    assert!(cx.is_empty());
}

#[test]
fn siblings_get_distinct_identities() {
    let mut cx = root();
    let (a, ()) = cx.with_new_id(|_| ());
    let (b, ()) = cx.with_new_id(|_| ());
    let (c, ()) = cx.with_new_id(|_| ());
    assert_ne!(a, b);
    assert_ne!(b, c);
    assert_ne!(a, c);
}

#[test]
fn nested_scopes_see_their_ancestor_chain() {
    let mut cx = root();
    let (outer, (inner, (inmost, seen))) = cx.with_new_id(|cx| {
        cx.with_new_id(|cx| cx.with_new_id(|cx| raws(cx.id_path())))
    });
    assert_eq!(seen, vec![outer.to_raw(), inner.to_raw(), inmost.to_raw()]);
    assert_eq!(seen, vec![1, 2, 3]);
    assert!(cx.is_empty());
}

#[test]
fn with_id_scopes_a_given_identity_and_restores_the_path() {
    let mut cx = root();
    cx.push(Id::from_raw(4));
    let seen = cx.with_id(Id::from_raw(8), |cx| raws(cx.id_path()));
    assert_eq!(seen, vec![4, 8]);
    assert_eq!(raws(cx.id_path()), vec![4]);
}

#[test]
fn scope_restores_the_path_whatever_the_callee_did() {
    let mut cx = root();
    cx.push(Id::from_raw(4));
    cx.with_id(Id::from_raw(8), |cx| {
        cx.pop();
        cx.pop();
        cx.push(Id::from_raw(77));
    });
    assert_eq!(raws(cx.id_path()), vec![4]);
    let (_, ()) = cx.with_new_id(|cx| {
        cx.push(Id::from_raw(1));
        cx.push(Id::from_raw(2));
    });
    assert_eq!(raws(cx.id_path()), vec![4]);
}

#[test]
fn an_allocation_inside_a_scope_is_not_repeated_outside() {
    let mut cx = root();
    let (outer, inner) = cx.with_new_id(|cx| cx.new_id());
    let next = cx.new_id();
    assert_eq!(outer.to_raw(), 1);
    assert_eq!(inner.to_raw(), 2);
    assert_eq!(next.to_raw(), 3);
}

#[test]
fn pending_nodes_are_registered_with_their_paths() {
    let mut cx = root();
    assert!(!cx.has_pending_async());
    cx.push(Id::from_raw(3));
    cx.push(Id::from_raw(6));
    assert!(!cx.is_pending_async(Id::from_raw(6)));
    cx.add_pending_async(Id::from_raw(6));
    cx.add_pending_async(Id::from_raw(9));
    assert!(cx.has_pending_async());
    assert!(cx.is_pending_async(Id::from_raw(6)));
    assert!(cx.is_pending_async(Id::from_raw(9)));
    assert!(!cx.is_pending_async(Id::from_raw(3)));
    assert_eq!(raws(cx.id_path()), vec![3, 6]);
    let listed: Vec<Vec<u64>> = cx.pending_async().iter().map(|path| raws(path)).collect();
    assert_eq!(listed, vec![vec![3, 6], vec![3, 6, 9]]);
    let taken: Vec<Vec<u64>> = cx.take_pending_async().iter().map(|path| raws(path)).collect();
    assert_eq!(taken, vec![vec![3, 6], vec![3, 6, 9]]);
    assert!(!cx.has_pending_async());
    assert!(!cx.is_pending_async(Id::from_raw(6)));
    assert!(cx.take_pending_async().is_empty());
}

#[test]
fn a_node_at_the_root_is_registered_under_its_own_identity() {
    let mut cx = root();
    cx.add_pending_async(Id::from_raw(4));
    assert_eq!(cx.take_pending_async(), vec![vec![Id::from_raw(4)]]);
}

#[test]
fn decimal_numerals_have_no_leading_zeros() {
    let mut text = String::new();
    push_decimal(&mut text, 0);
    assert_eq!(text, "0");
    push_decimal(&mut text, 10);
    assert_eq!(text, "010");
    let mut text = String::from("x");
    push_decimal(&mut text, 9075);
    assert_eq!(text, "x9075");
    let mut text = String::new();
    push_decimal(&mut text, u64::MAX);
    assert_eq!(text, "18446744073709551615");
}

#[test]
fn a_path_is_printed_with_colons() {
    assert_eq!(print_path(&Vec::new()), "");
    assert_eq!(print_path(&vec![Id::from_raw(12)]), "12");
    assert_eq!(
        print_path(&vec![Id::from_raw(1), Id::from_raw(20), Id::from_raw(300)]),
        "1:20:300"
    );
}

#[test]
fn id_printer_shows_its_own_path() {
    let mut cx = root();
    let mut app = 0u32;
    cx.push(Id::from_raw(40));
    let (id, (), element) = View::<u32, ()>::build(&IdPrinter, &mut cx, &mut app);
    assert_eq!(id.to_raw(), 1);
    assert_eq!(element.text(), "40:1");
    assert_eq!(raws(cx.id_path()), vec![40]);
    assert_eq!(app, 0);
}

#[test]
fn id_printer_never_changes_and_takes_no_message() {
    let mut cx = root();
    let mut app = 0u32;
    let (mut id, mut state, mut element) = View::<u32, ()>::build(&IdPrinter, &mut cx, &mut app);
    let changed = View::<u32, ()>::rebuild(
        &IdPrinter,
        &mut cx,
        &IdPrinter,
        &mut id,
        &mut state,
        &mut element,
        &mut app,
    );
    assert!(!changed);
    assert_eq!(element.text(), "1");
    let result: EventResult<()> = IdPrinter.event(&[], &mut state, Message::Raw(1), &mut app);
    assert!(matches!(result, EventResult::Stale));
    View::<u32, ()>::teardown(&IdPrinter, &mut state);
}

#[test]
fn text_widget_shows_and_replaces_its_text() {
    let mut widget = TextWidget::new("one".to_string());
    assert_eq!(widget.text(), "one");
    widget.set_text("two".to_string());
    assert_eq!(widget.text(), "two");
    assert_eq!(widget.id(), None);
    assert!(matches!(widget.message(&[], Message::AsyncWake), EventResult::Stale));
}

#[test]
fn pod_remembers_the_update_request() {
    let mut pod = Pod::new(TextWidget::new("a".to_string()));
    assert!(pod.needs_update());
    assert!(pod.take_update());
    assert!(!pod.needs_update());
    assert!(!pod.take_update());
    pod.request_update();
    assert!(pod.needs_update());
    pod.downcast_mut().set_text("b".to_string());
    assert_eq!(pod.widget().text(), "b");
    assert!(pod.needs_update());
}

fn stack_of(n: usize, cx: &mut Cx) -> VStack<VStack<TextWidget>> {
    let mut children = Vec::new();
    for _ in 0..n {
        children.push(Pod::new(VStack::with_id(cx, |_| Vec::new())));
    }
    VStack::new(children)
}

#[test]
fn stack_without_an_identity_holds_its_children() {
    let mut cx = root();
    let stack = stack_of(3, &mut cx);
    assert_eq!(stack.id(), None);
    let ids: Vec<Option<Id>> = stack.children.iter().map(|pod| pod.widget().id()).collect();
    assert_eq!(ids, vec![Some(Id::from_raw(1)), Some(Id::from_raw(2)), Some(Id::from_raw(3))]);
}

#[test]
fn stack_with_id_builds_its_children_inside_its_scope() {
    let mut cx = root();
    cx.push(Id::from_raw(30));
    let stack: VStack<TextWidget> = VStack::with_id(&mut cx, |cx| {
        vec![Pod::new(TextWidget::new(print_path(cx.id_path())))]
    });
    assert_eq!(stack.id(), Some(Id::from_raw(1)));
    assert_eq!(stack.children[0].widget().text(), "30:1");
    assert_eq!(raws(cx.id_path()), vec![30]);
}

#[test]
fn stack_routes_a_message_by_the_head_of_the_path() {
    let mut cx = root();
    let mut stack = stack_of(2, &mut cx);
    for pod in stack.children_mut().iter_mut() {
        pod.take_update();
    }
    let result = stack.message(&[Id::from_raw(2), Id::from_raw(9)], Message::Raw(0));
    assert!(matches!(result, EventResult::Stale));
    assert!(!stack.children[0].needs_update());
    assert!(!stack.children[1].needs_update());
    assert!(matches!(stack.message(&[], Message::Raw(0)), EventResult::Stale));
    assert!(matches!(
        stack.message(&[Id::from_raw(99)], Message::Raw(0)),
        EventResult::Stale
    ));
}

#[test]
fn stack_lists_the_children_that_are_due_for_an_update() {
    let mut cx = root();
    let mut stack = stack_of(4, &mut cx);
    assert_eq!(stack.take_updates(), vec![0, 1, 2, 3]);
    assert_eq!(stack.take_updates(), Vec::<usize>::new());
    stack.children_mut()[2].request_update();
    stack.children_mut()[0].request_update();
    assert_eq!(stack.take_updates(), vec![0, 2]);
    assert!(stack.children.iter().all(|pod| !pod.needs_update()));
    assert_eq!(stack.children.len(), 4);
}

#[test]
fn stack_answers_stale_for_a_child_that_was_taken_out() {
    let mut cx = root();
    let mut stack = stack_of(3, &mut cx);
    stack.take_updates();
    stack.children_mut().remove(0);
    assert!(matches!(
        stack.message(&[Id::from_raw(1)], Message::Raw(0)),
        EventResult::Stale
    ));
    stack.children_mut().swap(0, 1);
    assert!(matches!(
        stack.message(&[Id::from_raw(3), Id::from_raw(8)], Message::Raw(0)),
        EventResult::Stale
    ));
    assert!(stack.take_updates().is_empty());
}

#[test]
fn either_widget_speaks_for_the_side_it_holds() {
    let mut cx = root();
    let first: EitherWidget<VStack<TextWidget>, TextWidget> =
        EitherWidget::First(VStack::with_id(&mut cx, |_| Vec::new()));
    let second: EitherWidget<VStack<TextWidget>, TextWidget> =
        EitherWidget::Second(TextWidget::new("s".to_string()));
    assert_eq!(first.id(), Some(Id::from_raw(1)));
    assert_eq!(second.id(), None);
}
