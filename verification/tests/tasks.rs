use std::future::Future;
use std::sync::atomic::{AtomicBool, AtomicUsize, Ordering};
use std::sync::{Arc, Mutex};
use std::task::{Wake, Waker};

use tokio::runtime::{Builder, Runtime};
use tokio::sync::oneshot::{channel, Receiver, Sender};
use xilem::app::{App, Cycle};
use xilem::cx::Cx;
use xilem::event::{EventResult, Message};
use xilem::id::Id;
use xilem::task::{poll_on, spawn_and_poll, take_and_poll, TaskPoll};
use xilem::view::async_then::{async_then, AsyncThen, AsyncThenState};
use xilem::view::for_each::ForEach;
use xilem::view::loader::{loader, Loader, LoaderState};
use xilem::view::text::{text, Text};
use xilem::view::View;
use xilem::widget::EitherWidget;

/// A runtime that runs spawned computations only while `drive` is called.
fn runtime() -> Runtime {
    Builder::new_current_thread().build().expect("a runtime")
}

/// Lets every spawned computation run as far as it can.
fn drive(rt: &Runtime) {
    rt.block_on(async {
        for _ in 0..8 {
            tokio::task::yield_now().await;
        }
    });
}

fn root() -> Cx {
    Cx::new(futures::task::noop_waker())
}

/// Rings when it is dropped.
struct Bell(Arc<AtomicBool>);

impl Drop for Bell {
    fn drop(&mut self) {
        self.0.store(true, Ordering::SeqCst);
    }
}

/// Counts how often it is woken.
struct Counted(AtomicUsize);

impl Wake for Counted {
    fn wake(self: Arc<Self>) {
        self.0.fetch_add(1, Ordering::SeqCst);
    }
}

/// The computations that a test hands out, one per call, and the bell of
/// each.
struct Latches {
    waiting: Mutex<Vec<(Receiver<u32>, Arc<AtomicBool>)>>,
}

fn latches(n: usize) -> (Arc<Latches>, Vec<Sender<u32>>, Vec<Arc<AtomicBool>>) {
    let mut waiting = Vec::new();
    let mut senders = Vec::new();
    let mut bells = Vec::new();
    for _ in 0..n {
        let (tx, rx) = channel();
        let bell = Arc::new(AtomicBool::new(false));
        waiting.push((rx, bell.clone()));
        senders.push(tx);
        bells.push(bell);
    }
    waiting.reverse();
    (Arc::new(Latches { waiting: Mutex::new(waiting) }), senders, bells)
}

fn next_latch(latches: &Latches) -> impl Future<Output = u32> + Send + 'static {
    let next = latches.waiting.lock().expect("the latches").pop();
    async move {
        match next {
            Some((rx, bell)) => {
                let _bell = Bell(bell);
                rx.await.unwrap_or(0)
            }
            None => 0,
        }
    }
}

fn show(_app: &u32, output: &u32) -> Text {
    text(format!("done {output}"))
}

fn shown(element: &EitherWidget<xilem::widget::text::TextWidget, xilem::widget::text::TextWidget>) -> String {
    match element {
        EitherWidget::First(widget) => format!("first {}", widget.text()),
        EitherWidget::Second(widget) => format!("second {}", widget.text()),
    }
}

#[test]
fn async_then_shows_the_placeholder_while_the_computation_runs() {
    let rt = runtime();
    let _entered = rt.enter();
    let (latches, _senders, _bells) = latches(1);
    let view = async_then::<u32, u32, (), Text, Text, _, _, _>(
        text("wait".to_string()),
        0,
        move |_data: &u32| next_latch(&latches),
        show,
    );
    let mut cx = root();
    let mut app = 0u32;
    cx.push(Id::from_raw(50));
    let (id, state, element) = view.build(&mut cx, &mut app);
    assert_eq!(id.to_raw(), 1);
    assert!(matches!(
        &state,
        AsyncThenState::Pending { id, task: Some(_), .. } if id.to_raw() == 2
    ));
    assert_eq!(shown(&element), "first wait");
    assert!(cx.is_pending_async(id));
    assert!(!cx.is_pending_async(Id::from_raw(2)));
    assert_eq!(cx.pending_async(), &vec![vec![Id::from_raw(50), Id::from_raw(1)]]);
    assert_eq!(cx.id_path(), &vec![Id::from_raw(50)]);
}

#[test]
fn async_then_goes_from_pending_over_build_to_complete() {
    let rt = runtime();
    let _entered = rt.enter();
    let (latches, mut senders, _bells) = latches(1);
    let view = async_then::<u32, u32, (), Text, Text, _, _, _>(
        text("wait".to_string()),
        0,
        move |_data: &u32| next_latch(&latches),
        show,
    );
    let mut cx = root();
    let mut app = 0u32;
    let (mut id, mut state, mut element) = view.build(&mut cx, &mut app);

    drive(&rt);
    let early = view.event(&[], &mut state, Message::AsyncWake, &mut app);
    assert!(matches!(early, EventResult::Stale));
    assert!(matches!(&state, AsyncThenState::Pending { task: Some(_), .. }));
    assert!(!view.rebuild(&mut cx, &view, &mut id, &mut state, &mut element, &mut app));
    assert_eq!(shown(&element), "first wait");

    senders.remove(0).send(7).expect("a receiver");
    drive(&rt);
    let other = view.event(&[], &mut state, Message::Raw(0), &mut app);
    assert!(matches!(other, EventResult::Stale));
    assert!(matches!(&state, AsyncThenState::Pending { task: Some(_), .. }));
    let late = view.event(&[], &mut state, Message::AsyncWake, &mut app);
    assert!(matches!(late, EventResult::RequestRebuild));
    assert!(matches!(&state, AsyncThenState::Build(Some(7))));
    assert_eq!(shown(&element), "first wait");
    let again = view.event(&[], &mut state, Message::AsyncWake, &mut app);
    assert!(matches!(again, EventResult::Stale));
    assert!(matches!(&state, AsyncThenState::Build(Some(7))));

    assert!(view.rebuild(&mut cx, &view, &mut id, &mut state, &mut element, &mut app));
    assert_eq!(id.to_raw(), 1);
    assert!(matches!(
        &state,
        AsyncThenState::Complete { id, output: 7, .. } if id.to_raw() == 3
    ));
    assert_eq!(shown(&element), "second done 7");
    assert!(!view.rebuild(&mut cx, &view, &mut id, &mut state, &mut element, &mut app));
    assert!(matches!(
        &state,
        AsyncThenState::Complete { id, output: 7, .. } if id.to_raw() == 3
    ));
    assert_eq!(shown(&element), "second done 7");
    assert!(matches!(
        view.event(&[], &mut state, Message::AsyncWake, &mut app),
        EventResult::Stale
    ));
    assert!(matches!(
        view.event(&[Id::from_raw(2)], &mut state, Message::Raw(0), &mut app),
        EventResult::Stale
    ));
    assert!(cx.is_empty());
}

#[test]
fn async_then_wakes_the_driver_when_the_computation_finishes() {
    let rt = runtime();
    let _entered = rt.enter();
    let (latches, mut senders, _bells) = latches(1);
    let view = async_then::<u32, u32, (), Text, Text, _, _, _>(
        text("wait".to_string()),
        0,
        move |_data: &u32| next_latch(&latches),
        show,
    );
    let counted = Arc::new(Counted(AtomicUsize::new(0)));
    let mut cx = Cx::new(Waker::from(counted.clone()));
    let mut app = 0u32;
    let (_, mut state, _) = view.build(&mut cx, &mut app);
    drive(&rt);
    assert_eq!(counted.0.load(Ordering::SeqCst), 0);
    senders.remove(0).send(1).expect("a receiver");
    drive(&rt);
    assert!(counted.0.load(Ordering::SeqCst) > 0);
    assert!(matches!(
        view.event(&[], &mut state, Message::AsyncWake, &mut app),
        EventResult::RequestRebuild
    ));
}

#[test]
fn teardown_cancels_the_computation_and_nothing_is_delivered_afterwards() {
    let rt = runtime();
    let _entered = rt.enter();
    let (latches, mut senders, bells) = latches(1);
    let view = async_then::<u32, u32, (), Text, Text, _, _, _>(
        text("wait".to_string()),
        0,
        move |_data: &u32| next_latch(&latches),
        show,
    );
    let mut cx = root();
    let mut app = 0u32;
    let (mut id, mut state, mut element) = view.build(&mut cx, &mut app);
    drive(&rt);
    assert!(!bells[0].load(Ordering::SeqCst));
    assert!(matches!(
        &state,
        AsyncThenState::Pending { abort_handle, .. } if !abort_handle.is_cancelled()
    ));

    view.teardown(&mut state);
    assert!(matches!(
        &state,
        AsyncThenState::Pending { task: None, abort_handle, .. } if abort_handle.is_cancelled()
    ));
    assert!(!bells[0].load(Ordering::SeqCst));
    drive(&rt);
    assert!(bells[0].load(Ordering::SeqCst));
    assert!(senders.remove(0).send(7).is_err());
    drive(&rt);
    assert!(matches!(
        view.event(&[], &mut state, Message::AsyncWake, &mut app),
        EventResult::Stale
    ));
    assert!(matches!(&state, AsyncThenState::Pending { task: None, .. }));
    assert!(!view.rebuild(&mut cx, &view, &mut id, &mut state, &mut element, &mut app));
    assert_eq!(shown(&element), "first wait");
    view.teardown(&mut state);
    assert!(matches!(&state, AsyncThenState::Pending { task: None, .. }));
}

#[test]
fn async_then_starts_over_when_the_data_change() {
    let rt = runtime();
    let _entered = rt.enter();
    let (all, mut senders, bells) = latches(2);
    let make = |label: &str, data: u32| {
        let all = all.clone();
        AsyncThen::<u32, u32, (), Text, Text, _, _, _>::new(
            text(label.to_string()),
            data,
            move |_data: &u32| next_latch(&all),
            show,
        )
    };
    let old = make("wait", 1);
    let new = make("wait more", 2);
    let mut cx = root();
    let mut app = 0u32;
    let (mut id, mut state, mut element) = old.build(&mut cx, &mut app);
    drive(&rt);
    assert!(new.rebuild(&mut cx, &old, &mut id, &mut state, &mut element, &mut app));
    assert_eq!(id.to_raw(), 3);
    assert!(matches!(
        &state,
        AsyncThenState::Pending { id, task: Some(_), .. } if id.to_raw() == 4
    ));
    assert_eq!(shown(&element), "first wait more");
    drive(&rt);
    assert!(bells[0].load(Ordering::SeqCst));
    assert!(!bells[1].load(Ordering::SeqCst));
    senders.remove(1).send(9).expect("a receiver");
    drive(&rt);
    assert!(matches!(
        new.event(&[], &mut state, Message::AsyncWake, &mut app),
        EventResult::RequestRebuild
    ));
    assert!(matches!(&state, AsyncThenState::Build(Some(9))));
}

#[test]
fn async_then_without_a_runtime_stays_pending_with_nothing_outstanding() {
    let (latches, mut senders, _bells) = latches(1);
    let view = async_then::<u32, u32, (), Text, Text, _, _, _>(
        text("wait".to_string()),
        0,
        move |_data: &u32| next_latch(&latches),
        show,
    );
    let mut cx = root();
    let mut app = 0u32;
    let (id, mut state, element) = view.build(&mut cx, &mut app);
    assert!(matches!(&state, AsyncThenState::Pending { task: None, .. }));
    assert_eq!(shown(&element), "first wait");
    assert!(!cx.is_pending_async(id));
    assert!(senders.remove(0).send(1).is_err());
    assert!(matches!(
        view.event(&[], &mut state, Message::AsyncWake, &mut app),
        EventResult::Stale
    ));
}

#[test]
fn settle_follows_what_the_first_look_found() {
    let (latches, _senders, _bells) = latches(0);
    let view = async_then::<u32, u32, (), Text, Text, _, _, _>(
        text("wait".to_string()),
        0,
        move |_data: &u32| next_latch(&latches),
        show,
    );
    let mut cx = root();
    let mut app = 0u32;
    let own = cx.new_id();
    let canceller = || spawn_and_poll(std::future::ready(0u32), &futures::task::noop_waker()).1;
    let handle = canceller();
    let (state, element) = view.settle(
        &mut cx,
        &mut app,
        own,
        TaskPoll::Ready(5),
        futures::task::noop_waker(),
        canceller(),
    );
    assert!(matches!(&state, AsyncThenState::Complete { output: 5, .. }));
    assert_eq!(shown(&element), "second done 5");
    assert!(!cx.is_pending_async(own));
    let (state, element) = view.settle(
        &mut cx,
        &mut app,
        own,
        TaskPoll::Failed,
        futures::task::noop_waker(),
        handle,
    );
    assert!(matches!(&state, AsyncThenState::Pending { task: None, .. }));
    assert_eq!(shown(&element), "first wait");
    assert!(!cx.is_pending_async(own));
    let (state, element) = view.complete(&mut cx, &mut app, 6);
    assert!(matches!(&state, AsyncThenState::Complete { output: 6, .. }));
    assert_eq!(shown(&element), "second done 6");
}

#[test]
fn wake_moves_on_only_with_an_output() {
    let (latches, _senders, _bells) = latches(0);
    let view = async_then::<u32, u32, (), Text, Text, _, _, _>(
        text("wait".to_string()),
        0,
        move |_data: &u32| next_latch(&latches),
        show,
    );
    let mut cx = root();
    let mut app = 0u32;
    let (_, mut state, _) = view.build(&mut cx, &mut app);
    let result: EventResult<()> = view.wake(&mut state, TaskPoll::Failed);
    assert!(matches!(result, EventResult::Stale));
    assert!(matches!(&state, AsyncThenState::Pending { task: None, .. }));
    let result: EventResult<()> = view.wake(&mut state, TaskPoll::Ready(3));
    assert!(matches!(result, EventResult::RequestRebuild));
    assert!(matches!(&state, AsyncThenState::Build(Some(3))));
}

#[test]
fn spawn_and_poll_finds_a_queued_computation_pending() {
    let rt = runtime();
    let _entered = rt.enter();
    let waker = futures::task::noop_waker();
    let (polled, _handle) = spawn_and_poll(async { 3u32 }, &waker);
    let mut task = match polled {
        TaskPoll::Pending(task) => Some(task),
        _ => None,
    };
    assert!(task.is_some());
    drive(&rt);
    assert!(matches!(take_and_poll(&mut task, &waker), TaskPoll::Ready(3)));
    assert!(task.is_none());
    assert!(matches!(take_and_poll(&mut task, &waker), TaskPoll::Failed));
}

#[test]
fn an_aborted_computation_counts_as_failed() {
    let rt = runtime();
    let _entered = rt.enter();
    let waker = futures::task::noop_waker();
    let (polled, mut handle) = spawn_and_poll(std::future::pending::<u32>(), &waker);
    let mut task = match polled {
        TaskPoll::Pending(task) => Some(task),
        _ => None,
    };
    drive(&rt);
    assert!(matches!(take_and_poll(&mut task, &waker), TaskPoll::Pending(_)));
    let (polled, mut handle2) = spawn_and_poll(std::future::pending::<u32>(), &waker);
    let mut task = match polled {
        TaskPoll::Pending(task) => Some(task),
        _ => None,
    };
    assert!(!handle.is_cancelled());
    assert!(!handle2.is_cancelled());
    handle.cancel();
    handle2.cancel();
    assert!(handle.is_cancelled());
    assert!(handle2.is_cancelled());
    drive(&rt);
    assert!(matches!(take_and_poll(&mut task, &waker), TaskPoll::Failed));
}

#[test]
fn spawn_and_poll_without_a_runtime_fails() {
    let waker = futures::task::noop_waker();
    let (polled, _handle) = spawn_and_poll(async { 3u32 }, &waker);
    assert!(matches!(polled, TaskPoll::Failed));
}

type Entry = AsyncThen<
    usize,
    u32,
    (),
    Text,
    Text,
    std::pin::Pin<Box<dyn Future<Output = u32> + Send>>,
    Box<dyn Fn(&usize) -> std::pin::Pin<Box<dyn Future<Output = u32> + Send>>>,
    fn(&u32, &u32) -> Text,
>;

#[test]
fn for_each_cancels_the_computation_of_a_removed_entry() {
    let rt = runtime();
    let _entered = rt.enter();
    let (all, _senders, bells) = latches(3);
    let make = move |items: Vec<usize>| {
        let all = all.clone();
        ForEach::new(
            items,
            |item: &usize| *item,
            move |_app: &u32, item: &usize| -> Entry {
                let all = all.clone();
                async_then(
                    text(format!("wait {item}")),
                    *item,
                    Box::new(move |_data: &usize| {
                        Box::pin(next_latch(&all)) as std::pin::Pin<Box<dyn Future<Output = u32> + Send>>
                    }),
                    show,
                )
            },
        )
    };
    let old = make(vec![1, 2, 3]);
    let new = make(vec![1, 3]);
    let mut cx = root();
    let mut app = 0u32;
    let (mut id, mut state, mut element) = old.build(&mut cx, &mut app);
    drive(&rt);
    assert!(bells.iter().all(|bell| !bell.load(Ordering::SeqCst)));
    assert!(new.rebuild(&mut cx, &old, &mut id, &mut state, &mut element, &mut app));
    drive(&rt);
    assert!(!bells[0].load(Ordering::SeqCst));
    assert!(bells[1].load(Ordering::SeqCst));
    assert!(!bells[2].load(Ordering::SeqCst));
    assert_eq!(state.items.len(), 2);
    new.teardown(&mut state);
    drive(&rt);
    assert!(bells.iter().all(|bell| bell.load(Ordering::SeqCst)));
}

fn next_view(latches: &Latches) -> impl Future<Output = Text> + Send + 'static {
    let number = next_latch(latches);
    async move { text(format!("loaded {}", number.await)) }
}

#[test]
fn loader_shows_the_view_that_the_computation_returns() {
    let rt = runtime();
    let _entered = rt.enter();
    let (latches, mut senders, _bells) = latches(2);
    let left = latches.clone();
    let view = loader::<u32, (), Text, Text, _, _>(text("wait".to_string()), move || {
        next_view(&latches)
    });
    let mut cx = root();
    let mut app = 0u32;
    let (mut id, mut state, mut element) = view.build(&mut cx, &mut app);
    assert_eq!(id.to_raw(), 1);
    assert!(matches!(
        &state,
        LoaderState::Pending { id, task: Some(_), .. } if id.to_raw() == 2
    ));
    assert_eq!(shown(&element), "first wait");
    assert!(cx.is_pending_async(id));
    drive(&rt);
    assert!(matches!(
        view.event(&[], &mut state, Message::AsyncWake, &mut app),
        EventResult::Stale
    ));
    assert!(matches!(&state, LoaderState::Pending { task: Some(_), .. }));
    senders.remove(0).send(4).expect("a receiver");
    drive(&rt);
    assert!(matches!(
        view.event(&[], &mut state, Message::AsyncWake, &mut app),
        EventResult::RequestRebuild
    ));
    assert!(matches!(&state, LoaderState::Build(Some(_))));
    assert!(view.rebuild(&mut cx, &view, &mut id, &mut state, &mut element, &mut app));
    assert_eq!(id.to_raw(), 1);
    assert!(matches!(&state, LoaderState::Complete { id, .. } if id.to_raw() == 3));
    assert_eq!(shown(&element), "second loaded 4");
    assert_eq!(left.waiting.lock().expect("the latches").len(), 1);
}

#[test]
fn loader_leaves_a_complete_node_alone() {
    let rt = runtime();
    let _entered = rt.enter();
    let (latches, mut senders, _bells) = latches(2);
    let left = latches.clone();
    let view = loader::<u32, (), Text, Text, _, _>(text("wait".to_string()), move || {
        next_view(&latches)
    });
    let mut cx = root();
    let mut app = 0u32;
    let (mut id, mut state, mut element) = view.build(&mut cx, &mut app);
    senders.remove(0).send(4).expect("a receiver");
    drive(&rt);
    let _ = view.event(&[], &mut state, Message::AsyncWake, &mut app);
    assert!(view.rebuild(&mut cx, &view, &mut id, &mut state, &mut element, &mut app));
    let next = cx.new_id();
    for _ in 0..3 {
        assert!(!view.rebuild(&mut cx, &view, &mut id, &mut state, &mut element, &mut app));
        assert_eq!(id.to_raw(), 1);
        assert!(matches!(&state, LoaderState::Complete { id, .. } if id.to_raw() == 3));
        assert_eq!(shown(&element), "second loaded 4");
    }
    assert_eq!(cx.new_id().to_raw(), next.to_raw() + 1);
    assert_eq!(left.waiting.lock().expect("the latches").len(), 1);
    assert!(!cx.take_pending_async().iter().any(|path| path.len() > 1));
    assert!(matches!(
        view.event(&[Id::from_raw(3)], &mut state, Message::Raw(0), &mut app),
        EventResult::Stale
    ));
}

#[test]
fn loader_reconciles_its_placeholder_and_keeps_its_computation() {
    let rt = runtime();
    let _entered = rt.enter();
    let (latches, mut senders, bells) = latches(2);
    let left = latches.clone();
    let make = |label: &str| {
        let latches = latches.clone();
        Loader::<u32, (), Text, Text, _, _>::new(text(label.to_string()), move || {
            next_view(&latches)
        })
    };
    let old = make("wait");
    let new = make("still waiting");
    let mut cx = root();
    let mut app = 0u32;
    let (mut id, mut state, mut element) = old.build(&mut cx, &mut app);
    drive(&rt);
    assert!(!old.rebuild(&mut cx, &old, &mut id, &mut state, &mut element, &mut app));
    assert_eq!(shown(&element), "first wait");
    assert!(new.rebuild(&mut cx, &old, &mut id, &mut state, &mut element, &mut app));
    assert_eq!(id.to_raw(), 1);
    assert!(matches!(
        &state,
        LoaderState::Pending { id, task: Some(_), .. } if id.to_raw() == 2
    ));
    assert_eq!(shown(&element), "first still waiting");
    drive(&rt);
    assert!(!bells[0].load(Ordering::SeqCst));
    assert_eq!(left.waiting.lock().expect("the latches").len(), 1);
    senders.remove(0).send(8).expect("a receiver");
    drive(&rt);
    assert!(matches!(
        new.event(&[], &mut state, Message::AsyncWake, &mut app),
        EventResult::RequestRebuild
    ));
    assert!(new.rebuild(&mut cx, &new, &mut id, &mut state, &mut element, &mut app));
    assert_eq!(shown(&element), "second loaded 8");
}

#[test]
fn loader_teardown_cancels_the_computation() {
    let rt = runtime();
    let _entered = rt.enter();
    let (latches, _senders, bells) = latches(1);
    let view = loader::<u32, (), Text, Text, _, _>(text("wait".to_string()), move || {
        next_view(&latches)
    });
    let mut cx = root();
    let mut app = 0u32;
    let (mut id, mut state, mut element) = view.build(&mut cx, &mut app);
    drive(&rt);
    assert!(!bells[0].load(Ordering::SeqCst));
    assert!(matches!(
        &state,
        LoaderState::Pending { abort_handle, .. } if !abort_handle.is_cancelled()
    ));
    view.teardown(&mut state);
    assert!(matches!(
        &state,
        LoaderState::Pending { task: None, abort_handle, .. } if abort_handle.is_cancelled()
    ));
    drive(&rt);
    assert!(bells[0].load(Ordering::SeqCst));
    assert!(matches!(
        view.event(&[], &mut state, Message::AsyncWake, &mut app),
        EventResult::Stale
    ));
    assert!(matches!(&state, LoaderState::Pending { task: None, .. }));
    assert!(!view.rebuild(&mut cx, &view, &mut id, &mut state, &mut element, &mut app));
    assert!(matches!(&state, LoaderState::Pending { task: None, .. }));
}

#[test]
fn loader_settles_and_wakes_by_what_was_found() {
    let (latches, _senders, _bells) = latches(0);
    let view = Loader::<u32, (), Text, Text, _, _>::new(text("wait".to_string()), move || {
        next_view(&latches)
    });
    let mut cx = root();
    let mut app = 0u32;
    let own = cx.new_id();
    let canceller = || spawn_and_poll(std::future::ready(0u32), &futures::task::noop_waker()).1;
    let handle = canceller();
    let (state, element) = view.settle(
        &mut cx,
        &mut app,
        own,
        TaskPoll::Ready(text("now".to_string())),
        futures::task::noop_waker(),
        canceller(),
    );
    assert!(matches!(&state, LoaderState::Complete { .. }));
    assert_eq!(shown(&element), "second now");
    let (mut state, element) =
        view.settle(&mut cx, &mut app, own, TaskPoll::Failed, futures::task::noop_waker(), handle);
    assert_eq!(shown(&element), "first wait");
    let result: EventResult<()> = view.wake(&mut state, TaskPoll::Failed);
    assert!(matches!(result, EventResult::Stale));
    let result: EventResult<()> = view.wake(&mut state, TaskPoll::Ready(text("x".to_string())));
    assert!(matches!(result, EventResult::RequestRebuild));
    assert!(matches!(&state, LoaderState::Build(Some(_))));
    let (state, element) = view.complete(&mut cx, &mut app, text("y".to_string()));
    assert!(matches!(&state, LoaderState::Complete { .. }));
    assert_eq!(shown(&element), "second y");
}

#[test]
fn driver_takes_note_of_pending_nodes_and_reconciles_on_completion() {
    let rt = runtime();
    let _entered = rt.enter();
    let (latches, mut senders, bells) = latches(1);
    let mut app = App::new(
        0u32,
        move |_data: &u32| {
            let latches = latches.clone();
            async_then::<u32, u32, (), Text, Text, _, _, _>(
                text("wait".to_string()),
                0,
                move |_data: &u32| next_latch(&latches),
                show,
            )
        },
        futures::task::noop_waker(),
    );
    assert_eq!(app.take_pending_async(), vec![vec![Id::from_raw(1)]]);
    assert!(app.take_pending_async().is_empty());
    assert_eq!(shown(app.element.widget()), "first wait");
    assert!(app.element.take_update());
    drive(&rt);
    assert!(matches!(app.dispatch(&[app.id], Message::AsyncWake), Cycle::Idle));
    senders.remove(0).send(2).expect("a receiver");
    drive(&rt);
    assert!(matches!(app.dispatch(&[app.id], Message::AsyncWake), Cycle::Rebuilt(true)));
    assert_eq!(shown(app.element.widget()), "second done 2");
    assert!(app.element.needs_update());
    assert!(bells[0].load(Ordering::SeqCst));
    app.teardown();
}

#[test]
fn context_hands_out_the_waker_of_its_driver() {
    let counted = Arc::new(Counted(AtomicUsize::new(0)));
    let driver = Waker::from(counted.clone());
    let mut cx = Cx::new(driver.clone());
    let first = cx.waker();
    assert!(first.will_wake(&driver));
    first.wake();
    assert_eq!(counted.0.load(Ordering::SeqCst), 1);
    let id = cx.new_id();
    cx.push(id);
    cx.add_pending_async(id);
    let inside = cx.with_new_id(|cx| cx.waker()).1;
    assert!(inside.will_wake(&driver));
    assert!(!inside.will_wake(&futures::task::noop_waker()));
    inside.wake_by_ref();
    inside.wake();
    assert_eq!(counted.0.load(Ordering::SeqCst), 3);
}

#[test]
fn a_pending_node_keeps_the_waker_of_the_driver() {
    let rt = runtime();
    let _entered = rt.enter();
    let (latches, _senders, _bells) = latches(1);
    let view = async_then::<u32, u32, (), Text, Text, _, _, _>(
        text("wait".to_string()),
        0,
        move |_data: &u32| next_latch(&latches),
        show,
    );
    let counted = Arc::new(Counted(AtomicUsize::new(0)));
    let driver = Waker::from(counted.clone());
    let mut cx = Cx::new(driver.clone());
    let mut app = 0u32;
    let (_, state, _) = view.build(&mut cx, &mut app);
    match &state {
        AsyncThenState::Pending { waker, .. } => assert!(waker.will_wake(&driver)),
        _ => panic!("the node is not pending"),
    }
}

#[test]
fn poll_on_fails_where_no_runtime_was_found() {
    let waker = futures::task::noop_waker();
    let (_handle, registration) = futures::future::AbortHandle::new_pair();
    let future = futures::future::Abortable::new(async { 3u32 }, registration);
    let none = tokio::runtime::Handle::try_current();
    assert!(none.is_err());
    assert!(matches!(poll_on(none, future, &waker), TaskPoll::Failed));
}

#[test]
fn poll_on_starts_the_computation_on_the_runtime_it_was_given() {
    let rt = runtime();
    let waker = futures::task::noop_waker();
    let (_handle, registration) = futures::future::AbortHandle::new_pair();
    let future = futures::future::Abortable::new(async { 3u32 }, registration);
    let found = {
        let _entered = rt.enter();
        tokio::runtime::Handle::try_current()
    };
    assert!(found.is_ok());
    let mut task = match poll_on(found, future, &waker) {
        TaskPoll::Pending(task) => Some(task),
        _ => None,
    };
    assert!(task.is_some());
    drive(&rt);
    assert!(matches!(take_and_poll(&mut task, &waker), TaskPoll::Ready(3)));
}
