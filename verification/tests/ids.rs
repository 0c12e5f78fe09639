use std::future::Future;
use std::pin::Pin;
use std::task::Context;
use std::task::Poll;
use std::task::Wake;
use std::task::Waker;
use std::sync::atomic::AtomicUsize;
use std::sync::atomic::Ordering;
use std::sync::Arc;
use toy_os::task::PollOutcome;
use toy_os::task::Task;
use toy_os::task::TaskId;
use toy_os::task::TaskIdCounter;

struct Countdown {
    polls_left: u32,
    wake_on_suspend: bool,
}

impl Future for Countdown {
    type Output = ();

    fn poll(self: Pin<&mut Self>, cx: &mut Context<'_>) -> Poll<()> {
        let this = self.get_mut();
        if this.polls_left == 0 {
            Poll::Ready(())
        } else {
            this.polls_left -= 1;
            if this.wake_on_suspend {
                cx.waker().wake_by_ref();
            }
            Poll::Pending
        }
    }
}

struct WakeCount(AtomicUsize);

impl Wake for WakeCount {
    fn wake(self: Arc<Self>) {
        self.0.fetch_add(1, Ordering::SeqCst);
    }
}

#[test]
fn ids_are_handed_out_from_zero_upwards() {
    let mut ids = TaskIdCounter::new();
    assert_eq!(TaskId::new(&mut ids).as_u64(), 0);
    assert_eq!(TaskId::new(&mut ids).as_u64(), 1);
    assert_eq!(TaskId::new(&mut ids).as_u64(), 2);
}

#[test]
fn ids_are_distinct_and_strictly_increasing() {
    let mut ids = TaskIdCounter::new();
    let mut allocated: Vec<TaskId> = Vec::new();
    for _ in 0..50 {
        allocated.push(TaskId::new(&mut ids));
    }
    for i in 0..allocated.len() {
        for j in (i + 1)..allocated.len() {
            assert!(allocated[i] < allocated[j]);
            assert_ne!(allocated[i], allocated[j]);
            assert!(allocated[i].as_u64() < allocated[j].as_u64());
        }
    }
}

#[test]
fn two_counters_count_apart() {
    let mut first = TaskIdCounter::new();
    let mut second = TaskIdCounter::new();
    assert_eq!(TaskId::new(&mut first).as_u64(), 0);
    assert_eq!(TaskId::new(&mut first).as_u64(), 1);
    assert_eq!(TaskId::new(&mut second).as_u64(), 0);
}

#[test]
fn raw_round_trip() {
    assert_eq!(TaskId::from_raw(0).as_u64(), 0);
    assert_eq!(TaskId::from_raw(41).as_u64(), 41);
    assert_eq!(TaskId::from_raw(u64::MAX).as_u64(), u64::MAX);
    assert_eq!(TaskId::from_raw(5), TaskId::from_raw(5));
    assert!(TaskId::from_raw(5) < TaskId::from_raw(6));
}

#[test]
fn new_task_is_named_task_and_takes_the_next_id() {
    let mut ids = TaskIdCounter::new();
    let first = Task::new(&mut ids, Countdown { polls_left: 0, wake_on_suspend: false });
    let second = Task::new(&mut ids, Countdown { polls_left: 0, wake_on_suspend: false });
    assert_eq!(first.name(), "task");
    assert_eq!(first.id().as_u64(), 0);
    assert_eq!(second.name(), "task");
    assert_eq!(second.id().as_u64(), 1);
    assert_eq!(TaskId::new(&mut ids).as_u64(), 2);
}

#[test]
fn new_named_task_keeps_its_name() {
    let mut ids = TaskIdCounter::new();
    let _ = TaskId::new(&mut ids);
    let task = Task::new_named(&mut ids, "status", Countdown { polls_left: 0, wake_on_suspend: false });
    assert_eq!(task.name(), "status");
    assert_eq!(task.id().as_u64(), 1);
}

#[test]
fn poll_reports_suspension_then_completion() {
    let mut ids = TaskIdCounter::new();
    let mut task = Task::new_named(&mut ids, "two", Countdown { polls_left: 2, wake_on_suspend: false });
    let count = Arc::new(WakeCount(AtomicUsize::new(0)));
    let waker = Waker::from(count.clone());
    let mut context = Context::from_waker(&waker);
    assert_eq!(task.poll(&mut context), PollOutcome::Suspended);
    assert_eq!(task.poll(&mut context), PollOutcome::Suspended);
    assert_eq!(task.poll(&mut context), PollOutcome::Completed);
    assert_eq!(task.id().as_u64(), 0);
    assert_eq!(task.name(), "two");
    assert_eq!(count.0.load(Ordering::SeqCst), 0);
}

#[test]
fn poll_hands_the_wake_handle_to_the_computation() {
    let mut ids = TaskIdCounter::new();
    let mut task = Task::new(&mut ids, Countdown { polls_left: 1, wake_on_suspend: true });
    let count = Arc::new(WakeCount(AtomicUsize::new(0)));
    let waker = Waker::from(count.clone());
    let mut context = Context::from_waker(&waker);
    assert_eq!(task.poll(&mut context), PollOutcome::Suspended);
    assert_eq!(count.0.load(Ordering::SeqCst), 1);
    assert_eq!(task.poll(&mut context), PollOutcome::Completed);
    assert_eq!(count.0.load(Ordering::SeqCst), 1);
}

#[test]
fn a_new_task_has_not_completed() {
    let mut ids = TaskIdCounter::new();
    let task = Task::new(&mut ids, Countdown { polls_left: 0, wake_on_suspend: false });
    assert!(!task.is_completed());
}

#[test]
fn a_completed_computation_is_not_polled_again() {
    let mut ids = TaskIdCounter::new();
    let mut task = Task::new(&mut ids, Countdown { polls_left: 1, wake_on_suspend: true });
    let count = Arc::new(WakeCount(AtomicUsize::new(0)));
    let waker = Waker::from(count.clone());
    let mut context = Context::from_waker(&waker);
    assert_eq!(task.poll(&mut context), PollOutcome::Suspended);
    assert!(!task.is_completed());
    assert_eq!(task.poll(&mut context), PollOutcome::Completed);
    assert!(task.is_completed());
    assert_eq!(task.poll(&mut context), PollOutcome::Completed);
    assert_eq!(task.poll(&mut context), PollOutcome::Completed);
    assert!(task.is_completed());
    assert_eq!(count.0.load(Ordering::SeqCst), 1);
}
