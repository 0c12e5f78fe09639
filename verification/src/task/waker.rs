//! Wake handles: invoking one puts its task back on the ready queue.

use crate::task::ready_queue::ReadyQueue;
use crate::task::TaskId;
use std::sync::Arc;
use std::task::Wake;
use std::task::Waker;
use vstd::prelude::*;

verus! {

/// `std::task::Waker`, a wake handle: carried around and handed on, never
/// looked into.
#[verifier::external_type_specification]
#[verifier::external_body]
pub struct ExWaker(Waker);

/// `Waker::will_wake`: whether the two handles are known to wake the same
/// task. Handles for the same task may still compare as different.
#[verifier::external_body]
pub(crate) fn will_wake(waker: &Waker, other: &Waker) -> (same: bool) {
    waker.will_wake(other)
}

/// `Waker::wake`: invokes the handle, and with that uses it up.
#[verifier::external_body]
pub(crate) fn wake(waker: Waker) {
    waker.wake()
}

/// What a wake handle carries: the task to wake and the queue to put it on.
pub(crate) struct TaskWaker {
    task_id: TaskId,
    task_queue: Arc<ReadyQueue>,
}

/// `Waker::from` on a shared `TaskWaker`: a handle whose `wake` and
/// `wake_by_ref` run the `Wake` implementation below.
#[verifier::external_body]
fn waker_from(handle: Arc<TaskWaker>) -> (waker: Waker) {
    Waker::from(handle)
}

impl TaskWaker {
    /// A wake handle for `task_id` that re-enqueues it on `task_queue`.
    pub(crate) fn new(task_id: TaskId, task_queue: Arc<ReadyQueue>) -> (waker: Waker) {
        waker_from(Arc::new(TaskWaker { task_id, task_queue }))
    }

    fn wake_task(&self) {
        self.task_queue.push(self.task_id.as_u64());
    }
}

impl Wake for TaskWaker {
    fn wake(self: Arc<Self>) {
        self.wake_task();
    }

    fn wake_by_ref(self: &Arc<Self>) {
        self.wake_task();
    }
}

} // verus!
