//! Suspendable tasks and their identifiers.

use std::future::Future;
use std::pin::Pin;
use std::task::Context;
use std::task::Poll;
use std::task::Waker;
use vstd::prelude::*;

pub mod executor;
pub mod keyboard;
pub mod ready_queue;
pub mod registry;
pub mod shell;
pub mod snake;
pub mod time;
pub mod waker;

verus! {

/// Identifier of a task. Identifiers are handed out in allocation order by a
/// [`TaskIdCounter`] and compare by that order.
#[derive(Debug, Clone, Copy, PartialEq, Eq, PartialOrd, Ord, Structural)]
pub struct TaskId(u64);

impl TaskId {
    /// The integer this identifier stands for.
    pub closed spec fn raw(self) -> u64 {
        self.0
    }

    /// Takes the next identifier from `counter`.
    pub fn new(counter: &mut TaskIdCounter) -> (id: TaskId)
        ensures
            id.raw() == old(counter).next_raw(),
            id == old(counter).nth_id(0),
            *final(counter) == old(counter).advanced(1),
    {
        let raw: u64 = counter.next;
        counter.next = raw.wrapping_add(1);
        TaskId(raw)
    }

    pub fn as_u64(self) -> (raw: u64)
        ensures
            raw == self.raw(),
    {
        self.0
    }

    pub fn from_raw(raw: u64) -> (id: TaskId)
        ensures
            id.raw() == raw,
    {
        TaskId(raw)
    }
}

/// The source of task identifiers: a counter that starts at zero and moves up
/// by one with every identifier taken, wrapping around after `u64::MAX`.
pub struct TaskIdCounter {
    next: u64,
}

impl TaskIdCounter {
    /// The raw value of the identifier that is handed out next.
    pub closed spec fn next_raw(self) -> u64 {
        self.next
    }

    /// The counter after `n` more identifiers have been taken.
    pub closed spec fn advanced(self, n: nat) -> TaskIdCounter {
        TaskIdCounter { next: ((self.next + n) % 0x1_0000_0000_0000_0000) as u64 }
    }

    /// The identifier that the `i`-th allocation from now returns, counting
    /// from zero.
    pub closed spec fn nth_id(self, i: nat) -> TaskId {
        TaskId(self.advanced(i).next)
    }

    /// How many identifiers can still be taken before the counter wraps
    /// around to zero.
    pub open spec fn headroom(self) -> nat {
        (0x1_0000_0000_0000_0000 - self.next_raw()) as nat
    }

    pub fn new() -> (counter: TaskIdCounter)
        ensures
            counter.next_raw() == 0,
    {
        TaskIdCounter { next: 0 }
    }

    /// Taking `a` identifiers and then `b` more is taking `a + b`: the
    /// allocation that comes `b` places after the first `a` returns the
    /// identifier in place `a + b`.
    pub proof fn lemma_allocations_compose(self, a: nat, b: nat)
        ensures
            self.advanced(0) == self,
            self.advanced(a).advanced(b) == self.advanced(a + b),
            self.advanced(a).nth_id(b) == self.nth_id(a + b),
            self.nth_id(a).raw() == self.advanced(a).next_raw(),
            self.advanced(a).next_raw() == (self.next_raw() + a) % 0x1_0000_0000_0000_0000,
    {
    }

    /// Identifiers are handed out in strictly increasing order, and so no two
    /// allocations return the same one, for as long as the counter has not
    /// wrapped around: of two allocations within the counter's headroom, the
    /// later returns the larger identifier.
    pub proof fn lemma_ids_strictly_increase(self, earlier: nat, later: nat)
        requires
            earlier < later < self.headroom(),
        ensures
            self.nth_id(earlier).raw() < self.nth_id(later).raw(),
            self.nth_id(earlier) != self.nth_id(later),
    {
    }
}

/// What one poll of a task ended in.
#[derive(Debug, Clone, Copy, PartialEq, Eq, Structural)]
pub enum PollOutcome {
    /// The computation has run to its end.
    Completed,
    /// The computation has suspended itself, having arranged for its wake
    /// handle to be invoked when it can go on.
    Suspended,
}

/// A unit of cooperative work: an identifier, a name for diagnostics, and a
/// suspendable computation that is advanced by polling it.
#[verifier::reject_recursive_types(F)]
pub struct Task<F: Future<Output = ()>> {
    id: TaskId,
    name: &'static str,
    future: Pin<Box<F>>,
    completed: bool,
}

/// `std::pin::Pin`, the pinned pointer that holds a task's computation:
/// carried around and handed on, never looked into.
#[verifier::external_type_specification]
#[verifier::external_body]
#[verifier::reject_recursive_types(Ptr)]
pub struct ExPin<Ptr>(Pin<Ptr>);

/// `Box::pin`: moves the computation to the heap, where it stays put.
#[verifier::external_body]
fn pin_future<F: Future<Output = ()>>(future: F) -> (pinned: Pin<Box<F>>) {
    Box::pin(future)
}

/// `std::task::Context`, what a computation is polled with: it carries the
/// wake handle. Carried around and handed on, never looked into.
#[verifier::external_type_specification]
#[verifier::external_body]
pub struct ExContext<'a>(Context<'a>);

/// `Context::from_waker`: a context that carries `waker`.
#[verifier::external_body]
pub(crate) fn context_from_waker<'a>(waker: &'a Waker) -> (context: Context<'a>) {
    Context::from_waker(waker)
}

/// `Future::poll` on the pinned computation. This runs the task's own code,
/// of which nothing is known: no claim is made about the outcome. A
/// computation that has completed is not to be polled again; `Task::poll`,
/// the one caller, keeps track of completion and sees to that.
#[verifier::external_body]
fn poll_future<F: Future<Output = ()>>(
    future: &mut Pin<Box<F>>,
    context: &mut Context<'_>,
) -> (outcome: PollOutcome) {
    match future.as_mut().poll(context) {
        Poll::Ready(()) => PollOutcome::Completed,
        Poll::Pending => PollOutcome::Suspended,
    }
}

impl<F: Future<Output = ()>> Task<F> {
    pub closed spec fn spec_id(&self) -> TaskId {
        self.id
    }

    pub closed spec fn spec_name(&self) -> &'static str {
        self.name
    }

    /// Whether a poll of the task has found its computation completed.
    pub closed spec fn spec_completed(&self) -> bool {
        self.completed
    }

    /// A task named `"task"` around `future`, with the next identifier of
    /// `ids`.
    pub fn new(ids: &mut TaskIdCounter, future: F) -> (task: Task<F>)
        ensures
            task.spec_id() == old(ids).nth_id(0),
            task.spec_id().raw() == old(ids).next_raw(),
            task.spec_name() == "task",
            !task.spec_completed(),
            *final(ids) == old(ids).advanced(1),
    {
        Task::new_named(ids, "task", future)
    }

    /// A task named `name` around `future`, with the next identifier of `ids`.
    pub fn new_named(ids: &mut TaskIdCounter, name: &'static str, future: F) -> (task: Task<F>)
        ensures
            task.spec_id() == old(ids).nth_id(0),
            task.spec_id().raw() == old(ids).next_raw(),
            task.spec_name() == name,
            !task.spec_completed(),
            *final(ids) == old(ids).advanced(1),
    {
        Task { id: TaskId::new(ids), name, future: pin_future(future), completed: false }
    }

    pub fn id(&self) -> (id: TaskId)
        ensures
            id == self.spec_id(),
    {
        self.id
    }

    pub fn name(&self) -> (name: &'static str)
        ensures
            name == self.spec_name(),
    {
        self.name
    }

    /// Whether a poll of the task has found its computation completed.
    pub fn is_completed(&self) -> (completed: bool)
        ensures
            completed == self.spec_completed(),
    {
        self.completed
    }

    /// Asks the computation to make progress. Before it suspends, the
    /// computation hands the wake handle of `context` to whatever will wake
    /// it. A computation that has completed is not asked again: the poll of a
    /// completed task ends in `Completed` at once.
    pub fn poll(&mut self, context: &mut Context<'_>) -> (outcome: PollOutcome)
        ensures
            final(self).spec_id() == old(self).spec_id(),
            final(self).spec_name() == old(self).spec_name(),
            old(self).spec_completed() ==> outcome == PollOutcome::Completed,
            final(self).spec_completed() == (outcome == PollOutcome::Completed),
    {
        if self.completed {
            return PollOutcome::Completed;
        }
        let outcome = poll_future(&mut self.future, context);
        match outcome {
            PollOutcome::Completed => {
                self.completed = true;
            },
            PollOutcome::Suspended => {},
        }
        outcome
    }
}

} // verus!
