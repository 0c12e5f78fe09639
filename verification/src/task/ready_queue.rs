//! The ready queue: a bounded queue of the identifiers of tasks that wait to
//! be polled.
//!
//! The queue is shared between the executor, which takes identifiers out, and
//! the wake handles, which put them back in from task code and from interrupt
//! handlers alike. Nobody owns it exclusively, so no operation can promise
//! what the queue holds afterwards.

use crossbeam_queue::ArrayQueue;
use std::sync::atomic::AtomicBool;
use std::sync::atomic::Ordering;
use vstd::prelude::*;

verus! {

/// `crossbeam_queue::ArrayQueue`, a bounded queue that several holders push
/// to and pop from at the same time. Nothing is said of what it holds.
#[verifier::external_type_specification]
#[verifier::external_body]
#[verifier::reject_recursive_types(T)]
pub struct ExArrayQueue<T>(ArrayQueue<T>);

/// The largest capacity that a queue is created with.
pub(crate) const MAX_QUEUE_CAPACITY: usize = 0x10000;

/// The number of identifiers that `queue` has room for: the capacity that it
/// was made with. It is fixed for the life of the queue.
pub uninterp spec fn id_queue_room(queue: ArrayQueue<u64>) -> nat;

/// `ArrayQueue::new`, for a queue of identifiers: a queue with room for
/// `capacity` items, which is what `ArrayQueue::capacity` returns of it from
/// then on. The call panics on a capacity of zero and on one too large to
/// allocate, which the precondition leaves out.
#[verifier::external_body]
fn id_queue_new(capacity: usize) -> (queue: ArrayQueue<u64>)
    requires
        0 < capacity <= MAX_QUEUE_CAPACITY,
    ensures
        id_queue_room(queue) == capacity,
{
    ArrayQueue::new(capacity)
}

/// `ArrayQueue::push`: appends `value` unless the queue is full, and reports
/// whether it did. Other holders of the queue push and pop at the same time,
/// so nothing is claimed about when the queue is full.
#[verifier::external_body]
pub(crate) fn array_queue_push<T>(queue: &ArrayQueue<T>, value: T) -> (pushed: bool) {
    queue.push(value).is_ok()
}

/// `ArrayQueue::pop`: takes the oldest item out, if there is one. Nothing is
/// claimed about which item that is: other holders push at the same time.
#[verifier::external_body]
pub(crate) fn array_queue_pop<T>(queue: &ArrayQueue<T>) -> (value: Option<T>) {
    queue.pop()
}

/// `ArrayQueue::is_empty`: whether the queue held no item at the moment of the
/// call.
#[verifier::external_body]
pub(crate) fn array_queue_is_empty<T>(queue: &ArrayQueue<T>) -> (empty: bool) {
    queue.is_empty()
}

/// A bounded first-in, first-out queue of raw task identifiers, and a flag
/// that records whether an identifier was ever turned away because the queue
/// was full. Running out of room is not a back-pressure signal but an
/// unrecoverable fault: the flag lets whoever drives the executor stop the
/// system.
pub(crate) struct ReadyQueue {
    ids: ArrayQueue<u64>,
    overflowed: AtomicBool,
}

impl ReadyQueue {
    /// The number of identifiers that the queue has room for.
    pub(crate) closed spec fn room(&self) -> nat {
        id_queue_room(self.ids)
    }

    /// A queue with room for `capacity` identifiers.
    pub(crate) fn new(capacity: usize) -> (queue: ReadyQueue)
        requires
            0 < capacity <= MAX_QUEUE_CAPACITY,
        ensures
            queue.room() == capacity,
    {
        ReadyQueue { ids: id_queue_new(capacity), overflowed: AtomicBool::new(false) }
    }

    /// Appends `id` if there is room, and says whether there was.
    pub(crate) fn try_push(&self, id: u64) -> (pushed: bool) {
        array_queue_push(&self.ids, id)
    }

    /// Appends `id`; if there is no room, records the overflow instead.
    pub(crate) fn push(&self, id: u64) {
        if !array_queue_push(&self.ids, id) {
            self.overflowed.store(true, Ordering::Relaxed);
        }
    }

    /// Takes out the identifier that has waited longest, if any waits.
    pub(crate) fn pop(&self) -> (id: Option<u64>) {
        array_queue_pop(&self.ids)
    }

    pub(crate) fn is_empty(&self) -> (empty: bool) {
        array_queue_is_empty(&self.ids)
    }

    /// Whether an identifier has been turned away since the queue was made.
    pub(crate) fn has_overflowed(&self) -> (overflowed: bool) {
        self.overflowed.load(Ordering::Relaxed)
    }
}

} // verus!
