//! The keyboard side of the interrupt bridge: the queue of raw scancodes that
//! the keyboard interrupt fills and a decoding task empties, and the keys
//! that decoding tells apart.

use crate::task::ready_queue::MAX_QUEUE_CAPACITY;
use crate::task::ready_queue::array_queue_pop;
use crate::task::ready_queue::array_queue_push;
use crate::task::time::atomic_waker_new;
use crate::task::time::atomic_waker_register;
use crate::task::time::atomic_waker_take;
use crate::task::time::atomic_waker_wake;
use crossbeam_queue::ArrayQueue;
use futures_util::task::AtomicWaker;
use std::task::Waker;
use vstd::prelude::*;

verus! {

/// How many scancodes the queue has room for.
pub const SCANCODE_QUEUE_CAPACITY: usize = 100;

/// The number of scancodes that `queue` has room for: the capacity that it
/// was made with. It is fixed for the life of the queue.
pub uninterp spec fn scancode_queue_room(queue: ArrayQueue<u8>) -> nat;

/// `ArrayQueue::new`, for a queue of scancodes: a queue with room for
/// `capacity` items, which is what `ArrayQueue::capacity` returns of it from
/// then on. The call panics on a capacity of zero and on one too large to
/// allocate, which the precondition leaves out.
#[verifier::external_body]
fn scancode_queue_new(capacity: usize) -> (queue: ArrayQueue<u8>)
    requires
        0 < capacity <= MAX_QUEUE_CAPACITY,
    ensures
        scancode_queue_room(queue) == capacity,
{
    ArrayQueue::new(capacity)
}

/// The queue of scancodes, and the wake handle of the one task that waits
/// for them. The interrupt handler and the task reach the queue at the same
/// time, so no operation can promise what it holds afterwards.
pub struct ScancodeQueue {
    codes: ArrayQueue<u8>,
    waker: AtomicWaker,
}

impl ScancodeQueue {
    /// The number of scancodes that the queue has room for.
    pub closed spec fn room(&self) -> nat {
        scancode_queue_room(self.codes)
    }

    /// An empty queue with nobody waiting and room for
    /// `SCANCODE_QUEUE_CAPACITY` scancodes.
    pub fn new() -> (queue: ScancodeQueue)
        ensures
            queue.room() == SCANCODE_QUEUE_CAPACITY,
    {
        ScancodeQueue { codes: scancode_queue_new(SCANCODE_QUEUE_CAPACITY), waker: atomic_waker_new() }
    }

    /// The keyboard interrupt: queues `scancode` and wakes the task that
    /// waits for it. Takes no lock and does not wait. If the queue is full
    /// the code is dropped, nobody is woken, and the result is `false`.
    pub fn add_scancode(&self, scancode: u8) -> (queued: bool) {
        let queued = array_queue_push(&self.codes, scancode);
        if queued {
            atomic_waker_wake(&self.waker);
        }
        queued
    }

    /// Takes the oldest scancode out of the queue, if there is one.
    pub fn pop_scancode(&self) -> (scancode: Option<u8>) {
        array_queue_pop(&self.codes)
    }

    /// Polls the queue for the waiting task: hands out the oldest scancode
    /// if there is one. Otherwise `waker` is registered, and the queue is
    /// looked at once more, so that a code that came in before the handle
    /// was in place is not left waiting; if there is still none, nothing is
    /// handed out and the next code wakes the task.
    pub fn poll_next(&self, waker: &Waker) -> (scancode: Option<u8>) {
        match array_queue_pop(&self.codes) {
            Some(scancode) => Some(scancode),
            None => {
                atomic_waker_register(&self.waker, waker);
                let scancode = array_queue_pop(&self.codes);
                if scancode.is_some() {
                    let _ = atomic_waker_take(&self.waker);
                }
                scancode
            },
        }
    }
}

/// A decoded key.
#[derive(Debug, Clone, Copy, PartialEq, Eq, Structural)]
pub enum Key {
    /// A key that types a character.
    Unicode(char),
    ArrowUp,
    ArrowDown,
    ArrowLeft,
    ArrowRight,
    /// Any other key that types no character.
    Other,
}

} // verus!
