//! The wake bridge between the timer interrupt and the tasks that wait for
//! time to pass.
//!
//! The interrupt handler bumps a tick counter and invokes every wake handle
//! in a small fixed pool. A task that waits for the next tick holds a
//! [`TickStream`]: it compares the counter with the last value it has seen
//! and, if the counter has not moved, leaves its wake handle in its slot of
//! the pool and looks at the counter once more before it suspends. The
//! second look closes the window in which a tick could fire after the first
//! look and before the handle is in place, and be lost.

use crate::task::waker::wake;
use crate::task::waker::will_wake;
use futures_util::task::AtomicWaker;
use std::sync::atomic::AtomicUsize;
use std::sync::atomic::Ordering;
use std::task::Waker;
use vstd::prelude::*;

verus! {

/// `futures_util::task::AtomicWaker`, a slot for one wake handle that
/// interrupt handlers and tasks may reach at the same time. Nothing is said
/// of what it holds.
#[verifier::external_type_specification]
#[verifier::external_body]
pub struct ExAtomicWaker(AtomicWaker);

/// The number of slots in the pool of wake handles.
pub const TIMER_WAKER_SLOTS: usize = 4;

/// `AtomicWaker::new`: a slot with no wake handle in it.
#[verifier::external_body]
pub(crate) fn atomic_waker_new() -> (slot: AtomicWaker) {
    AtomicWaker::new()
}

/// `AtomicWaker::register`: leaves a copy of `waker` in the slot, in place of
/// whatever was there. The slot is shared with the interrupt handler, which
/// may empty it at any time, so nothing is claimed about it afterwards.
#[verifier::external_body]
pub(crate) fn atomic_waker_register(slot: &AtomicWaker, waker: &Waker) {
    slot.register(waker)
}

/// `AtomicWaker::take`: empties the slot and hands out the wake handle that
/// was in it, if any.
#[verifier::external_body]
pub(crate) fn atomic_waker_take(slot: &AtomicWaker) -> (waker: Option<Waker>) {
    slot.take()
}

/// `AtomicWaker::wake`: empties the slot and invokes the wake handle that was
/// in it, if any.
#[verifier::external_body]
pub(crate) fn atomic_waker_wake(slot: &AtomicWaker) {
    slot.wake()
}

/// The slot of the pool that the subscription with the given ticket uses:
/// slots are dealt out round-robin.
pub open spec fn slot_of(ticket: usize) -> usize {
    ticket % TIMER_WAKER_SLOTS
}

/// Deals out the slots of the pool to new subscriptions, round-robin: every
/// subscription draws a ticket, and the ticket decides the slot. When there
/// are more subscriptions than slots, several share one.
pub struct SlotCounter {
    next_ticket: usize,
}

impl SlotCounter {
    /// The ticket that the next subscription draws.
    pub closed spec fn next_ticket(self) -> usize {
        self.next_ticket
    }

    /// A counter whose first ticket is zero.
    pub fn new() -> (slots: SlotCounter)
        ensures
            slots.next_ticket() == 0,
    {
        SlotCounter { next_ticket: 0 }
    }

    /// Draws a ticket and returns its slot. The ticket after `usize::MAX` is
    /// zero again.
    pub fn claim_slot(&mut self) -> (slot: usize)
        ensures
            slot == slot_of(old(self).next_ticket()),
            slot < TIMER_WAKER_SLOTS,
            final(self).next_ticket() == if old(self).next_ticket() == usize::MAX {
                0
            } else {
                old(self).next_ticket() + 1
            },
    {
        let ticket: usize = self.next_ticket;
        self.next_ticket = ticket.wrapping_add(1);
        slot_for(ticket)
    }
}

/// The tick counter and the pool of wake handles. One bridge serves the whole
/// system: the timer interrupt handler and every tick subscription share it.
pub struct WakeBridge {
    ticks: AtomicUsize,
    wakers: [AtomicWaker; 4],
}

impl WakeBridge {
    /// A bridge with the counter at zero and every slot empty.
    pub fn new() -> (bridge: WakeBridge) {
        WakeBridge {
            ticks: AtomicUsize::new(0),
            wakers: [
                atomic_waker_new(),
                atomic_waker_new(),
                atomic_waker_new(),
                atomic_waker_new(),
            ],
        }
    }

    /// The number of timer interrupts so far. The counter belongs to the
    /// interrupt handler: two reads in a row need not agree.
    pub fn ticks(&self) -> (current: usize) {
        self.ticks.load(Ordering::Relaxed)
    }

    /// The timer interrupt: counts the tick, then invokes every wake handle
    /// in the pool. Takes no lock and does not wait.
    pub fn tick(&self) {
        self.ticks.fetch_add(1, Ordering::Relaxed);
        let mut slot: usize = 0;
        while slot < TIMER_WAKER_SLOTS
            invariant
                slot <= TIMER_WAKER_SLOTS,
            decreases TIMER_WAKER_SLOTS - slot,
        {
            atomic_waker_wake(&self.wakers[slot]);
            slot += 1;
        }
    }

    /// Leaves `waker` in `slot`, to be invoked by the next tick. A slot
    /// holds one wake handle. If the slot is shared and held the handle of
    /// another task, that task is woken at once, so that it comes back and
    /// registers again: the tasks that share a slot may be woken more often
    /// than the counter moves, but none of them misses a tick.
    pub(crate) fn register(&self, slot: usize, waker: &Waker)
        requires
            slot < TIMER_WAKER_SLOTS,
    {
        let displaced = atomic_waker_take(&self.wakers[slot]);
        atomic_waker_register(&self.wakers[slot], waker);
        match displaced {
            Some(earlier) => {
                if !will_wake(&earlier, waker) {
                    wake(earlier);
                }
            },
            None => {},
        }
    }

    /// Empties `slot` without invoking the wake handle in it.
    pub(crate) fn deregister(&self, slot: usize)
        requires
            slot < TIMER_WAKER_SLOTS,
    {
        let _ = atomic_waker_take(&self.wakers[slot]);
    }
}

/// The slot for the subscription with the given ticket.
pub fn slot_for(ticket: usize) -> (slot: usize)
    ensures
        slot == slot_of(ticket),
        slot < TIMER_WAKER_SLOTS,
{
    ticket % TIMER_WAKER_SLOTS
}

/// What one look at the tick counter means to a subscription that has last
/// seen `last_seen`: the value to report, if the counter has moved on.
pub open spec fn newer_tick(last_seen: usize, current: usize) -> Option<usize> {
    if current > last_seen {
        Some(current)
    } else {
        None
    }
}

/// How one poll of a subscription relates what it reports to what the
/// subscription has last seen, before and after: a reported tick is newer
/// than the last one seen and becomes the last one seen; a poll that reports
/// nothing changes nothing.
pub open spec fn poll_step(before: usize, reported: Option<usize>, after: usize) -> bool {
    match reported {
        Some(tick) => tick > before && after == tick,
        None => after == before,
    }
}

/// Whether `reported` and `seen` record a run of polls of one subscription:
/// the `k`-th poll found `seen[k]` as the last value seen, reported
/// `reported[k]`, and left `seen[k + 1]`.
pub open spec fn is_poll_trace(seen: Seq<usize>, reported: Seq<Option<usize>>) -> bool {
    &&& seen.len() == reported.len() + 1
    &&& forall|k: int|
        0 <= k < reported.len() ==> poll_step(seen[k], #[trigger] reported[k], seen[k + 1])
}

/// Over a run of polls, the last value seen never goes down.
proof fn lemma_seen_never_decreases(seen: Seq<usize>, reported: Seq<Option<usize>>, i: int, j: int)
    requires
        is_poll_trace(seen, reported),
        0 <= i <= j < seen.len(),
    ensures
        seen[i] <= seen[j],
    decreases j - i,
{
    if i < j {
        lemma_seen_never_decreases(seen, reported, i, j - 1);
        assert(poll_step(seen[j - 1], reported[j - 1], seen[j]));
    }
}

/// A subscription never reports a tick that is not newer than every tick it
/// has reported before: of two reports in one run of polls, the later is
/// the larger.
pub proof fn lemma_reported_ticks_strictly_increase(
    seen: Seq<usize>,
    reported: Seq<Option<usize>>,
    earlier: int,
    later: int,
)
    requires
        is_poll_trace(seen, reported),
        0 <= earlier < later < reported.len(),
        reported[earlier] is Some,
        reported[later] is Some,
    ensures
        reported[earlier]->0 < reported[later]->0,
{
    assert(poll_step(seen[earlier], reported[earlier], seen[earlier + 1]));
    assert(poll_step(seen[later], reported[later], seen[later + 1]));
    lemma_seen_never_decreases(seen, reported, earlier + 1, later);
}

/// What the second look of a poll, the one that follows the registration of
/// the wake handle, ends in.
#[derive(Debug, Clone, Copy, PartialEq, Eq, Structural)]
pub enum Recheck {
    /// A tick has fired since the first look: report it, and take the wake
    /// handle back out of its slot.
    ReportAndDeregister(usize),
    /// No tick yet: leave the wake handle in its slot and suspend.
    Suspend,
}

/// What the second look of a poll ends in, for a subscription that has last
/// seen `last_seen` and now reads `reading`.
pub open spec fn recheck_of(last_seen: usize, reading: usize) -> Recheck {
    if reading > last_seen {
        Recheck::ReportAndDeregister(reading)
    } else {
        Recheck::Suspend
    }
}

/// A tick that fires between the two looks of one poll is reported by that
/// poll. The first look, at a reading no newer than the last value seen,
/// reports nothing and so, by `observe`, leaves the last value seen as it
/// was; the second look, which follows the registration of the wake handle,
/// finds the newer reading, reports it, and has the wake handle taken back.
pub proof fn lemma_tick_between_looks_is_reported(last_seen: usize, first: usize, second: usize)
    requires
        first <= last_seen < second,
    ensures
        newer_tick(last_seen, first) is None,
        recheck_of(last_seen, second) == Recheck::ReportAndDeregister(second),
{
}

/// A subscription to the tick counter: a lazy sequence of ever larger tick
/// values that starts from the moment of subscription.
pub struct TickStream {
    last_seen: usize,
    waker_id: usize,
}

impl TickStream {
    /// The subscription keeps to one slot of the pool for its whole life.
    #[verifier::type_invariant]
    spec fn slot_in_pool(self) -> bool {
        self.waker_id < TIMER_WAKER_SLOTS
    }

    /// The last tick value reported, or the value of the counter at
    /// subscription if none has been reported yet.
    pub closed spec fn spec_last_seen(&self) -> usize {
        self.last_seen
    }

    /// The slot of the pool that the subscription uses.
    pub closed spec fn spec_slot(&self) -> usize {
        self.waker_id
    }

    /// Subscribes: claims the next slot of the pool, and starts from the
    /// present value of the tick counter. The counter is the timer
    /// interrupt's, so what its present value is cannot be said here; that
    /// the subscription starts from the value read is `from_reading`'s to
    /// say.
    pub fn new(slots: &mut SlotCounter, bridge: &WakeBridge) -> (stream: TickStream)
        ensures
            stream.spec_slot() == slot_of(old(slots).next_ticket()),
            final(slots).next_ticket() == if old(slots).next_ticket() == usize::MAX {
                0
            } else {
                old(slots).next_ticket() + 1
            },
    {
        TickStream::from_reading(slots, bridge.ticks())
    }

    /// A subscription that claims the next slot of the pool and starts from
    /// `reading`, the value of the tick counter as just read: the first tick
    /// that it reports is one newer than `reading`.
    pub fn from_reading(slots: &mut SlotCounter, reading: usize) -> (stream: TickStream)
        ensures
            stream.spec_last_seen() == reading,
            stream.spec_slot() == slot_of(old(slots).next_ticket()),
            final(slots).next_ticket() == if old(slots).next_ticket() == usize::MAX {
                0
            } else {
                old(slots).next_ticket() + 1
            },
    {
        let waker_id = slots.claim_slot();
        TickStream { last_seen: reading, waker_id }
    }

    pub fn last_seen(&self) -> (tick: usize)
        ensures
            tick == self.spec_last_seen(),
    {
        self.last_seen
    }

    pub fn slot(&self) -> (slot: usize)
        ensures
            slot == self.spec_slot(),
            slot < TIMER_WAKER_SLOTS,
    {
        proof {
            use_type_invariant(self);
        }
        self.waker_id
    }

    /// Takes note of a reading of the tick counter: reports it if it is newer
    /// than the last one seen, and remembers it then.
    pub fn observe(&mut self, current: usize) -> (reported: Option<usize>)
        ensures
            reported == newer_tick(old(self).spec_last_seen(), current),
            poll_step(old(self).spec_last_seen(), reported, final(self).spec_last_seen()),
            final(self).spec_slot() == old(self).spec_slot(),
    {
        proof {
            use_type_invariant(&*self);
        }
        if current > self.last_seen {
            self.last_seen = current;
            Some(current)
        } else {
            None
        }
    }

    /// The first half of a poll: a look at the counter, with no wake handle
    /// registered.
    pub fn poll_unregistered(&mut self, bridge: &WakeBridge) -> (reported: Option<usize>)
        ensures
            poll_step(old(self).spec_last_seen(), reported, final(self).spec_last_seen()),
            final(self).spec_slot() == old(self).spec_slot(),
    {
        self.observe(bridge.ticks())
    }

    /// The second look of a poll, at `reading`, the value of the tick counter
    /// as read once the wake handle is registered: a reading newer than the
    /// last one seen is remembered and is to be reported, with the wake
    /// handle taken back; any other leaves the subscription to suspend.
    pub fn recheck(&mut self, reading: usize) -> (outcome: Recheck)
        ensures
            outcome == recheck_of(old(self).spec_last_seen(), reading),
            final(self).spec_last_seen() == if reading > old(self).spec_last_seen() {
                reading
            } else {
                old(self).spec_last_seen()
            },
            final(self).spec_slot() == old(self).spec_slot(),
    {
        match self.observe(reading) {
            Some(tick) => Recheck::ReportAndDeregister(tick),
            None => Recheck::Suspend,
        }
    }

    /// The second half of a poll, for when the first has reported nothing:
    /// registers `waker` in the subscription's slot and looks at the counter
    /// again. If a tick has fired in the meantime it is reported now, and the
    /// wake handle is taken back out of the slot. What the counter reads is
    /// the timer interrupt's to say; what follows from the reading is
    /// `recheck`'s.
    pub fn poll_registered(&mut self, bridge: &WakeBridge, waker: &Waker) -> (reported: Option<
        usize,
    >)
        ensures
            poll_step(old(self).spec_last_seen(), reported, final(self).spec_last_seen()),
            final(self).spec_slot() == old(self).spec_slot(),
    {
        let slot = self.slot();
        bridge.register(slot, waker);
        match self.recheck(bridge.ticks()) {
            Recheck::ReportAndDeregister(tick) => {
                bridge.deregister(slot);
                Some(tick)
            },
            Recheck::Suspend => None,
        }
    }

    /// Polls the subscription: reports the value of the tick counter if it is
    /// newer than the last value reported. Otherwise `waker` is left with the
    /// bridge, to be invoked by the next tick, and nothing is reported.
    pub fn poll_next(&mut self, bridge: &WakeBridge, waker: &Waker) -> (reported: Option<usize>)
        ensures
            poll_step(old(self).spec_last_seen(), reported, final(self).spec_last_seen()),
            final(self).spec_slot() == old(self).spec_slot(),
    {
        match self.poll_unregistered(bridge) {
            Some(tick) => Some(tick),
            None => self.poll_registered(bridge, waker),
        }
    }
}

} // verus!
