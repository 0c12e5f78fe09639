use std::sync::atomic::AtomicUsize;
use std::sync::atomic::Ordering;
use std::sync::Arc;
use std::task::Wake;
use std::task::Waker;
use toy_os::task::time::slot_for;
use toy_os::task::time::Recheck;
use toy_os::task::time::SlotCounter;
use toy_os::task::time::TickStream;
use toy_os::task::time::WakeBridge;
use toy_os::task::time::TIMER_WAKER_SLOTS;

struct Alarm {
    rung: AtomicUsize,
}

impl Wake for Alarm {
    fn wake(self: Arc<Self>) {
        self.rung.fetch_add(1, Ordering::SeqCst);
    }
}

fn alarm() -> (Arc<Alarm>, Waker) {
    let alarm = Arc::new(Alarm { rung: AtomicUsize::new(0) });
    let waker = Waker::from(alarm.clone());
    (alarm, waker)
}

fn rung(alarm: &Arc<Alarm>) -> usize {
    alarm.rung.load(Ordering::SeqCst)
}

#[test]
fn bridge_starts_at_zero_and_counts_every_tick() {
    let bridge = WakeBridge::new();
    assert_eq!(bridge.ticks(), 0);
    bridge.tick();
    assert_eq!(bridge.ticks(), 1);
    bridge.tick();
    bridge.tick();
    assert_eq!(bridge.ticks(), 3);
}

#[test]
fn pool_has_four_slots() {
    assert_eq!(TIMER_WAKER_SLOTS, 4);
}

#[test]
fn slots_are_dealt_round_robin() {
    let mut counter = SlotCounter::new();
    let slots: Vec<usize> = (0..9).map(|_| counter.claim_slot()).collect();
    assert_eq!(slots, vec![0, 1, 2, 3, 0, 1, 2, 3, 0]);
}

#[test]
fn slot_for_is_the_ticket_modulo_the_pool_size() {
    assert_eq!(slot_for(0), 0);
    assert_eq!(slot_for(3), 3);
    assert_eq!(slot_for(4), 0);
    assert_eq!(slot_for(6), 2);
    assert_eq!(slot_for(usize::MAX), usize::MAX % 4);
}

#[test]
fn subscriptions_claim_successive_slots() {
    let bridge = WakeBridge::new();
    let mut slots = SlotCounter::new();
    let streams: Vec<TickStream> =
        (0..5).map(|_| TickStream::new(&mut slots, &bridge)).collect();
    let slots: Vec<usize> = streams.iter().map(|stream| stream.slot()).collect();
    assert_eq!(slots, vec![0, 1, 2, 3, 0]);
}

#[test]
fn subscription_starts_from_now() {
    let bridge = WakeBridge::new();
    bridge.tick();
    bridge.tick();
    let mut stream = TickStream::new(&mut SlotCounter::new(), &bridge);
    assert_eq!(stream.last_seen(), 2);
    let (alarm, waker) = alarm();
    assert_eq!(stream.poll_next(&bridge, &waker), None);
    assert_eq!(rung(&alarm), 0);
}

#[test]
fn subscription_keeps_its_slot() {
    let bridge = WakeBridge::new();
    let mut slots = SlotCounter::new();
    let _ = TickStream::new(&mut slots, &bridge);
    let mut stream = TickStream::new(&mut slots, &bridge);
    let (_alarm, waker) = alarm();
    assert_eq!(stream.slot(), 1);
    assert_eq!(stream.poll_next(&bridge, &waker), None);
    bridge.tick();
    assert_eq!(stream.poll_next(&bridge, &waker), Some(1));
    assert_eq!(stream.slot(), 1);
}

#[test]
fn fast_path_reports_without_registering() {
    let bridge = WakeBridge::new();
    let mut stream = TickStream::new(&mut SlotCounter::new(), &bridge);
    bridge.tick();
    let (alarm, waker) = alarm();
    assert_eq!(stream.poll_next(&bridge, &waker), Some(1));
    assert_eq!(stream.last_seen(), 1);
    bridge.tick();
    assert_eq!(rung(&alarm), 0);
}

#[test]
fn pending_poll_registers_and_the_next_tick_wakes() {
    let bridge = WakeBridge::new();
    let mut stream = TickStream::new(&mut SlotCounter::new(), &bridge);
    let (alarm, waker) = alarm();
    assert_eq!(stream.poll_next(&bridge, &waker), None);
    assert_eq!(stream.last_seen(), 0);
    assert_eq!(rung(&alarm), 0);
    bridge.tick();
    assert_eq!(rung(&alarm), 1);
    assert_eq!(stream.poll_next(&bridge, &waker), Some(1));
}

#[test]
fn a_wake_handle_is_invoked_once_per_registration() {
    let bridge = WakeBridge::new();
    let mut stream = TickStream::new(&mut SlotCounter::new(), &bridge);
    let (alarm, waker) = alarm();
    assert_eq!(stream.poll_next(&bridge, &waker), None);
    bridge.tick();
    bridge.tick();
    assert_eq!(rung(&alarm), 1);
    assert_eq!(stream.poll_next(&bridge, &waker), Some(2));
}

#[test]
fn reported_ticks_strictly_increase() {
    let bridge = WakeBridge::new();
    let mut stream = TickStream::new(&mut SlotCounter::new(), &bridge);
    let (_alarm, waker) = alarm();
    let mut reported: Vec<usize> = Vec::new();
    for round in 0..20 {
        if round % 3 != 0 {
            bridge.tick();
        }
        if round % 5 == 0 {
            bridge.tick();
        }
        if let Some(tick) = stream.poll_next(&bridge, &waker) {
            reported.push(tick);
        }
        if let Some(tick) = stream.poll_next(&bridge, &waker) {
            reported.push(tick);
        }
    }
    assert!(reported.len() > 1);
    for pair in reported.windows(2) {
        assert!(pair[0] < pair[1]);
    }
    assert_eq!(*reported.last().unwrap(), bridge.ticks());
}

#[test]
fn a_tick_is_reported_once() {
    let bridge = WakeBridge::new();
    let mut stream = TickStream::new(&mut SlotCounter::new(), &bridge);
    let (_alarm, waker) = alarm();
    bridge.tick();
    assert_eq!(stream.poll_next(&bridge, &waker), Some(1));
    assert_eq!(stream.poll_next(&bridge, &waker), None);
    assert_eq!(stream.poll_next(&bridge, &waker), None);
}

#[test]
fn several_ticks_between_polls_are_reported_as_the_latest() {
    let bridge = WakeBridge::new();
    let mut stream = TickStream::new(&mut SlotCounter::new(), &bridge);
    let (_alarm, waker) = alarm();
    bridge.tick();
    bridge.tick();
    bridge.tick();
    assert_eq!(stream.poll_next(&bridge, &waker), Some(3));
    assert_eq!(stream.last_seen(), 3);
}

#[test]
fn observe_reports_only_newer_readings() {
    let bridge = WakeBridge::new();
    bridge.tick();
    bridge.tick();
    let mut stream = TickStream::new(&mut SlotCounter::new(), &bridge);
    assert_eq!(stream.observe(2), None);
    assert_eq!(stream.observe(1), None);
    assert_eq!(stream.last_seen(), 2);
    assert_eq!(stream.observe(3), Some(3));
    assert_eq!(stream.last_seen(), 3);
    assert_eq!(stream.observe(3), None);
    assert_eq!(stream.observe(10), Some(10));
    assert_eq!(stream.observe(9), None);
    assert_eq!(stream.last_seen(), 10);
}

#[test]
fn tick_between_check_and_registration_is_seen_on_the_same_poll() {
    let bridge = WakeBridge::new();
    let mut stream = TickStream::new(&mut SlotCounter::new(), &bridge);
    let (alarm, waker) = alarm();
    // The first look finds nothing new.
    assert_eq!(stream.poll_unregistered(&bridge), None);
    // The timer interrupt fires before the wake handle is in its slot.
    bridge.tick();
    assert_eq!(rung(&alarm), 0);
    // Registration looks again and reports the tick on this very poll.
    assert_eq!(stream.poll_registered(&bridge, &waker), Some(1));
    assert_eq!(stream.last_seen(), 1);
    // The wake handle was taken back out: the next tick wakes nobody.
    bridge.tick();
    assert_eq!(rung(&alarm), 0);
}

#[test]
fn registration_without_a_tick_leaves_the_handle_in_place() {
    let bridge = WakeBridge::new();
    let mut stream = TickStream::new(&mut SlotCounter::new(), &bridge);
    let (alarm, waker) = alarm();
    assert_eq!(stream.poll_unregistered(&bridge), None);
    assert_eq!(stream.poll_registered(&bridge, &waker), None);
    assert_eq!(stream.last_seen(), 0);
    bridge.tick();
    assert_eq!(rung(&alarm), 1);
    assert_eq!(stream.poll_unregistered(&bridge), Some(1));
}

#[test]
fn tick_wakes_every_slot() {
    let bridge = WakeBridge::new();
    let mut slots = SlotCounter::new();
    let mut waiting: Vec<(TickStream, Arc<Alarm>, Waker)> = Vec::new();
    for _ in 0..4 {
        let (alarm, waker) = alarm();
        waiting.push((TickStream::new(&mut slots, &bridge), alarm, waker));
    }
    for (stream, _, waker) in waiting.iter_mut() {
        assert_eq!(stream.poll_next(&bridge, waker), None);
    }
    bridge.tick();
    for (_, alarm, _) in waiting.iter() {
        assert_eq!(rung(alarm), 1);
    }
    bridge.tick();
    for (_, alarm, _) in waiting.iter() {
        assert_eq!(rung(alarm), 1);
    }
    for (stream, _, waker) in waiting.iter_mut() {
        assert_eq!(stream.poll_next(&bridge, waker), Some(2));
    }
}

#[test]
fn tick_with_empty_slots_only_counts() {
    let bridge = WakeBridge::new();
    bridge.tick();
    assert_eq!(bridge.ticks(), 1);
}

#[test]
fn tasks_that_share_a_slot_miss_no_tick() {
    let bridge = WakeBridge::new();
    let mut slots = SlotCounter::new();
    let mut first = TickStream::new(&mut slots, &bridge);
    for _ in 0..3 {
        let _ = TickStream::new(&mut slots, &bridge);
    }
    let mut fifth = TickStream::new(&mut slots, &bridge);
    assert_eq!(first.slot(), fifth.slot());
    let (first_alarm, first_waker) = alarm();
    let (fifth_alarm, fifth_waker) = alarm();

    assert_eq!(first.poll_next(&bridge, &first_waker), None);
    assert_eq!(rung(&first_alarm), 0);
    // The second task takes over the slot; the first is woken to come back.
    assert_eq!(fifth.poll_next(&bridge, &fifth_waker), None);
    assert_eq!(rung(&first_alarm), 1);
    assert_eq!(rung(&fifth_alarm), 0);

    bridge.tick();
    assert_eq!(rung(&fifth_alarm), 1);
    assert_eq!(first.poll_next(&bridge, &first_waker), Some(1));
    assert_eq!(fifth.poll_next(&bridge, &fifth_waker), Some(1));
}

#[test]
fn a_task_that_comes_back_to_a_shared_slot_wakes_the_other() {
    let bridge = WakeBridge::new();
    let mut slots = SlotCounter::new();
    let mut first = TickStream::new(&mut slots, &bridge);
    for _ in 0..3 {
        let _ = TickStream::new(&mut slots, &bridge);
    }
    let mut fifth = TickStream::new(&mut slots, &bridge);
    let (first_alarm, first_waker) = alarm();
    let (fifth_alarm, fifth_waker) = alarm();
    assert_eq!(first.poll_next(&bridge, &first_waker), None);
    assert_eq!(fifth.poll_next(&bridge, &fifth_waker), None);
    assert_eq!(first.poll_next(&bridge, &first_waker), None);
    assert_eq!(rung(&fifth_alarm), 1);
    bridge.tick();
    assert_eq!(rung(&first_alarm), 2);
    assert_eq!(first.poll_next(&bridge, &first_waker), Some(1));
    assert_eq!(fifth.poll_next(&bridge, &fifth_waker), Some(1));
}

#[test]
fn registering_the_same_handle_again_wakes_nobody() {
    let bridge = WakeBridge::new();
    let mut stream = TickStream::new(&mut SlotCounter::new(), &bridge);
    let (alarm, waker) = alarm();
    assert_eq!(stream.poll_next(&bridge, &waker), None);
    assert_eq!(stream.poll_next(&bridge, &waker), None);
    assert_eq!(stream.poll_next(&bridge, &waker.clone()), None);
    assert_eq!(rung(&alarm), 0);
    bridge.tick();
    assert_eq!(rung(&alarm), 1);
}

#[test]
fn more_subscriptions_than_slots_share_slots() {
    let bridge = WakeBridge::new();
    let mut slots = SlotCounter::new();
    let first = TickStream::new(&mut slots, &bridge);
    for _ in 0..3 {
        let _ = TickStream::new(&mut slots, &bridge);
    }
    let fifth = TickStream::new(&mut slots, &bridge);
    assert_eq!(first.slot(), fifth.slot());
}

#[test]
fn a_subscription_starts_from_the_reading_it_is_given() {
    let mut slots = SlotCounter::new();
    let mut stream = TickStream::from_reading(&mut slots, 41);
    assert_eq!(stream.last_seen(), 41);
    assert_eq!(stream.slot(), 0);
    assert_eq!(stream.observe(41), None);
    assert_eq!(stream.observe(42), Some(42));
    let second = TickStream::from_reading(&mut slots, 0);
    assert_eq!(second.last_seen(), 0);
    assert_eq!(second.slot(), 1);
    let latest = TickStream::from_reading(&mut slots, usize::MAX);
    assert_eq!(latest.last_seen(), usize::MAX);
    assert_eq!(latest.slot(), 2);
}

#[test]
fn a_new_subscription_starts_from_the_present_tick() {
    let bridge = WakeBridge::new();
    for _ in 0..7 {
        bridge.tick();
    }
    let mut slots = SlotCounter::new();
    let mut stream = TickStream::new(&mut slots, &bridge);
    assert_eq!(stream.last_seen(), 7);
    assert_eq!(stream.poll_unregistered(&bridge), None);
    bridge.tick();
    assert_eq!(stream.poll_unregistered(&bridge), Some(8));
}

#[test]
fn recheck_reports_a_newer_reading_and_asks_for_the_handle_back() {
    let mut stream = TickStream::from_reading(&mut SlotCounter::new(), 5);
    assert_eq!(stream.recheck(5), Recheck::Suspend);
    assert_eq!(stream.recheck(4), Recheck::Suspend);
    assert_eq!(stream.last_seen(), 5);
    assert_eq!(stream.recheck(6), Recheck::ReportAndDeregister(6));
    assert_eq!(stream.last_seen(), 6);
    assert_eq!(stream.recheck(6), Recheck::Suspend);
    assert_eq!(stream.recheck(9), Recheck::ReportAndDeregister(9));
    assert_eq!(stream.last_seen(), 9);
}

#[test]
fn a_tick_between_the_two_looks_is_reported_by_the_second() {
    // The first look reads 3 and finds nothing new; the timer fires; the
    // second look reads 4.
    let mut stream = TickStream::from_reading(&mut SlotCounter::new(), 3);
    assert_eq!(stream.observe(3), None);
    assert_eq!(stream.last_seen(), 3);
    assert_eq!(stream.recheck(4), Recheck::ReportAndDeregister(4));
    assert_eq!(stream.last_seen(), 4);
}
