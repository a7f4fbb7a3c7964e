use linux_rtfm::slots::Slots;
use linux_rtfm::tq::{Dequeued, Raise, TimerQueue};
use linux_rtfm::time::{timespec, Instant};

fn at(sec: i64) -> Instant {
    Instant::from_timespec(timespec { tv_sec: sec, tv_nsec: 0 })
}

#[test]
fn queue_full_hands_the_input_back() {
    // a task with capacity 1 is spawned twice without yielding
    let mut slots: Slots<String> = Slots::new(1, 1);
    assert_eq!(slots.spawn(0, String::from("first"), None), Ok(0));
    assert_eq!(
        slots.spawn(0, String::from("second"), None),
        Err(String::from("second"))
    );
    // after the first completes a third spawn succeeds
    let (input, _) = slots.dispatch(0, 0);
    assert_eq!(input, "first");
    assert_eq!(slots.spawn(0, String::from("third"), None), Ok(0));
}

#[test]
fn the_spawn_after_capacity_many_fails() {
    let mut slots: Slots<u32> = Slots::new(3, 2);
    for (n, slot) in [(10u32, 3u8), (11, 4), (12, 5)] {
        assert_eq!(slots.spawn(1, n, None), Ok(slot));
    }
    assert_eq!(slots.available(1), 0);
    assert_eq!(slots.spawn(1, 13, None), Err(13));
    // the other sender has its own slots
    assert_eq!(slots.available(0), 3);
    assert_eq!(slots.spawn(0, 20, None), Ok(0));
}

#[test]
fn slots_round_trip() {
    let mut slots: Slots<(u8, u8)> = Slots::new(4, 1);
    for round in 0..10u8 {
        let a = slots.spawn(0, (round, 0), None).unwrap();
        let b = slots.spawn(0, (round, 1), None).unwrap();
        assert_ne!(a, b);
        assert_eq!(slots.available(0), 2);
        assert_eq!(slots.dispatch(0, a).0, (round, 0));
        assert_eq!(slots.dispatch(0, b).0, (round, 1));
        assert_eq!(slots.available(0), 4);
    }
}

#[test]
fn slots_are_taken_in_the_order_they_were_freed() {
    let mut slots: Slots<u8> = Slots::new(3, 1);
    assert_eq!(slots.spawn(0, 1, None), Ok(0));
    assert_eq!(slots.spawn(0, 2, None), Ok(1));
    assert_eq!(slots.dispatch(0, 1).0, 2);
    assert_eq!(slots.dispatch(0, 0).0, 1);
    assert_eq!(slots.spawn(0, 3, None), Ok(2));
    assert_eq!(slots.spawn(0, 4, None), Ok(1));
    assert_eq!(slots.spawn(0, 5, None), Ok(0));
    assert_eq!(slots.spawn(0, 6, None), Err(6));
}

#[test]
fn the_instant_travels_with_the_input() {
    let mut slots: Slots<u8> = Slots::new(2, 1);
    let a = slots.spawn(0, 7, Some(at(5))).unwrap();
    let b = slots.spawn(0, 8, Some(at(6))).unwrap();
    assert_eq!(slots.dispatch(0, b), (8, at(6)));
    assert_eq!(slots.dispatch(0, a), (7, at(5)));
}

#[test]
fn a_task_without_capacity_cannot_be_spawned() {
    let mut slots: Slots<u8> = Slots::new(0, 1);
    assert_eq!(slots.available(0), 0);
    assert_eq!(slots.spawn(0, 1, None), Err(1));
}

#[test]
fn the_largest_task_has_two_hundred_fifty_five_slots() {
    let mut slots: Slots<u8> = Slots::new(255, 1);
    for i in 0..255u8 {
        assert_eq!(slots.spawn(0, i, None), Ok(i));
    }
    assert_eq!(slots.spawn(0, 0, None), Err(0));
    for i in 0..255u8 {
        assert_eq!(slots.dispatch(0, i).0, i);
    }
    assert_eq!(slots.available(0), 255);
}

#[test]
fn try_dispatch_finds_the_sender_of_a_slot() {
    let mut slots: Slots<u8> = Slots::new(2, 3);
    assert_eq!(slots.slots_per_sender(), 2);
    assert_eq!(slots.sender_count(), 3);
    assert_eq!(slots.spawn(2, 7, Some(at(9))), Ok(4));
    assert_eq!(slots.spawn(2, 8, None), Ok(5));
    assert_eq!(slots.try_dispatch(3), None);
    assert_eq!(slots.try_dispatch(6), None);
    assert_eq!(slots.try_dispatch(255), None);
    assert_eq!(slots.try_dispatch(4), Some((7, at(9))));
    assert_eq!(slots.try_dispatch(4), None);
    assert_eq!(slots.available(2), 1);
    // the slot went back to the queue of sender 2, behind nothing
    assert_eq!(slots.spawn(2, 9, None), Ok(4));
    assert_eq!(slots.available(0), 2);
    let mut none: Slots<u8> = Slots::new(0, 0);
    assert_eq!(none.try_dispatch(0), None);
}

#[test]
fn send_queues_the_signal_that_names_the_slot() {
    let mut slots: Slots<u8> = Slots::new(2, 2);
    let q = slots.send(1, 9, None, 100, Some(101), 3, 7).unwrap();
    assert_eq!(q.tgid, 100);
    assert_eq!(q.tid, Some(101));
    assert_eq!(q.sig, 35);
    assert_eq!(q.info.si_code, -1);
    assert_eq!(q.info.si_value, 0x0702);
    let q = slots.send(1, 10, None, 100, None, 0, 0).unwrap();
    assert_eq!(q.info.si_value, 3);
    assert_eq!(slots.send(1, 11, None, 100, None, 0, 0), Err(11));
    assert_eq!(slots.try_dispatch(2), Some((9, at(0))));
    assert_eq!(slots.try_dispatch(3), Some((10, at(0))));
}

#[test]
fn schedule_takes_a_slot_and_queues_the_entry() {
    let mut slots: Slots<&str> = Slots::new(2, 1);
    let mut tq = TimerQueue::new(2);
    let raise = slots.schedule(&mut tq, 0, "late", at(20), true, 5, None, 1).unwrap();
    assert_eq!(raise, Some(Raise { tgid_tid: None, sig: 33 }));
    let raise = slots.schedule(&mut tq, 0, "early", at(10), true, 6, Some((1, 2)), 1).unwrap();
    assert_eq!(raise, Some(Raise { tgid_tid: Some((1, 2)), sig: 33 }));
    assert_eq!(tq.len(), 2);
    assert_eq!(slots.available(0), 0);
    assert_eq!(tq.dequeue(at(30)), Dequeued::Ready { task: 6, index: 1 });
    assert_eq!(slots.try_dispatch(1), Some(("early", at(10))));
    assert_eq!(tq.dequeue(at(30)), Dequeued::Ready { task: 5, index: 0 });
    assert_eq!(slots.try_dispatch(0), Some(("late", at(20))));
}

#[test]
fn schedule_without_a_free_slot_changes_nothing() {
    let mut slots: Slots<String> = Slots::new(1, 1);
    let mut tq = TimerQueue::new(4);
    assert!(slots.schedule(&mut tq, 0, String::from("a"), at(20), true, 0, None, 0).is_ok());
    let issued = tq.issued();
    assert_eq!(
        slots.schedule(&mut tq, 0, String::from("b"), at(10), true, 0, None, 0),
        Err(String::from("b"))
    );
    assert_eq!(tq.len(), 1);
    assert_eq!(tq.issued(), issued);
    // the entry that is in the queue is the first one
    assert_eq!(tq.dequeue(at(30)), Dequeued::Ready { task: 0, index: 0 });
    assert_eq!(slots.try_dispatch(0), Some((String::from("a"), at(20))));
}

#[test]
fn schedule_can_leave_the_instants_alone() {
    let mut slots: Slots<u8> = Slots::new(1, 1);
    let mut tq = TimerQueue::new(1);
    slots.spawn(0, 1, Some(at(7))).unwrap();
    slots.dispatch(0, 0);
    assert!(slots.schedule(&mut tq, 0, 2, at(20), false, 0, None, 0).is_ok());
    assert_eq!(slots.try_dispatch(0), Some((2, at(7))));
}

#[test]
fn after_any_number_of_cycles_all_slots_are_free() {
    let mut slots: Slots<u32> = Slots::new(4, 2);
    let mut pending: Vec<(u8, u32)> = vec![];
    let mut n = 0u32;
    for round in 0..50usize {
        // spawn a few, then run some of them, oldest or newest first by turns
        for _ in 0..(round % 4) + 1 {
            n += 1;
            if let Ok(index) = slots.spawn(1, n, None) {
                pending.push((index, n));
            }
        }
        while pending.len() > round % 3 {
            let (index, input) =
                if round % 2 == 0 { pending.remove(0) } else { pending.pop().unwrap() };
            assert_eq!(slots.dispatch(1, index).0, input);
        }
    }
    while let Some((index, input)) = pending.pop() {
        assert_eq!(slots.dispatch(1, index).0, input);
    }
    assert_eq!(slots.available(1), 4);
    assert_eq!(slots.available(0), 4);
    // every slot of the sender is there once
    let mut free: Vec<u8> = (0..4).map(|i| slots.spawn(1, i, None).unwrap()).collect();
    free.sort();
    assert_eq!(free, vec![4, 5, 6, 7]);
    assert_eq!(slots.spawn(1, 0, None), Err(0));
}
