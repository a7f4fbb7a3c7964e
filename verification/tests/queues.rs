use linux_rtfm::spsc::FreeQueue;
use linux_rtfm::sys::SIGRTMIN;
use linux_rtfm::time::{itimerspec, timespec, Instant};
use linux_rtfm::tq::{Dequeued, NotReady, Raise, TimerQueue};

fn at(sec: i64, nsec: i64) -> Instant {
    Instant::from_timespec(timespec { tv_sec: sec, tv_nsec: nsec })
}

fn entry(sec: i64, index: u8, task: u8) -> NotReady {
    NotReady { index, instant: at(sec, 0), task }
}

#[test]
fn free_queue_is_first_in_first_out() {
    let mut q = FreeQueue::new();
    assert!(q.is_empty());
    assert_eq!(q.dequeue(), None);
    q.enqueue_unchecked(3);
    q.enqueue_unchecked(1);
    assert_eq!(q.enqueue(2), Ok(()));
    assert_eq!(q.len(), 3);
    assert_eq!(q.dequeue(), Some(3));
    assert_eq!(q.dequeue(), Some(1));
    assert_eq!(q.dequeue(), Some(2));
    assert_eq!(q.dequeue(), None);
    assert!(q.is_empty());
}

#[test]
fn free_queue_fill_enqueues_a_run_of_slots() {
    let mut q = FreeQueue::new();
    q.fill(4, 3);
    assert_eq!(q.len(), 3);
    assert_eq!(q.dequeue(), Some(4));
    assert_eq!(q.dequeue(), Some(5));
    assert_eq!(q.dequeue(), Some(6));
    assert_eq!(q.dequeue(), None);
    q.fill(9, 0);
    assert!(q.is_empty());
}

#[test]
fn free_queue_holds_two_hundred_fifty_five_slots() {
    let mut q = FreeQueue::new();
    q.fill(0, 255);
    assert_eq!(q.len(), 255);
    assert_eq!(q.enqueue(255), Err(255));
    assert_eq!(q.len(), 255);
    for i in 0..255u8 {
        assert_eq!(q.dequeue(), Some(i));
    }
    assert_eq!(q.dequeue(), None);
}

#[test]
fn timer_queue_starts_empty() {
    let mut q = TimerQueue::new(4);
    assert_eq!(q.capacity(), 4);
    assert_eq!(q.len(), 0);
    assert_eq!(q.dequeue(at(100, 0)), Dequeued::Empty);
}

#[test]
fn enqueue_into_an_empty_queue_raises_the_timer_signal() {
    let mut q = TimerQueue::new(4);
    let r = q.enqueue_unchecked(entry(10, 0, 0), None, 2);
    assert_eq!(r, Some(Raise { tgid_tid: None, sig: SIGRTMIN + 2 }));
    assert_eq!(q.len(), 1);
}

#[test]
fn enqueue_of_a_later_instant_leaves_the_timer() {
    let mut q = TimerQueue::new(4);
    q.enqueue_unchecked(entry(10, 0, 0), None, 2);
    assert_eq!(q.enqueue_unchecked(entry(11, 1, 0), None, 2), None);
    assert_eq!(q.enqueue_unchecked(entry(10, 2, 0), None, 2), None);
    assert_eq!(q.len(), 3);
}

#[test]
fn enqueue_of_an_earlier_instant_raises_the_timer_signal() {
    let mut q = TimerQueue::new(4);
    q.enqueue_unchecked(entry(10, 0, 0), Some((7, 8)), 1);
    let r = q.enqueue_unchecked(entry(9, 1, 0), Some((7, 8)), 1);
    assert_eq!(r, Some(Raise { tgid_tid: Some((7, 8)), sig: SIGRTMIN + 1 }));
}

#[test]
fn checked_enqueue_hands_the_entry_back_when_full() {
    let mut q = TimerQueue::new(1);
    assert_eq!(
        q.enqueue(entry(10, 0, 0), None, 0),
        Ok(Some(Raise { tgid_tid: None, sig: SIGRTMIN }))
    );
    assert_eq!(q.enqueue(entry(5, 1, 0), None, 0), Err(entry(5, 1, 0)));
    assert_eq!(q.len(), 1);
    let mut none = TimerQueue::new(0);
    assert_eq!(none.enqueue(entry(1, 0, 0), None, 0), Err(entry(1, 0, 0)));
}

#[test]
fn dequeue_rearms_while_the_head_lies_in_the_future() {
    let mut q = TimerQueue::new(4);
    q.enqueue_unchecked(NotReady { index: 3, instant: at(10, 500), task: 1 }, None, 0);
    let expected = Dequeued::Rearm {
        setting: itimerspec {
            it_interval: timespec { tv_sec: 0, tv_nsec: 0 },
            it_value: timespec { tv_sec: 10, tv_nsec: 500 },
        },
    };
    assert_eq!(q.dequeue(at(10, 499)), expected);
    assert_eq!(q.dequeue(at(10, 499)), expected);
    assert_eq!(q.len(), 1);
    assert_eq!(q.dequeue(at(10, 500)), Dequeued::Ready { task: 1, index: 3 });
    assert_eq!(q.len(), 0);
    assert_eq!(q.dequeue(at(10, 500)), Dequeued::Empty);
}

#[test]
fn entries_leave_by_instant() {
    let mut q = TimerQueue::new(8);
    for (sec, index) in [(30, 0u8), (10, 1), (20, 2), (40, 3), (10, 4)] {
        q.enqueue_unchecked(entry(sec, index, 9), None, 0);
    }
    let mut order = vec![];
    loop {
        match q.dequeue(at(100, 0)) {
            Dequeued::Ready { task, index } => {
                assert_eq!(task, 9);
                order.push(index);
            }
            Dequeued::Empty => break,
            Dequeued::Rearm { .. } => unreachable!(),
        }
    }
    assert_eq!(order, vec![1, 4, 2, 0, 3]);
}

#[test]
fn drain_stops_at_the_first_entry_in_the_future() {
    let mut q = TimerQueue::new(8);
    q.enqueue_unchecked(entry(1, 0, 0), None, 0);
    q.enqueue_unchecked(entry(2, 1, 1), None, 0);
    q.enqueue_unchecked(entry(5, 2, 2), None, 0);
    assert_eq!(q.dequeue(at(3, 0)), Dequeued::Ready { task: 0, index: 0 });
    assert_eq!(q.dequeue(at(3, 0)), Dequeued::Ready { task: 1, index: 1 });
    match q.dequeue(at(3, 0)) {
        Dequeued::Rearm { setting } => assert_eq!(setting.it_value.tv_sec, 5),
        other => panic!("{:?}", other),
    }
}

#[test]
fn drain_takes_what_is_ready_and_arms_for_the_rest() {
    let mut q = TimerQueue::new(8);
    for (sec, index) in [(30, 0u8), (10, 1), (20, 2), (40, 3), (10, 4)] {
        q.enqueue_unchecked(entry(sec, index, index + 10), None, 0);
    }
    let d = q.drain(at(20, 0));
    let entries: Vec<NotReady> = d.ready.iter().map(|l| l.entry).collect();
    assert_eq!(entries, vec![entry(10, 1, 11), entry(10, 4, 14), entry(20, 2, 12)]);
    let orders: Vec<u64> = d.ready.iter().map(|l| l.order).collect();
    assert_eq!(orders, vec![1, 4, 2]);
    assert_eq!(
        d.rearm,
        Some(itimerspec {
            it_interval: timespec { tv_sec: 0, tv_nsec: 0 },
            it_value: timespec { tv_sec: 30, tv_nsec: 0 },
        })
    );
    assert_eq!(q.len(), 2);
    let d = q.drain(at(20, 0));
    assert!(d.ready.is_empty());
    assert_eq!(d.rearm.unwrap().it_value.tv_sec, 30);
    let d = q.drain(at(50, 0));
    let entries: Vec<NotReady> = d.ready.iter().map(|l| l.entry).collect();
    assert_eq!(entries, vec![entry(30, 0, 10), entry(40, 3, 13)]);
    assert_eq!(d.rearm, None);
    assert_eq!(q.len(), 0);
    let d = q.drain(at(50, 0));
    assert!(d.ready.is_empty());
    assert_eq!(d.rearm, None);
}

#[test]
fn entries_of_one_instant_leave_in_the_order_they_came() {
    let mut q = TimerQueue::new(8);
    for index in [5u8, 1, 7, 0, 3] {
        q.enqueue_unchecked(entry(10, index, 0), None, 0);
    }
    q.enqueue_unchecked(entry(9, 6, 0), None, 0);
    assert_eq!(q.issued(), 6);
    assert_eq!(q.dequeue(at(10, 0)), Dequeued::Ready { task: 0, index: 6 });
    for index in [5u8, 1, 7] {
        assert_eq!(q.dequeue(at(10, 0)), Dequeued::Ready { task: 0, index });
    }
    // an entry that comes later goes behind those that wait
    q.enqueue_unchecked(entry(10, 2, 0), None, 0);
    let d = q.drain(at(10, 0));
    let slots: Vec<u8> = d.ready.iter().map(|l| l.entry.index).collect();
    assert_eq!(slots, vec![0, 3, 2]);
    assert_eq!(q.issued(), 7);
}

#[test]
fn timer_queue_takes_up_to_its_capacity() {
    let mut q = TimerQueue::new(255);
    for i in 0..255u8 {
        q.enqueue_unchecked(entry(1000 - i as i64, i, 0), None, 0);
    }
    assert_eq!(q.len(), 255);
    assert_eq!(q.dequeue(at(0, 0)), Dequeued::Rearm {
        setting: itimerspec {
            it_interval: timespec { tv_sec: 0, tv_nsec: 0 },
            it_value: timespec { tv_sec: 746, tv_nsec: 0 },
        },
    });
    assert_eq!(q.dequeue(at(2000, 0)), Dequeued::Ready { task: 0, index: 254 });
}
