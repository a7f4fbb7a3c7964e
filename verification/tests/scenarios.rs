use linux_rtfm::export::{
    decode, enqueue, lock, register, restore, unmask, Delivery, Priority,
};
use linux_rtfm::slots::Slots;
use linux_rtfm::sys::SIGRTMIN;
use linux_rtfm::time::{timespec, Duration, Instant};
use linux_rtfm::tq::{Dequeued, NotReady, TimerQueue};

/// The pending signals of one executor, as the kernel keeps them: one queue
/// of payloads per signal number.
struct Pending {
    queues: Vec<Vec<usize>>,
}

impl Pending {
    fn new() -> Self {
        Pending { queues: vec![vec![]; 65] }
    }

    fn queue(&mut self, sig: i32, value: usize) {
        self.queues[sig as usize].push(value);
    }

    /// The lowest pending signal that `mask` does not block.
    fn deliver(&mut self, mask: u64) -> Option<(i32, usize)> {
        for sig in 1..65i32 {
            if mask & (1u64 << (sig - 1)) == 0 && !self.queues[sig as usize].is_empty() {
                return Some((sig, self.queues[sig as usize].remove(0)));
            }
        }
        None
    }
}

fn at(sec: i64) -> Instant {
    Instant::from_timespec(timespec { tv_sec: sec, tv_nsec: 0 })
}

#[test]
fn spawn_once() {
    // init spawns foo(42); the dispatcher of foo's priority gets 42
    let mut slots: Slots<u32> = Slots::new(1, 1);
    let mut pending = Pending::new();
    let index = slots.spawn(0, 42, None).unwrap();
    let q = enqueue(1000, None, 0, 0, index);
    pending.queue(q.sig, q.info.si_value);
    // init runs with the signals blocked
    let blocked = 1u64 << (SIGRTMIN - 1);
    assert_eq!(pending.deliver(blocked), None);
    let (sig, value) = pending.deliver(0).unwrap();
    assert_eq!(sig, SIGRTMIN);
    let info = linux_rtfm::export::siginfo_t { si_code: q.info.si_code, si_value: value };
    match decode(&info, false) {
        Delivery::Task { task: 0, index } => assert_eq!(slots.dispatch(0, index).0, 42),
        other => panic!("{:?}", other),
    }
    assert_eq!(pending.deliver(0), None);
}

#[test]
fn the_higher_priority_is_dispatched_first() {
    // both tasks are spawned while the signals are blocked, the lower one first
    let range = 0u8..2;
    let low = register(range.clone(), 1);
    let high = register(range, 2);
    let mut pending = Pending::new();
    pending.queue(low.sig, 1);
    pending.queue(high.sig, 2);
    let all = (1u64 << (low.sig - 1)) | (1u64 << (high.sig - 1));
    assert_eq!(pending.deliver(all), None);
    assert_eq!(pending.deliver(0), Some((high.sig, 2)));
    assert_eq!(pending.deliver(0), Some((low.sig, 1)));
}

#[test]
fn nested_lock_runs_the_preemptor_first_and_the_peer_after_the_section() {
    // foo (priority 1) locks a resource with ceiling 2, spawns bar (priority 2)
    // and baz (priority 3)
    let range = 0u8..3;
    let foo = register(range.clone(), 1);
    let bar = register(range.clone(), 2);
    let baz = register(range.clone(), 3);
    let bit = |sig: i32| 1u64 << (sig - 1);
    let mut pending = Pending::new();
    let mut order = vec!["B"];
    // in foo's handler: its own signal and the mask it was registered with
    let mut mask = bit(foo.sig) | foo.sa_mask;
    let mut priority = Priority::new(1);
    let raised = lock(&mut priority, 2, range.clone()).unwrap();
    mask = raised.change.apply(mask);
    pending.queue(bar.sig, 0);
    assert_eq!(pending.deliver(mask), None);
    order.push("C");
    pending.queue(baz.sig, 0);
    // baz preempts inside the section
    assert_eq!(pending.deliver(mask), Some((baz.sig, 0)));
    order.push("D");
    assert_eq!(pending.deliver(mask), None);
    mask = unmask(raised, 2, range).apply(mask);
    assert_eq!(priority.get(), 2);
    restore(&mut priority, raised);
    // bar runs as soon as the section is left
    assert_eq!(pending.deliver(mask), Some((bar.sig, 0)));
    order.push("E");
    order.push("F");
    assert_eq!(order, vec!["B", "C", "D", "E", "F"]);
    assert_eq!(priority.get(), 1);
}

#[test]
fn periodic_schedule_runs_three_times() {
    // init schedules foo for now + 1 s; foo reschedules itself for one second
    // after the instant it was scheduled for, three times in all
    let second = Duration::new(1, 0).unwrap();
    let start = at(100);
    let mut tq = TimerQueue::new(1);
    let mut slots: Slots<()> = Slots::new(1, 1);
    let schedule = |tq: &mut TimerQueue, slots: &mut Slots<()>, instant: Instant| {
        let index = slots.spawn(0, (), Some(instant)).unwrap();
        tq.enqueue_unchecked(NotReady { index, instant, task: 0 }, None, 0)
    };
    assert!(schedule(&mut tq, &mut slots, start.checked_add(second).unwrap()).is_some());
    let mut count = 0;
    let mut ran_at = vec![];
    let mut now = start;
    while count < 3 {
        match tq.dequeue(now) {
            Dequeued::Rearm { setting } => {
                // the timer fires at the head's instant
                now = Instant::from_timespec(setting.it_value);
            }
            Dequeued::Ready { task: 0, index } => {
                let ((), scheduled) = slots.dispatch(0, index);
                ran_at.push(scheduled.saturating_duration_since(start).as_secs());
                count += 1;
                if count < 3 {
                    schedule(&mut tq, &mut slots, scheduled.checked_add(second).unwrap());
                }
            }
            other => panic!("{:?}", other),
        }
    }
    assert_eq!(ran_at, vec![1, 2, 3]);
    assert_eq!(tq.dequeue(now), Dequeued::Empty);
}

#[test]
fn cross_core_spawn_queues_for_the_thread_of_the_other_core() {
    // ping on core 0 spawns pong on core 1, three times
    let mut pong: Slots<u8> = Slots::new(1, 1);
    let mut core1 = Pending::new();
    let mut seen = vec![];
    for round in 0..3u8 {
        let index = pong.spawn(0, round, None).unwrap();
        let q = enqueue(500, Some(501), 1, 0, index);
        assert_eq!(q.tid, Some(501));
        assert_eq!(q.sig, SIGRTMIN + 1);
        core1.queue(q.sig, q.info.si_value);
        let (_, value) = core1.deliver(0).unwrap();
        let info = linux_rtfm::export::siginfo_t { si_code: q.info.si_code, si_value: value };
        if let Delivery::Task { index, .. } = decode(&info, false) {
            seen.push(pong.dispatch(0, index).0);
        }
    }
    assert_eq!(seen, vec![0, 1, 2]);
}

#[test]
fn equal_priorities_are_dispatched_in_the_order_of_their_spawns() {
    let mut slots: Slots<&str> = Slots::new(3, 1);
    let mut pending = Pending::new();
    for name in ["first", "second", "third"] {
        let index = slots.spawn(0, name, None).unwrap();
        let q = enqueue(1, None, 0, 0, index);
        pending.queue(q.sig, q.info.si_value);
    }
    let mut order = vec![];
    while let Some((_, value)) = pending.deliver(0) {
        let info = linux_rtfm::export::siginfo_t { si_code: -1, si_value: value };
        if let Delivery::Task { index, .. } = decode(&info, false) {
            order.push(slots.dispatch(0, index).0);
        }
    }
    assert_eq!(order, vec!["first", "second", "third"]);
}

#[test]
fn schedules_for_one_instant_run_in_the_order_of_their_calls() {
    // the second call holds the lower slot and still runs second
    let mut tq = TimerQueue::new(2);
    tq.enqueue_unchecked(NotReady { index: 4, instant: at(10), task: 0 }, None, 0);
    tq.enqueue_unchecked(NotReady { index: 1, instant: at(10), task: 0 }, None, 0);
    assert_eq!(tq.dequeue(at(10)), Dequeued::Ready { task: 0, index: 4 });
    assert_eq!(tq.dequeue(at(10)), Dequeued::Ready { task: 0, index: 1 });
}
