use linux_rtfm::time::{timespec, Duration, Instant};

fn at(sec: i64, nsec: i64) -> Instant {
    Instant::from_timespec(timespec { tv_sec: sec, tv_nsec: nsec })
}

#[test]
fn duration_new_carries_nanoseconds() {
    let d = Duration::new(1, 2_500_000_000).unwrap();
    assert_eq!(d.as_secs(), 3);
    assert_eq!(d.subsec_nanos(), 500_000_000);
    assert_eq!(Duration::new(u64::MAX, 1_000_000_000), None);
    let d = Duration::new(u64::MAX, 999_999_999).unwrap();
    assert_eq!(d.as_secs(), u64::MAX);
    assert_eq!(Duration::zero().as_secs(), 0);
    assert_eq!(Duration::zero().subsec_nanos(), 0);
}

#[test]
fn timespec_orders_by_seconds_then_nanoseconds() {
    let a = timespec { tv_sec: 1, tv_nsec: 999 };
    let b = timespec { tv_sec: 2, tv_nsec: 0 };
    let c = timespec { tv_sec: 2, tv_nsec: 1 };
    assert!(a.lt(&b));
    assert!(b.lt(&c));
    assert!(!c.lt(&b));
    assert!(!a.lt(&a));
    assert!(a < b && b < c);
}

#[test]
fn normal_times_have_less_than_a_second_of_nanoseconds() {
    assert!(timespec { tv_sec: 0, tv_nsec: 0 }.is_normal());
    assert!(timespec { tv_sec: 5, tv_nsec: 999_999_999 }.is_normal());
    assert!(!timespec { tv_sec: 5, tv_nsec: 1_000_000_000 }.is_normal());
    assert!(!timespec { tv_sec: -1, tv_nsec: 0 }.is_normal());
    assert!(!timespec { tv_sec: 1, tv_nsec: -1 }.is_normal());
}

#[test]
fn instant_comparisons() {
    assert!(at(1, 0).lt(&at(1, 1)));
    assert!(!at(1, 1).lt(&at(1, 1)));
    assert!(at(1, 1).ge(&at(1, 1)));
    assert!(at(2, 0).ge(&at(1, 999_999_999)));
    assert!(!at(1, 0).ge(&at(1, 1)));
}

#[test]
fn checked_add_adds_seconds_and_nanoseconds() {
    let t = at(10, 100).checked_add(Duration::new(1, 5).unwrap()).unwrap();
    assert_eq!(t.to_timespec(), timespec { tv_sec: 11, tv_nsec: 105 });
}

#[test]
fn checked_add_carries_above_one_second() {
    let t = at(10, 600_000_000).checked_add(Duration::new(0, 500_000_000).unwrap()).unwrap();
    assert_eq!(t.to_timespec(), timespec { tv_sec: 11, tv_nsec: 100_000_000 });
}

#[test]
fn checked_add_keeps_a_sum_of_exactly_one_second() {
    let t = at(10, 500_000_000).checked_add(Duration::new(0, 500_000_000).unwrap()).unwrap();
    assert_eq!(t.to_timespec(), timespec { tv_sec: 10, tv_nsec: 1_000_000_000 });
}

#[test]
fn checked_add_fails_where_the_seconds_overflow() {
    assert_eq!(at(i64::MAX, 0).checked_add(Duration::new(1, 0).unwrap()), None);
    assert_eq!(at(0, 0).checked_add(Duration::new(u64::MAX, 0).unwrap()), None);
    assert_eq!(
        at(i64::MAX, 999_999_999).checked_add(Duration::new(0, 2).unwrap()),
        None
    );
    assert!(at(i64::MAX, 0).checked_add(Duration::new(0, 1).unwrap()).is_some());
}

#[test]
fn add_is_checked_add() {
    let t = at(1, 2).add(Duration::new(3, 4).unwrap());
    assert_eq!(t, at(4, 6));
}

#[test]
fn checked_duration_since_subtracts() {
    let d = at(5, 100).checked_duration_since(at(3, 50)).unwrap();
    assert_eq!((d.as_secs(), d.subsec_nanos()), (2, 50));
    let d = at(5, 100).checked_duration_since(at(3, 200)).unwrap();
    assert_eq!((d.as_secs(), d.subsec_nanos()), (1, 999_999_900));
    let d = at(5, 100).checked_duration_since(at(5, 100)).unwrap();
    assert_eq!((d.as_secs(), d.subsec_nanos()), (0, 0));
}

#[test]
fn checked_duration_since_takes_what_checked_add_gives() {
    // half a second after 10.5 s the nanoseconds stand at one second
    let sum = at(10, 500_000_000).checked_add(Duration::new(0, 500_000_000).unwrap()).unwrap();
    assert!(sum.is_measurable(at(10, 0)));
    let d = sum.checked_duration_since(at(10, 0)).unwrap();
    assert_eq!((d.as_secs(), d.subsec_nanos()), (1, 0));
    let d = sum.checked_duration_since(at(10, 999_999_999)).unwrap();
    assert_eq!((d.as_secs(), d.subsec_nanos()), (0, 1));
    // instants before the clock's origin
    let d = at(-1, 0).checked_duration_since(at(-3, 500_000_000)).unwrap();
    assert_eq!((d.as_secs(), d.subsec_nanos()), (1, 500_000_000));
    assert_eq!(at(-3, 0).checked_duration_since(at(-1, 0)), None);
    assert!(at(-3, 0).is_measurable(at(-1, 0)));
}

#[test]
fn spans_that_do_not_fit_are_not_measurable() {
    assert!(!at(i64::MAX, 0).is_measurable(at(-1, 0)));
    assert!(at(i64::MAX, 0).is_measurable(at(0, 0)));
    assert!(!at(0, i64::MAX).is_measurable(at(0, -1)));
    assert!(at(3, 100).is_measurable(at(1, 200)));
    let d = at(3, 100).checked_duration_since(at(1, 200)).unwrap();
    assert_eq!((d.as_secs(), d.subsec_nanos()), (1, 999_999_900));
}

#[test]
fn checked_duration_since_a_later_instant_is_none() {
    assert_eq!(at(3, 0).checked_duration_since(at(3, 1)), None);
    assert_eq!(at(2, 999_999_999).checked_duration_since(at(3, 0)), None);
}

#[test]
fn saturating_duration_since_is_zero_for_a_later_instant() {
    let d = at(3, 0).saturating_duration_since(at(4, 0));
    assert_eq!((d.as_secs(), d.subsec_nanos()), (0, 0));
    let d = at(4, 5).saturating_duration_since(at(3, 0));
    assert_eq!((d.as_secs(), d.subsec_nanos()), (1, 5));
}

#[test]
fn periodic_schedule_advances_by_one_second() {
    // a task that reschedules itself one second after the instant it was
    // scheduled for runs at 1 s, 2 s and 3 s after the start
    let start = at(100, 250);
    let second = Duration::new(1, 0).unwrap();
    let mut scheduled = start.checked_add(second).unwrap();
    let mut count = 0;
    let mut seen = vec![];
    while count < 3 {
        seen.push(scheduled.saturating_duration_since(start).as_secs());
        count += 1;
        scheduled = scheduled.checked_add(second).unwrap();
    }
    assert_eq!(seen, vec![1, 2, 3]);
}
