//! Temporal quantification: instants of the monotonic clock and the spans
//! between them.

use vstd::prelude::*;

verus! {

/// Nanoseconds in one second.
pub const NANOS_IN_ONE_SEC: i64 = 1_000_000_000;

/// Time, as the kernel hands it out.
#[allow(non_camel_case_types)]
#[derive(Clone, Copy, PartialEq, Eq, Structural, PartialOrd, Ord, Debug)]
pub struct timespec {
    /// Seconds.
    pub tv_sec: i64,
    /// Nanoseconds.
    pub tv_nsec: i64,
}

impl timespec {
    /// Order by seconds, then by nanoseconds.
    pub open spec fn spec_lt(self, other: timespec) -> bool {
        self.tv_sec < other.tv_sec || (self.tv_sec == other.tv_sec && self.tv_nsec
            < other.tv_nsec)
    }

    /// Whether `self` comes strictly before `other`.
    pub fn lt(&self, other: &timespec) -> (r: bool)
        ensures
            r == self.spec_lt(*other),
    {
        self.tv_sec < other.tv_sec || (self.tv_sec == other.tv_sec && self.tv_nsec
            < other.tv_nsec)
    }

    /// Whether the time is as the clock gives it.
    pub fn is_normal(&self) -> (r: bool)
        ensures
            r == self.normal(),
    {
        0 <= self.tv_sec && 0 <= self.tv_nsec && self.tv_nsec < 1_000_000_000
    }

    /// The time in nanoseconds.
    pub open spec fn nanos(self) -> int {
        self.tv_sec * 1_000_000_000 + self.tv_nsec
    }

    /// A time as the clock gives it: not negative, with less than a second's
    /// worth of nanoseconds.
    pub open spec fn normal(self) -> bool {
        0 <= self.tv_sec && 0 <= self.tv_nsec < 1_000_000_000
    }
}

/// Among normal times the order is that of the nanoseconds.
pub proof fn lemma_order_is_nanos(a: timespec, b: timespec)
    requires
        a.normal(),
        b.normal(),
    ensures
        a.spec_lt(b) <==> a.nanos() < b.nanos(),
        a == b <==> a.nanos() == b.nanos(),
{
    if a.tv_sec < b.tv_sec {
        assert(a.tv_sec * 1_000_000_000 + 1_000_000_000 <= b.tv_sec * 1_000_000_000);
    }
    if b.tv_sec < a.tv_sec {
        assert(b.tv_sec * 1_000_000_000 + 1_000_000_000 <= a.tv_sec * 1_000_000_000);
    }
}

/// Interval timer.
#[allow(non_camel_case_types)]
#[derive(Clone, Copy, PartialEq, Eq, Structural, Debug)]
pub struct itimerspec {
    /// Timer period.
    pub it_interval: timespec,
    /// Timer expiration.
    pub it_value: timespec,
}

/// A span of time: whole seconds and less than a second's worth of
/// nanoseconds.
#[derive(Clone, Copy, PartialEq, Eq, Structural, Debug)]
pub struct Duration {
    secs: u64,
    nanos: u32,
}

impl Duration {
    /// The whole seconds of the span.
    pub closed spec fn spec_secs(self) -> u64 {
        self.secs
    }

    /// The nanoseconds beyond the whole seconds.
    pub closed spec fn spec_subsec_nanos(self) -> u32 {
        self.nanos
    }

    /// The span in nanoseconds.
    pub open spec fn total(self) -> int {
        self.spec_secs() * 1_000_000_000 + self.spec_subsec_nanos()
    }

    /// A span of `secs` seconds and `nanos` nanoseconds. Nanoseconds beyond a
    /// second carry over into the seconds; `None` if the seconds then
    /// overflow.
    pub fn new(secs: u64, nanos: u32) -> (d: Option<Duration>)
        ensures
            secs + nanos / 1_000_000_000 <= u64::MAX <==> d is Some,
            d matches Some(dur) ==> dur.spec_secs() == secs + nanos / 1_000_000_000
                && dur.spec_subsec_nanos() == nanos % 1_000_000_000 && dur.total() == secs
                * 1_000_000_000 + nanos,
    {
        let carry: u64 = (nanos / 1_000_000_000) as u64;
        match secs.checked_add(carry) {
            Some(s) => Some(Duration { secs: s, nanos: nanos % 1_000_000_000 }),
            None => None,
        }
    }

    /// The empty span.
    pub fn zero() -> (d: Duration)
        ensures
            d.spec_secs() == 0,
            d.spec_subsec_nanos() == 0,
            d.total() == 0,
    {
        Duration { secs: 0, nanos: 0 }
    }

    /// The whole seconds of the span.
    pub fn as_secs(&self) -> (s: u64)
        ensures
            s == self.spec_secs(),
    {
        self.secs
    }

    /// The nanoseconds beyond the whole seconds.
    pub fn subsec_nanos(&self) -> (n: u32)
        ensures
            n == self.spec_subsec_nanos(),
    {
        self.nanos
    }
}

/// A measurement of a monotonically nondecreasing clock.
#[derive(Clone, Copy, PartialEq, Eq, Structural, PartialOrd, Ord, Debug)]
pub struct Instant {
    ts: timespec,
}

impl View for Instant {
    type V = timespec;

    closed spec fn view(&self) -> timespec {
        self.ts
    }
}

impl Instant {
    /// The instant that the clock gave as `ts`.
    pub fn from_timespec(ts: timespec) -> (i: Instant)
        ensures
            i@ == ts,
    {
        Instant { ts }
    }

    /// The instant as the kernel takes it.
    pub fn to_timespec(self) -> (ts: timespec)
        ensures
            ts == self@,
    {
        self.ts
    }

    /// Whether `self` comes strictly before `other`.
    pub fn lt(&self, other: &Instant) -> (r: bool)
        ensures
            r == self@.spec_lt(other@),
    {
        self.ts.lt(&other.ts)
    }

    /// Whether `self` is `other` or comes after it.
    pub fn ge(&self, other: &Instant) -> (r: bool)
        ensures
            r == !self@.spec_lt(other@),
    {
        !self.ts.lt(&other.ts)
    }

    /// The instant `dur` after `self`, where it can be represented.
    ///
    /// The seconds are added with a check, the nanoseconds wrapping; a sum of
    /// nanoseconds above one second carries into the seconds.
    pub open spec fn spec_checked_add(self, dur: Duration) -> Option<timespec> {
        let nanos = i64::wrapping_add(self@.tv_nsec, dur.spec_subsec_nanos() as i64);
        if dur.spec_secs() > i64::MAX || self@.tv_sec + dur.spec_secs() > i64::MAX {
            None
        } else if nanos > 1_000_000_000 {
            if self@.tv_sec + dur.spec_secs() + 1 > i64::MAX {
                None
            } else {
                Some(
                    timespec {
                        tv_sec: (self@.tv_sec + dur.spec_secs() + 1) as i64,
                        tv_nsec: (nanos - 1_000_000_000) as i64,
                    },
                )
            }
        } else {
            Some(timespec { tv_sec: (self@.tv_sec + dur.spec_secs()) as i64, tv_nsec: nanos })
        }
    }

    /// Returns `Some(t)` where `t` is the time `self + dur` if `t` can be
    /// represented, `None` otherwise.
    pub fn checked_add(&self, dur: Duration) -> (r: Option<Instant>)
        ensures
            self.spec_checked_add(dur) is Some <==> r is Some,
            r matches Some(t) ==> Some(t@) == self.spec_checked_add(dur),
            r matches Some(t) ==> self@.normal() ==> t@.nanos() == self@.nanos() + dur.total(),
    {
        if dur.secs > 0x7fff_ffff_ffff_ffff {
            return None;
        }
        let add: i64 = dur.secs as i64;
        let mut secs: i64 = match self.ts.tv_sec.checked_add(add) {
            Some(s) => s,
            None => {
                return None;
            },
        };
        let mut nanos: i64 = self.ts.tv_nsec.wrapping_add(dur.nanos as i64);
        if nanos > NANOS_IN_ONE_SEC {
            nanos -= NANOS_IN_ONE_SEC;
            secs = match secs.checked_add(1) {
                Some(s) => s,
                None => {
                    return None;
                },
            };
        }
        Some(Instant { ts: timespec { tv_sec: secs, tv_nsec: nanos } })
    }

    /// The instant `dur` after `self`.
    pub fn add(self, dur: Duration) -> (t: Instant)
        requires
            self.spec_checked_add(dur) is Some,
        ensures
            Some(t@) == self.spec_checked_add(dur),
    {
        match self.checked_add(dur) {
            Some(t) => t,
            None => self,
        }
    }

    /// The seconds and nanoseconds between `earlier` and `self`, before they
    /// are made a span: where `self` has the fewer nanoseconds, one second is
    /// taken as nanoseconds.
    pub open spec fn spec_elapsed(self, earlier: Instant) -> (int, int) {
        if self@.tv_nsec >= earlier@.tv_nsec {
            (self@.tv_sec - earlier@.tv_sec, self@.tv_nsec - earlier@.tv_nsec)
        } else {
            (
                self@.tv_sec - 1 - earlier@.tv_sec,
                self@.tv_nsec + 1_000_000_000 - earlier@.tv_nsec,
            )
        }
    }

    /// The span from `earlier` to `self` can be computed: `earlier` is later,
    /// or the differences of the seconds and of the nanoseconds fit their
    /// type and the span's seconds fit theirs.
    pub open spec fn measurable(self, earlier: Instant) -> bool {
        self@.spec_lt(earlier@) || {
            let (sec, nsec) = self.spec_elapsed(earlier);
            &&& self@.tv_nsec < earlier@.tv_nsec ==> i64::MIN <= self@.tv_sec - 1 && self@.tv_nsec
                + 1_000_000_000 <= i64::MAX
            &&& i64::MIN <= sec <= i64::MAX
            &&& i64::MIN <= nsec <= i64::MAX
            &&& ((sec as i64) as u64) + ((nsec as i64) as u32) / 1_000_000_000 <= u64::MAX
        }
    }

    /// Returns the amount of time elapsed from another instant to this one,
    /// or `None` if that instant is later than this one.
    ///
    /// The span has the seconds and nanoseconds of `spec_elapsed`, cut to
    /// the width of a span's fields, with whole seconds among the nanoseconds
    /// carried over. Between instants whose nanoseconds lie from 0 to one
    /// second, the span is the time from `earlier` to `self`.
    pub fn checked_duration_since(&self, earlier: Instant) -> (r: Option<Duration>)
        requires
            self.measurable(earlier),
        ensures
            r is None <==> self@.spec_lt(earlier@),
            r matches Some(d) ==> {
                let (sec, nsec) = self.spec_elapsed(earlier);
                &&& d.spec_secs() == ((sec as i64) as u64) + ((nsec as i64) as u32) / 1_000_000_000
                &&& d.spec_subsec_nanos() == ((nsec as i64) as u32) % 1_000_000_000
                &&& d.spec_subsec_nanos() < 1_000_000_000
            },
            r matches Some(d) ==> (0 <= self@.tv_nsec <= 1_000_000_000 && 0 <= earlier@.tv_nsec
                <= 1_000_000_000 ==> d.total() == self@.nanos() - earlier@.nanos()),
    {
        if self.ts.lt(&earlier.ts) {
            None
        } else {
            let (sec, nsec): (i64, i64) = if self.ts.tv_nsec >= earlier.ts.tv_nsec {
                (self.ts.tv_sec - earlier.ts.tv_sec, self.ts.tv_nsec - earlier.ts.tv_nsec)
            } else {
                (
                    self.ts.tv_sec - 1 - earlier.ts.tv_sec,
                    self.ts.tv_nsec + 1_000_000_000 - earlier.ts.tv_nsec,
                )
            };
            let secs: u64 = #[verifier::truncate]
            (sec as u64);
            let nanos: u32 = #[verifier::truncate]
            (nsec as u32);
            let d = Duration::new(secs, nanos);
            proof {
                if 0 <= self@.tv_nsec <= 1_000_000_000 && 0 <= earlier@.tv_nsec <= 1_000_000_000 {
                    assert(0 <= sec);
                    assert(0 <= nsec < 2_000_000_000);
                    assert(secs == sec);
                    assert(nanos == nsec);
                }
            }
            d
        }
    }

    /// Returns the amount of time elapsed from another instant to this one,
    /// or the empty span if that instant is later than this one.
    pub fn saturating_duration_since(&self, earlier: Instant) -> (d: Duration)
        requires
            self.measurable(earlier),
        ensures
            self@.spec_lt(earlier@) ==> d.spec_secs() == 0 && d.spec_subsec_nanos() == 0,
            !self@.spec_lt(earlier@) ==> {
                let (sec, nsec) = self.spec_elapsed(earlier);
                &&& d.spec_secs() == ((sec as i64) as u64) + ((nsec as i64) as u32) / 1_000_000_000
                &&& d.spec_subsec_nanos() == ((nsec as i64) as u32) % 1_000_000_000
            },
            d.spec_subsec_nanos() < 1_000_000_000,
            0 <= self@.tv_nsec <= 1_000_000_000 && 0 <= earlier@.tv_nsec <= 1_000_000_000 ==> d.total()
                == (if self@.spec_lt(earlier@) {
                0
            } else {
                self@.nanos() - earlier@.nanos()
            }),
    {
        match self.checked_duration_since(earlier) {
            Some(d) => d,
            None => Duration::zero(),
        }
    }

    /// Whether the span from `earlier` to `self` can be computed.
    pub fn is_measurable(&self, earlier: Instant) -> (r: bool)
        ensures
            r == self.measurable(earlier),
    {
        if self.ts.lt(&earlier.ts) {
            return true;
        }
        let (sec, nsec): (Option<i64>, Option<i64>) = if self.ts.tv_nsec >= earlier.ts.tv_nsec {
            (
                self.ts.tv_sec.checked_sub(earlier.ts.tv_sec),
                self.ts.tv_nsec.checked_sub(earlier.ts.tv_nsec),
            )
        } else {
            if self.ts.tv_sec == i64::MIN || self.ts.tv_nsec > i64::MAX - 1_000_000_000 {
                return false;
            }
            (
                (self.ts.tv_sec - 1).checked_sub(earlier.ts.tv_sec),
                (self.ts.tv_nsec + 1_000_000_000).checked_sub(earlier.ts.tv_nsec),
            )
        };
        match (sec, nsec) {
            (Some(sec), Some(nsec)) => {
                let secs: u64 = #[verifier::truncate]
                (sec as u64);
                let nanos: u32 = #[verifier::truncate]
                (nsec as u32);
                secs.checked_add((nanos / 1_000_000_000) as u64).is_some()
            },
            _ => false,
        }
    }
}

} // verus!
