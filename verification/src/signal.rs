//! Signal sets and the signals that stand for priorities.
//!
//! A signal set is the kernel's 64-bit word: signal `s` is bit `s - 1`. An
//! executor owns a contiguous range of real-time signals, given by the offsets
//! `start .. end` above `SIGRTMIN`. The runtime knows a priority by its level
//! on the executor, from 1 for the lowest priority in use to the length of
//! the range for the highest; level `l` is signalled by `SIGRTMIN + end - l`,
//! so that a higher priority has the lower signal number.

use vstd::prelude::*;
use core::ops::Range;
use crate::sys::SIGRTMIN;

verus! {

/// Whether `signo` is a member of `set`.
pub open spec fn member(set: u64, signo: int) -> bool {
    1 <= signo <= 64 && (set >> ((signo - 1) as u64)) & 1 == 1
}

/// The set that holds the `count` signals from `first` upwards.
pub open spec fn run(first: int, count: int) -> u64 {
    ((((1u64 << (count as u64)) - 1) as u64) << ((first - 1) as u64))
}

/// The set after `add` was blocked on top of `set`.
pub open spec fn blocked(set: u64, add: u64) -> u64 {
    set | add
}

/// The set after `remove` was unblocked from `set`.
pub open spec fn unblocked(set: u64, remove: u64) -> u64 {
    set & !remove
}

/// A range of signal offsets that an executor can own.
pub open spec fn valid_range(range: Range<u8>) -> bool {
    range.start <= range.end <= 32
}

/// How many levels the range serves.
pub open spec fn levels(range: Range<u8>) -> int {
    range.end - range.start
}

/// The signal number that dispatches the level `priority` on the executor
/// that owns `range`.
pub open spec fn signal_of(range: Range<u8>, priority: int) -> int {
    SIGRTMIN as int + range.end - priority
}

/// Whether `signo` is one of the executor's signals.
pub open spec fn owns(range: Range<u8>, signo: int) -> bool {
    SIGRTMIN as int + range.start <= signo < SIGRTMIN as int + range.end
}

/// The level that `signo` dispatches on the executor that owns `range`.
pub open spec fn priority_of(range: Range<u8>, signo: int) -> int {
    SIGRTMIN as int + range.end - signo
}

/// The executor's signal mask says that it runs at level `level`: of its own
/// signals, exactly those of the levels up to `level` are blocked.
pub open spec fn masked_at(set: u64, range: Range<u8>, level: int) -> bool {
    forall|s: int| owns(range, s) ==> (#[trigger] member(set, s) <==> priority_of(range, s) <= level)
}

/// The signal that the kernel delivers next: the lowest pending signal that
/// is not blocked.
pub open spec fn delivers(pending: u64, mask: u64, signo: int) -> bool {
    &&& member(pending, signo)
    &&& !member(mask, signo)
    &&& forall|s: int| member(pending, s) && !member(mask, s) ==> signo <= s
}

proof fn lemma_run_bits(count: u64, shift: u64, bit: u64)
    by (bit_vector)
    requires
        count <= 33,
        shift <= 63,
        count + shift <= 64,
        bit < 64,
    ensures
        ((((((1u64 << count) - 1) as u64) << shift) >> bit) & 1 == 1) <==> (shift <= bit < shift
            + count),
{
}

/// A run holds exactly the signals from `first` up to, but without,
/// `first + count`.
pub proof fn lemma_run(first: int, count: int, signo: int)
    requires
        1 <= first <= 64,
        0 <= count <= 33,
        first + count <= 65,
    ensures
        member(run(first, count), signo) <==> first <= signo < first + count,
{
    if 1 <= signo <= 64 {
        lemma_run_bits(count as u64, (first - 1) as u64, (signo - 1) as u64);
    }
}

proof fn lemma_or_bits(a: u64, b: u64, bit: u64)
    by (bit_vector)
    requires
        bit < 64,
    ensures
        (((a | b) >> bit) & 1 == 1) <==> (((a >> bit) & 1 == 1) || ((b >> bit) & 1 == 1)),
        (((a & !b) >> bit) & 1 == 1) <==> (((a >> bit) & 1 == 1) && !((b >> bit) & 1 == 1)),
{
}

/// Blocking adds the members of the second set, unblocking removes them.
pub proof fn lemma_blocked(set: u64, change: u64, signo: int)
    ensures
        member(blocked(set, change), signo) <==> member(set, signo) || member(change, signo),
        member(unblocked(set, change), signo) <==> member(set, signo) && !member(change, signo),
{
    if 1 <= signo <= 64 {
        lemma_or_bits(set, change, (signo - 1) as u64);
    }
}

} // verus!
