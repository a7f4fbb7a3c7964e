//! The runtime that generated code calls: the priority cell, the
//! priority-ceiling lock, and the requests that the bootstrap, `spawn` and the
//! dispatchers hand to the kernel.
//!
//! Every function here computes what is to be asked of the kernel and leaves
//! the asking to its caller.

use vstd::prelude::*;
use core::ops::Range;
use crate::signal::{
    blocked, lemma_blocked, lemma_run, levels, masked_at, member, owns, priority_of, run, signal_of,
    unblocked, valid_range,
};
use crate::sys::{
    CLONE_SIGHAND, CLONE_THREAD, CLONE_VM, MAP_ANONYMOUS, MAP_GROWSDOWN, MAP_PRIVATE,
    MAP_UNINITIALIZED, PROT_READ, PROT_WRITE, SA_RESTORER, SA_SIGINFO, SCHED_FIFO, SIGEV_SIGNAL,
    SIGEV_THREAD_ID, SIGRTMIN, SIG_BLOCK, SIG_UNBLOCK, SI_QUEUE, CLOCK_MONOTONIC,
};

verus! {

/// Size of a page.
pub const PAGE_SIZE: u64 = 4096;

/// Size of the stack of an executor's thread: 8 MiB.
pub const STACK_SIZE: u64 = 8388608;

/// The process identifier that stands for the calling process.
pub const OURSELVES: i32 = 0;

/// The dynamic priority of an executor. Only the executor's own thread reads
/// and writes it.
pub struct Priority {
    inner: u8,
}

impl View for Priority {
    type V = u8;

    closed spec fn view(&self) -> u8 {
        self.inner
    }
}

impl Priority {
    /// A cell that holds `value`.
    pub fn new(value: u8) -> (p: Self)
        ensures
            p@ == value,
    {
        Priority { inner: value }
    }

    /// Replaces the priority.
    pub fn set(&mut self, value: u8)
        ensures
            final(self)@ == value,
    {
        self.inner = value;
    }

    /// The current priority.
    pub fn get(&self) -> (value: u8)
        ensures
            value == self@,
    {
        self.inner
    }
}

/// A change of the calling thread's signal mask.
#[derive(Clone, Copy, PartialEq, Eq, Structural, Debug)]
pub struct MaskChange {
    /// `SIG_BLOCK` or `SIG_UNBLOCK`.
    pub how: i32,
    /// The signals to block or unblock.
    pub set: u64,
}

impl MaskChange {
    /// The mask that results from the change.
    pub open spec fn spec_apply(self, mask: u64) -> u64 {
        if self.how == SIG_BLOCK {
            mask | self.set
        } else {
            mask & !self.set
        }
    }

    /// What the kernel makes of `mask` when it is asked for this change.
    pub fn apply(self, mask: u64) -> (r: u64)
        ensures
            r == self.spec_apply(mask),
    {
        if self.how == SIG_BLOCK {
            mask | self.set
        } else {
            mask & !self.set
        }
    }
}

/// What the bootstrap asks of the kernel before anything else runs.
#[derive(Clone, Copy, Debug)]
pub struct Startup {
    /// The CPU set to pin the process to: CPU 0.
    pub affinity: [u64; 8],
    /// The scheduling policy.
    pub policy: i32,
    /// The priority within the policy.
    pub sched_priority: i32,
    /// The real-time signals to block, if the application uses any.
    pub block: Option<MaskChange>,
}

/// The mask change behind `mask`: the signals of the priorities above
/// `current` and up to `ceiling`.
pub open spec fn spec_mask(range: Range<u8>, current: u8, ceiling: u8, block: bool) -> MaskChange {
    MaskChange {
        how: if block {
            SIG_BLOCK
        } else {
            SIG_UNBLOCK
        },
        set: run(signal_of(range, ceiling as int), ceiling - current),
    }
}

/// Prepares the runtime: pin to CPU 0, switch to the first-in, first-out
/// policy at priority 1, and block every real-time signal up to offset
/// `signo_max`.
pub fn init_runtime(signo_max: Option<u8>) -> (s: Startup)
    requires
        signo_max matches Some(signo) ==> signo < 32,
    ensures
        s.affinity@ == seq![1u64, 0u64, 0u64, 0u64, 0u64, 0u64, 0u64, 0u64],
        s.policy == SCHED_FIFO,
        s.sched_priority == 1,
        signo_max is None ==> s.block is None,
        signo_max matches Some(signo) ==> s.block == Some(
            MaskChange { how: SIG_BLOCK, set: run(SIGRTMIN as int, signo + 1) },
        ),
        signo_max matches Some(signo) ==> forall|n: int|
            (#[trigger] member(s.block->0.set, n) <==> SIGRTMIN <= n <= SIGRTMIN + signo),
{
    let affinity: [u64; 8] = set_affinity(OURSELVES, 0).mask;
    assert(1u64 << 0u64 == 1u64) by (bit_vector);
    let block = match signo_max {
        Some(signo) => {
            let count: u64 = signo as u64 + 1;
            assert((1u64 << count) >= 1) by (bit_vector)
                requires
                    count <= 32,
            ;
            let set: u64 = ((1u64 << count) - 1) << 31u64;
            proof {
                assert forall|n: int| #[trigger]
                    member(set, n) <==> SIGRTMIN <= n <= SIGRTMIN + signo by {
                    lemma_run(SIGRTMIN as int, signo + 1, n);
                }
            }
            Some(MaskChange { how: SIG_BLOCK, set })
        },
        None => None,
    };
    Startup { affinity, policy: SCHED_FIFO, sched_priority: 1, block }
}

/// The memory mapping and the thread that a new executor needs.
#[derive(Clone, Copy, PartialEq, Eq, Structural, Debug)]
pub struct Spawn {
    /// Length of the stack's mapping.
    pub length: u64,
    /// Protection of the mapping.
    pub prot: u64,
    /// Flags of the mapping.
    pub map_flags: u64,
    /// File descriptor of the mapping: none.
    pub fd: u64,
    /// Flags of the new thread.
    pub clone_flags: u64,
}

impl Spawn {
    /// The stack grows downwards, so the new thread starts at the highest
    /// address of the mapping.
    pub fn stack_high(&self, stack_low: u64) -> (high: Option<u64>)
        ensures
            stack_low + self.length <= u64::MAX ==> high == Some((stack_low + self.length) as u64),
            stack_low + self.length > u64::MAX ==> high is None,
    {
        stack_low.checked_add(self.length)
    }
}

/// What to ask for to start the thread of another executor: an anonymous,
/// private, readable and writable mapping of 8 MiB that grows downwards, and a
/// thread that shares memory, thread group and signal handlers with its parent.
pub fn spawn() -> (s: Spawn)
    ensures
        s == (Spawn {
            length: STACK_SIZE,
            prot: 0x3,
            map_flags: 0x4000122,
            fd: u64::MAX,
            clone_flags: 0x10900,
        }),
{
    assert(PROT_READ | PROT_WRITE == 0x3) by (bit_vector);
    assert(MAP_ANONYMOUS | MAP_PRIVATE | MAP_GROWSDOWN | MAP_UNINITIALIZED == 0x4000122)
        by (bit_vector);
    assert(CLONE_VM | CLONE_THREAD | CLONE_SIGHAND == 0x10900) by (bit_vector);
    assert(!0u64 == u64::MAX) by (bit_vector);
    Spawn {
        length: STACK_SIZE,
        prot: PROT_READ | PROT_WRITE,
        map_flags: MAP_ANONYMOUS | MAP_PRIVATE | MAP_GROWSDOWN | MAP_UNINITIALIZED,
        fd: !0u64,
        clone_flags: CLONE_VM | CLONE_THREAD | CLONE_SIGHAND,
    }
}

/// A request to pin a thread to one CPU.
#[derive(Clone, Copy, Debug)]
pub struct Affinity {
    /// The thread.
    pub tid: i32,
    /// The CPU set.
    pub mask: [u64; 8],
}

/// Pins thread `tid` to the CPU of executor `core`: the CPU set holds that
/// CPU alone.
pub fn set_affinity(tid: i32, core: u8) -> (a: Affinity)
    requires
        core < 64,
    ensures
        a.tid == tid,
        a.mask@ == seq![1u64 << (core as u64), 0u64, 0u64, 0u64, 0u64, 0u64, 0u64, 0u64],
        forall|cpu: u64| cpu < 64 ==> ((#[trigger] (a.mask@[0] >> cpu)) & 1 == 1 <==> cpu == core),
{
    let first: u64 = 1u64 << (core as u64);
    proof {
        let c: u64 = core as u64;
        assert forall|cpu: u64| cpu < 64 implies ((#[trigger] (first >> cpu)) & 1 == 1 <==> cpu
            == c) by {
            assert(((1u64 << c) >> cpu) & 1 == 1 <==> cpu == c) by (bit_vector)
                requires
                    c < 64,
                    cpu < 64,
            ;
        }
    }
    let mask: [u64; 8] = [first, 0, 0, 0, 0, 0, 0, 0];
    assert(mask@ =~= seq![first, 0u64, 0u64, 0u64, 0u64, 0u64, 0u64, 0u64]);
    Affinity { tid, mask }
}

/// Signal event: how a timer notifies.
#[allow(non_camel_case_types)]
#[derive(Clone, Copy, PartialEq, Eq, Structural, Debug)]
pub struct sigevent {
    /// Data passed with the notification.
    pub sigev_value: i32,
    /// Notification signal.
    pub sigev_signo: i32,
    /// Notification method.
    pub sigev_notify: i32,
    /// The thread to signal.
    pub sigev_tid: i32,
}

/// A request for a per-process timer.
#[derive(Clone, Copy, PartialEq, Eq, Structural, Debug)]
pub struct TimerRequest {
    /// The clock that the timer runs on.
    pub clock: i32,
    /// The timer's notification.
    pub event: sigevent,
}

/// The timer of an executor: it runs on the monotonic clock and fires the
/// signal at offset `signo` with a payload of zero. In a multi-core
/// application it notifies the executor's thread `tid`, in a single-core one
/// the process.
pub fn timer_create(tid: Option<i32>, signo: u8) -> (t: TimerRequest)
    ensures
        t.clock == CLOCK_MONOTONIC,
        t.event.sigev_value == 0,
        t.event.sigev_signo == SIGRTMIN + signo,
        tid matches Some(id) ==> t.event.sigev_notify == SIGEV_THREAD_ID && t.event.sigev_tid
            == id,
        tid is None ==> t.event.sigev_notify == SIGEV_SIGNAL && t.event.sigev_tid == 0,
{
    let (sigev_notify, sigev_tid): (i32, i32) = match tid {
        Some(id) => (SIGEV_THREAD_ID, id),
        None => (SIGEV_SIGNAL, 0),
    };
    TimerRequest {
        clock: CLOCK_MONOTONIC,
        event: sigevent {
            sigev_value: 0,
            sigev_signo: SIGRTMIN + signo as i32,
            sigev_notify,
            sigev_tid,
        },
    }
}

/// An entered critical section: what `unmask` and `restore` need to leave it.
#[derive(Clone, Copy, PartialEq, Eq, Structural, Debug)]
pub struct Raised {
    /// The priority before the section was entered.
    pub previous: u8,
    /// The signals to block for the length of the section.
    pub change: MaskChange,
}

/// Enters the critical section of a resource with priority ceiling `ceiling`
/// on the executor that owns `range`. The cell and the ceiling hold levels:
/// priorities as the runtime knows them, from 0 for `idle` up to the number
/// of signals in the range.
///
/// Below the ceiling the priority is raised to it, and the result holds the
/// signals to block: those of the priorities above the current one and up to
/// the ceiling. The priority cell is written before the caller changes the
/// mask. At or above the ceiling nothing changes and the result is `None`.
pub fn lock(priority: &mut Priority, ceiling: u8, range: Range<u8>) -> (r: Option<Raised>)
    requires
        valid_range(range),
        ceiling <= levels(range),
    ensures
        old(priority)@ < ceiling ==> final(priority)@ == ceiling && r == Some(
            Raised {
                previous: old(priority)@,
                change: spec_mask(range, old(priority)@, ceiling, true),
            },
        ),
        old(priority)@ >= ceiling ==> final(priority)@ == old(priority)@ && r is None,
{
    let current: u8 = priority.get();
    if current < ceiling {
        priority.set(ceiling);
        let change = mask(range, current, ceiling, true);
        Some(Raised { previous: current, change })
    } else {
        None
    }
}

/// The first step of leaving the critical section that `lock` entered: the
/// signals to unblock, the same that were blocked. The priority cell is left
/// alone: it holds the ceiling for as long as the signals are blocked.
pub fn unmask(raised: Raised, ceiling: u8, range: Range<u8>) -> (m: MaskChange)
    requires
        valid_range(range),
        raised.previous <= ceiling <= levels(range),
    ensures
        m == spec_mask(range, raised.previous, ceiling, false),
        m.set == spec_mask(range, raised.previous, ceiling, true).set,
{
    mask(range, raised.previous, ceiling, false)
}

/// The last step of leaving the critical section: once the caller has
/// unblocked the signals, the priority cell gets its previous value back.
pub fn restore(priority: &mut Priority, raised: Raised)
    ensures
        final(priority)@ == raised.previous,
{
    priority.set(raised.previous);
}

/// The mask change that moves an executor between the levels `current` and
/// `ceiling`: it blocks, or unblocks, exactly the signals of the executor's
/// levels above `current` and up to `ceiling`.
pub fn mask(range: Range<u8>, current: u8, ceiling: u8, block: bool) -> (m: MaskChange)
    requires
        valid_range(range),
        current <= ceiling <= levels(range),
    ensures
        m == spec_mask(range, current, ceiling, block),
        forall|s: int| #[trigger]
            member(m.set, s) <==> owns(range, s) && current < priority_of(range, s) <= ceiling,
{
    let len: u8 = range.end.wrapping_sub(range.start);
    let count: u64 = (ceiling - current) as u64;
    let shift: u64 = 31 + (range.start + len - ceiling) as u64;
    assert((1u64 << count) >= 1) by (bit_vector)
        requires
            count <= 32,
    ;
    let set: u64 = ((1u64 << count) - 1) << shift;
    proof {
        assert forall|s: int| #[trigger]
            member(set, s) <==> owns(range, s) && current < priority_of(range, s) <= ceiling by {
            lemma_run(signal_of(range, ceiling as int), ceiling - current, s);
        }
    }
    MaskChange { how: if block { SIG_BLOCK } else { SIG_UNBLOCK }, set }
}

/// Signal information: the part of it that carries a spawned task.
#[allow(non_camel_case_types)]
#[derive(Clone, Copy, PartialEq, Eq, Structural, Debug)]
pub struct siginfo_t {
    /// Signal info code.
    pub si_code: i32,
    /// User data.
    pub si_value: usize,
}

/// The payload of a queued signal: the task's tag in the high byte, the slot
/// of its input in the low byte.
pub open spec fn spec_payload(task: u8, index: u8) -> usize {
    (task * 256 + index) as usize
}

/// A signal to queue for an executor.
#[derive(Clone, Copy, PartialEq, Eq, Structural, Debug)]
pub struct Queued {
    /// The process.
    pub tgid: i32,
    /// The executor's thread in a multi-core application; `None` queues the
    /// signal for the process.
    pub tid: Option<i32>,
    /// The signal number.
    pub sig: i32,
    /// The signal's information.
    pub info: siginfo_t,
}

/// Makes task `task` ready with the input in slot `index`: a queued signal at
/// offset `signo` whose payload names both.
pub fn enqueue(tgid: i32, tid: Option<i32>, signo: u8, task: u8, index: u8) -> (q: Queued)
    ensures
        q == (Queued {
            tgid,
            tid,
            sig: (SIGRTMIN + signo) as i32,
            info: siginfo_t { si_code: SI_QUEUE, si_value: spec_payload(task, index) },
        }),
        decoded(q.info.si_value) == (task, index),
{
    let high: usize = task as usize;
    assert(high << 8 == high * 256) by (bit_vector)
        requires
            high < 256,
    ;
    let si_value: usize = (high << 8) + index as usize;
    Queued {
        tgid,
        tid,
        sig: SIGRTMIN + signo as i32,
        info: siginfo_t { si_code: SI_QUEUE, si_value },
    }
}

/// The task tag and the slot that a payload names.
pub open spec fn decoded(si_value: usize) -> (u8, u8) {
    (((si_value / 256) % 256) as u8, (si_value % 256) as u8)
}

/// What woke a dispatcher.
#[derive(Clone, Copy, PartialEq, Eq, Structural, Debug)]
pub enum Delivery {
    /// A task was spawned: its tag and the slot of its input.
    Task { task: u8, index: u8 },
    /// The executor's timer fired.
    Timer,
}

/// Reads a delivered signal in a dispatcher. A dispatcher that shares its
/// priority with the timer queue (`shares_timer`) tells a spawn from the timer
/// by the signal's code; any other dispatcher decodes the payload.
pub fn decode(info: &siginfo_t, shares_timer: bool) -> (d: Delivery)
    ensures
        shares_timer && info.si_code != SI_QUEUE ==> d == Delivery::Timer,
        !shares_timer || info.si_code == SI_QUEUE ==> d == (Delivery::Task {
            task: decoded(info.si_value).0,
            index: decoded(info.si_value).1,
        }),
{
    if shares_timer && info.si_code != SI_QUEUE {
        Delivery::Timer
    } else {
        let v: usize = info.si_value;
        assert(((v >> 8) & 0xff) == (v / 256) % 256) by (bit_vector);
        assert((v & 0xff) == v % 256) by (bit_vector);
        let task: u8 = ((v >> 8) & 0xff) as u8;
        let index: u8 = (v & 0xff) as u8;
        Delivery::Task { task, index }
    }
}

/// The registration of a dispatcher as a signal handler.
#[derive(Clone, Copy, PartialEq, Eq, Structural, Debug)]
pub struct Registration {
    /// The signal to handle.
    pub sig: i32,
    /// The action's flags.
    pub sa_flags: u64,
    /// The signals to block while the handler runs, besides its own.
    pub sa_mask: u64,
}

/// Registers the dispatcher of the level that has level `level` on the
/// executor that owns `range`. It handles the signal of that level, takes the
/// signal's information and a restorer, and blocks the signals of all lower
/// levels of the executor while it runs; the kernel blocks the handler's own
/// signal.
pub fn register(range: Range<u8>, level: u8) -> (r: Registration)
    requires
        valid_range(range),
        1 <= level <= levels(range),
    ensures
        r.sig == signal_of(range, level as int),
        r.sa_flags == 0x4000004,
        r.sa_mask == run(signal_of(range, level as int) + 1, level - 1),
        forall|s: int| #[trigger]
            member(r.sa_mask, s) <==> owns(range, s) && priority_of(range, s) < level,
{
    let len: u8 = range.end.wrapping_sub(range.start);
    let n: u64 = len as u64;
    let p: u64 = level as u64;
    let start: u64 = range.start as u64;
    assert((1u64 << n) >= 1) by (bit_vector)
        requires
            n <= 32,
    ;
    let all: u64 = (1u64 << n) - 1;
    let sa_mask: u64 = (all ^ (all >> (p - 1))) << (start + 31);
    proof {
        assert(sa_mask == ((((1u64 << ((p - 1) as u64)) - 1) as u64) << ((start + n - p + 32)
            as u64))) by (bit_vector)
            requires
                1 <= p <= n,
                n <= 32,
                start + n <= 32,
                all == ((1u64 << n) - 1) as u64,
                sa_mask == (all ^ (all >> ((p - 1) as u64))) << ((start + 31) as u64),
        ;
        assert forall|s: int| #[trigger]
            member(sa_mask, s) <==> owns(range, s) && priority_of(range, s) < level by {
            lemma_run(signal_of(range, level as int) + 1, level - 1, s);
        }
        assert(SA_RESTORER | SA_SIGINFO == 0x4000004) by (bit_vector);
    }
    Registration {
        sig: SIGRTMIN + range.end.wrapping_sub(level) as i32,
        sa_flags: SA_RESTORER | SA_SIGINFO,
        sa_mask,
    }
}

/// The mask change of `mask` holds exactly the signals of the executor's
/// priorities above `current` and up to `ceiling`.
pub proof fn lemma_mask_members(range: Range<u8>, current: u8, ceiling: u8, block: bool, s: int)
    requires
        valid_range(range),
        current <= ceiling <= levels(range),
    ensures
        member(spec_mask(range, current, ceiling, block).set, s) <==> owns(range, s) && current
            < priority_of(range, s) <= ceiling,
{
    lemma_run(signal_of(range, ceiling as int), ceiling - current, s);
}

/// The lock keeps peers out and lets higher priorities in.
///
/// An executor that runs at priority `current` has the signals of its
/// priorities up to `current` blocked. Once it has entered a critical
/// section with ceiling `ceiling`, exactly the signals of its priorities up
/// to the ceiling are blocked: a task of a priority up to the ceiling that is
/// spawned meanwhile cannot preempt, a task of a higher priority can. Leaving
/// the section restores the mask of priority `current` for the executor's
/// signals.
pub proof fn lemma_lock_masks_to_ceiling(range: Range<u8>, current: u8, ceiling: u8, mask: u64)
    requires
        valid_range(range),
        current < ceiling <= levels(range),
        masked_at(mask, range, current as int),
    ensures
        masked_at(spec_mask(range, current, ceiling, true).spec_apply(mask), range, ceiling as int),
        masked_at(
            spec_mask(range, current, ceiling, false).spec_apply(
                spec_mask(range, current, ceiling, true).spec_apply(mask),
            ),
            range,
            current as int,
        ),
{
    let up = spec_mask(range, current, ceiling, true);
    let down = spec_mask(range, current, ceiling, false);
    let inside = up.spec_apply(mask);
    let after = down.spec_apply(inside);
    assert(inside == blocked(mask, up.set));
    assert(after == unblocked(inside, down.set));
    assert forall|s: int| owns(range, s) implies (#[trigger] member(inside, s) <==> priority_of(
        range,
        s,
    ) <= ceiling) by {
        lemma_mask_members(range, current, ceiling, true, s);
        lemma_blocked(mask, up.set, s);
        assert(member(mask, s) <==> priority_of(range, s) <= current);
    }
    assert forall|s: int| owns(range, s) implies (#[trigger] member(after, s) <==> priority_of(
        range,
        s,
    ) <= current) by {
        lemma_mask_members(range, current, ceiling, true, s);
        lemma_mask_members(range, current, ceiling, false, s);
        lemma_blocked(mask, up.set, s);
        lemma_blocked(inside, down.set, s);
        assert(member(mask, s) <==> priority_of(range, s) <= current);
    }
}

/// A dispatcher runs at its priority.
///
/// When the signal of priority `priority` is delivered to an executor that
/// runs at a lower priority `current`, the kernel blocks the signal itself
/// and the signals that the handler was registered with. The handler then
/// runs with exactly the signals of the executor's priorities up to
/// `priority` blocked: tasks of the same or a lower priority wait, tasks of a
/// higher priority preempt.
pub proof fn lemma_handler_runs_at_priority(
    range: Range<u8>,
    current: u8,
    priority: u8,
    mask: u64,
    own: u64,
    sa_mask: u64,
)
    requires
        valid_range(range),
        current < priority <= levels(range),
        masked_at(mask, range, current as int),
        own == run(signal_of(range, priority as int), 1),
        sa_mask == run(signal_of(range, priority as int) + 1, priority - 1),
    ensures
        masked_at(blocked(blocked(mask, sa_mask), own), range, priority as int),
{
    let inside = blocked(blocked(mask, sa_mask), own);
    assert forall|s: int| owns(range, s) implies (#[trigger] member(inside, s) <==> priority_of(
        range,
        s,
    ) <= priority) by {
        lemma_run(signal_of(range, priority as int), 1, s);
        lemma_run(signal_of(range, priority as int) + 1, priority - 1, s);
        lemma_blocked(mask, sa_mask, s);
        lemma_blocked(blocked(mask, sa_mask), own, s);
        assert(member(mask, s) <==> priority_of(range, s) <= current);
    }
}

/// States that values of `T` may move between threads.
pub fn assert_send<T>() where T: Send {
}

/// States that values of `T` may be shared between threads.
pub fn assert_sync<T>() where T: Sync {
}

} // verus!
