//! The analysis that assigns a real-time signal to each priority level of
//! each core.
//!
//! A core uses the priorities of its tasks and, where it has a timer queue,
//! the priority of that queue's handler. Cores take their signals one after
//! another: core 0 starts at offset 0, and within a core the highest priority
//! gets the lowest offset.

use vstd::prelude::*;
use core::ops::Range;
use crate::ast::App;
use crate::sys::NSIGNALS;

verus! {

/// Signal number, as an offset above the smallest real-time signal.
pub type Signal = u8;

/// The signals of one core.
#[derive(Clone, Debug)]
pub struct Signals {
    /// The priorities that the core uses, highest first. The priority at
    /// position `i` is dispatched by the signal at offset `start + i`.
    pub priorities: Vec<u8>,
    /// The offset of the core's first signal.
    pub start: Signal,
}

/// Each entry is above all that follow it.
pub open spec fn descending(s: Seq<u8>) -> bool {
    forall|i: int, j: int| 0 <= i < j < s.len() ==> s[i] > s[j]
}

impl Signals {
    /// The priorities are in descending order and the signals fit the
    /// kernel's supply.
    pub open spec fn wf(&self) -> bool {
        descending(self.priorities@) && self.start + self.priorities@.len() <= NSIGNALS
    }

    /// Whether the core uses `priority`.
    pub open spec fn has_level(&self, priority: u8) -> bool {
        self.priorities@.contains(priority)
    }

    /// The signal that dispatches `priority`, for a priority that the core
    /// uses.
    pub open spec fn spec_signal(&self, priority: u8) -> Signal {
        (self.start + choose|i: int|
            0 <= i < self.priorities@.len() && self.priorities@[i] == priority) as u8
    }

    /// The range of signal offsets that the core owns.
    pub open spec fn spec_range(&self) -> Range<Signal> {
        Range { start: self.start, end: (self.start + self.priorities@.len()) as u8 }
    }

    /// The range of signal offsets that the core owns.
    pub fn range(&self) -> (r: Range<Signal>)
        requires
            self.wf(),
        ensures
            r == self.spec_range(),
            crate::signal::valid_range(r),
    {
        let start: u8 = self.start;
        let end: u8 = start + self.priorities.len() as u8;
        Range { start, end }
    }

    /// The level of a priority on the core: how many of the priorities that
    /// the core uses are not above it. The lowest priority in use has level
    /// 1, the highest has the number of the core's levels, and a priority
    /// below all of them, such as that of `idle`, has level 0. The runtime
    /// knows priorities by their level: the signal of a level follows from
    /// the core's range alone.
    pub open spec fn spec_level(&self, priority: u8) -> int {
        self.priorities@.len() - above(self.priorities@, priority)
    }

    /// The level of a priority on the core.
    pub fn level(&self, priority: u8) -> (l: u8)
        requires
            self.wf(),
        ensures
            l == self.spec_level(priority),
            l <= self.priorities@.len(),
    {
        let n: usize = self.priorities.len();
        let mut a: usize = 0;
        assert(self.priorities@.subrange(0, n as int) =~= self.priorities@);
        while a < n && self.priorities[a] > priority
            invariant
                n == self.priorities@.len(),
                a <= n,
                above(self.priorities@, priority) == a + above(
                    self.priorities@.subrange(a as int, n as int),
                    priority,
                ),
            decreases n - a,
        {
            proof {
                let tail = self.priorities@.subrange(a as int, n as int);
                assert(tail[0] == self.priorities@[a as int]);
                assert(tail.drop_first() =~= self.priorities@.subrange(a + 1, n as int));
            }
            a += 1;
        }
        proof {
            let tail = self.priorities@.subrange(a as int, n as int);
            if a < n {
                assert(tail[0] == self.priorities@[a as int]);
            }
        }
        (n - a) as u8
    }

    /// The registration of the dispatcher of a priority that the core uses.
    /// Its handler is installed for the signal that the analysis assigned to
    /// the priority, and while it runs the signals of the core's lower
    /// priorities are blocked.
    pub fn registration(&self, priority: u8) -> (r: Option<crate::export::Registration>)
        requires
            self.wf(),
        ensures
            r is Some <==> self.has_level(priority),
            r matches Some(reg) ==> {
                &&& reg.sig == crate::sys::SIGRTMIN + self.spec_signal(priority)
                &&& reg.sa_flags == 0x4000004
                &&& forall|q: u8|
                    self.has_level(q) ==> (#[trigger] crate::signal::member(
                        reg.sa_mask,
                        crate::sys::SIGRTMIN + self.spec_signal(q),
                    ) <==> q < priority)
                &&& forall|s: int|
                    #[trigger] crate::signal::member(reg.sa_mask, s) ==> crate::signal::owns(
                        self.spec_range(),
                        s,
                    )
            },
    {
        match self.signal(priority) {
            None => None,
            Some(_) => {
                let level: u8 = self.level(priority);
                proof {
                    lemma_level_of_used(self, priority);
                }
                let reg = crate::export::register(self.range(), level);
                proof {
                    assert forall|q: u8| self.has_level(q) implies (
                    #[trigger] crate::signal::member(
                        reg.sa_mask,
                        crate::sys::SIGRTMIN + self.spec_signal(q),
                    ) <==> q < priority) by {
                        lemma_level_of_used(self, q);
                        lemma_level_order(self, q, priority);
                        lemma_level_order(self, priority, q);
                    }
                }
                Some(reg)
            },
        }
    }

    /// How many priorities the core uses.
    pub fn len(&self) -> (n: usize)
        ensures
            n == self.priorities@.len(),
    {
        self.priorities.len()
    }

    /// The signal that dispatches `priority`, or `None` where the core does
    /// not use that priority.
    pub fn signal(&self, priority: u8) -> (r: Option<Signal>)
        requires
            self.wf(),
        ensures
            r is Some <==> self.has_level(priority),
            r matches Some(s) ==> s == self.spec_signal(priority) && self.start <= s < self.start
                + self.priorities@.len(),
    {
        let mut i: usize = 0;
        while i < self.priorities.len()
            invariant
                i <= self.priorities@.len(),
                self.wf(),
                forall|k: int| 0 <= k < i ==> self.priorities@[k] != priority,
            decreases self.priorities@.len() - i,
        {
            if self.priorities[i] == priority {
                proof {
                    let j = choose|j: int|
                        0 <= j < self.priorities@.len() && self.priorities@[j] == priority;
                    assert(0 <= j < self.priorities@.len() && self.priorities@[j] == priority);
                    if j < i {
                        assert(self.priorities@[j] > self.priorities@[i as int]);
                    }
                    if i < j {
                        assert(self.priorities@[i as int] > self.priorities@[j]);
                    }
                }
                return Some(self.start + i as u8);
            }
            i += 1;
        }
        None
    }
}

/// A higher priority has the lower signal: the kernel, which delivers the
/// lowest deliverable signal first, dispatches it first.
pub proof fn lemma_higher_priority_lower_signal(s: &Signals, high: u8, low: u8)
    requires
        s.wf(),
        s.has_level(high),
        s.has_level(low),
        low < high,
    ensures
        s.spec_signal(high) < s.spec_signal(low),
{
    let i = choose|i: int| 0 <= i < s.priorities@.len() && s.priorities@[i] == high;
    let j = choose|j: int| 0 <= j < s.priorities@.len() && s.priorities@[j] == low;
    assert(0 <= i < s.priorities@.len() && s.priorities@[i] == high);
    assert(0 <= j < s.priorities@.len() && s.priorities@[j] == low);
    if j < i {
        assert(s.priorities@[j] > s.priorities@[i]);
    }
}

/// Priority monotonicity: of two pending tasks of one core the kernel
/// dispatches the one of higher priority first.
///
/// Let the signals of the priorities `high` and `low < high` of a core both
/// be pending, and that of `high` not be blocked. Then the signal that the
/// kernel delivers next, the lowest pending signal that is not blocked, is
/// not the signal of `low`: it is at most the signal of `high`.
pub proof fn lemma_priority_monotonicity(
    s: &Signals,
    high: u8,
    low: u8,
    pending: u64,
    mask: u64,
    next: int,
)
    requires
        s.wf(),
        s.has_level(high),
        s.has_level(low),
        low < high,
        crate::signal::member(pending, crate::sys::SIGRTMIN + s.spec_signal(high)),
        !crate::signal::member(mask, crate::sys::SIGRTMIN + s.spec_signal(high)),
        crate::signal::delivers(pending, mask, next),
    ensures
        next <= crate::sys::SIGRTMIN + s.spec_signal(high),
        next < crate::sys::SIGRTMIN + s.spec_signal(low),
{
    lemma_higher_priority_lower_signal(s, high, low);
}

/// How many entries at the start of `s` are above `p`. In a descending
/// sequence these are all entries above `p`.
pub open spec fn above(s: Seq<u8>, p: u8) -> nat
    decreases s.len(),
{
    if s.len() > 0 && s[0] > p {
        1 + above(s.drop_first(), p)
    } else {
        0
    }
}

/// In a descending sequence the entries above `p` are the first
/// `above(s, p)`, and no other.
pub proof fn lemma_above(s: Seq<u8>, p: u8)
    requires
        descending(s),
    ensures
        above(s, p) <= s.len(),
        forall|i: int| 0 <= i < s.len() ==> (#[trigger] s[i] > p <==> i < above(s, p)),
    decreases s.len(),
{
    if s.len() > 0 {
        let rest = s.drop_first();
        assert(descending(rest)) by {
            assert forall|i: int, j: int| 0 <= i < j < rest.len() implies rest[i] > rest[j] by {
                assert(s[i + 1] > s[j + 1]);
            }
        }
        lemma_above(rest, p);
        assert forall|i: int| 0 <= i < s.len() implies (#[trigger] s[i] > p <==> i < above(
            s,
            p,
        )) by {
            if i > 0 {
                assert(rest[i - 1] == s[i]);
                assert(s[0] > s[i]);
            }
        }
    }
}

/// The signal that the runtime derives from the level of a priority is the
/// signal that the analysis assigned to the priority: a handler that is
/// registered for the level of a priority is installed for the signal that
/// is raised for tasks of that priority. This holds of every core, whichever
/// priorities it uses.
pub proof fn lemma_level_of_used(s: &Signals, priority: u8)
    requires
        s.wf(),
        s.has_level(priority),
    ensures
        1 <= s.spec_level(priority) <= s.priorities@.len(),
        s.spec_level(priority) == s.spec_range().end - s.spec_signal(priority),
        crate::signal::signal_of(s.spec_range(), s.spec_level(priority)) == crate::sys::SIGRTMIN
            + s.spec_signal(priority),
        crate::signal::owns(s.spec_range(), crate::sys::SIGRTMIN + s.spec_signal(priority)),
        crate::signal::priority_of(
            s.spec_range(),
            crate::sys::SIGRTMIN + s.spec_signal(priority),
        ) == s.spec_level(priority),
{
    lemma_above(s.priorities@, priority);
    let i = choose|i: int| 0 <= i < s.priorities@.len() && s.priorities@[i] == priority;
    assert(0 <= i < s.priorities@.len() && s.priorities@[i] == priority);
    let a = above(s.priorities@, priority) as int;
    assert(!(s.priorities@[i] > priority));
    if a < i {
        assert(s.priorities@[a] > s.priorities@[i]);
    }
    assert(a == i);
}

/// Levels keep the order of priorities: a priority that the core uses is not
/// above another priority exactly if its level is not above the level of the
/// other.
pub proof fn lemma_level_order(s: &Signals, used: u8, other: u8)
    requires
        s.wf(),
        s.has_level(used),
    ensures
        used <= other <==> s.spec_level(used) <= s.spec_level(other),
        0 <= s.spec_level(other) <= s.priorities@.len(),
{
    lemma_above(s.priorities@, used);
    lemma_above(s.priorities@, other);
    let i = choose|i: int| 0 <= i < s.priorities@.len() && s.priorities@[i] == used;
    assert(0 <= i < s.priorities@.len() && s.priorities@[i] == used);
    let a = above(s.priorities@, used) as int;
    let b = above(s.priorities@, other) as int;
    assert(!(s.priorities@[i] > used));
    if a < i {
        assert(s.priorities@[a] > s.priorities@[i]);
    }
    assert(a == i);
    if used <= other {
        if b > a {
            assert(s.priorities@[a] > other);
        }
    } else {
        assert(s.priorities@[i] > other);
    }
}

/// The lock keeps peers out and lets higher priorities in, whichever
/// priorities the core uses.
///
/// A context of priority `current` runs with the signals of the core's
/// priorities up to `current` blocked. Once it has entered a critical section
/// whose ceiling is the priority `ceiling`, with the levels of both handed to
/// the runtime, the signal of a priority that the core uses is blocked
/// exactly if the priority is not above the ceiling.
pub proof fn lemma_lock_excludes_peers(s: &Signals, current: u8, ceiling: u8, mask: u64, q: u8)
    requires
        s.wf(),
        s.has_level(ceiling),
        current < ceiling,
        crate::signal::masked_at(mask, s.spec_range(), s.spec_level(current)),
        s.has_level(q),
    ensures
        s.spec_level(current) < s.spec_level(ceiling) <= s.priorities@.len(),
        crate::signal::member(
            crate::export::spec_mask(
                s.spec_range(),
                s.spec_level(current) as u8,
                s.spec_level(ceiling) as u8,
                true,
            ).spec_apply(mask),
            crate::sys::SIGRTMIN + s.spec_signal(q),
        ) <==> q <= ceiling,
{
    lemma_level_order(s, ceiling, current);
    lemma_level_of_used(s, ceiling);
    lemma_level_of_used(s, q);
    lemma_level_order(s, q, ceiling);
    crate::export::lemma_lock_masks_to_ceiling(
        s.spec_range(),
        s.spec_level(current) as u8,
        s.spec_level(ceiling) as u8,
        mask,
    );
    let inside = crate::export::spec_mask(
        s.spec_range(),
        s.spec_level(current) as u8,
        s.spec_level(ceiling) as u8,
        true,
    ).spec_apply(mask);
    assert(crate::signal::member(inside, crate::sys::SIGRTMIN + s.spec_signal(q))
        <==> crate::signal::priority_of(s.spec_range(), crate::sys::SIGRTMIN + s.spec_signal(q))
        <= s.spec_level(ceiling));
}

/// A descending sequence of bytes has at most 256 entries, and its entry at
/// position `i` is at most `255 - i`.
proof fn lemma_descending_bounded(s: Seq<u8>)
    requires
        descending(s),
    ensures
        s.len() <= 256,
        forall|i: int| 0 <= i < s.len() ==> #[trigger] s[i] + i <= 255,
    decreases s.len(),
{
    if s.len() > 0 {
        let rest = s.subrange(1, s.len() as int);
        assert(descending(rest));
        lemma_descending_bounded(rest);
        assert forall|i: int| 0 <= i < s.len() implies #[trigger] s[i] + i <= 255 by {
            if i > 0 {
                assert(rest[i - 1] + (i - 1) <= 255);
                assert(s[i - 1] > s[i]);
                lemma_step(s, i);
            }
        }
        if s.len() > 256 {
            assert(s[256] + 256 <= 255);
        }
    }
}

proof fn lemma_step(s: Seq<u8>, i: int)
    requires
        descending(s),
        0 <= i < s.len(),
    ensures
        s[i] + i <= s[0],
    decreases i,
{
    if i > 0 {
        lemma_step(s, i - 1);
        assert(s[i - 1] > s[i]);
    }
}

/// Whether `core` uses priority `p`: a task of that priority runs on it, or
/// the handler of its timer queue does.
pub open spec fn uses(app: &App, parent: &crate::syntax::Analysis, core: u8, p: u8) -> bool {
    ||| exists|t: int|
        0 <= t < app.tasks@.len() && (#[trigger] app.tasks@[t]).core == core && app.tasks@[t].priority
            == p
    ||| (parent.spec_timer_queue(core as int) matches Some(q) && q.priority == p)
}

/// The priorities that `core` uses.
pub open spec fn levels_of(app: &App, parent: &crate::syntax::Analysis, core: u8) -> Set<u8> {
    Set::new(|p: u8| uses(app, parent, core, p))
}

/// How many signals the cores below `core` take together.
pub open spec fn offset(app: &App, parent: &crate::syntax::Analysis, core: nat) -> nat
    decreases core,
{
    if core == 0 || core > 256 {
        0
    } else {
        offset(app, parent, (core - 1) as nat) + levels_of(app, parent, (core - 1) as u8).len()
    }
}

/// Whether `s` is the assignment of `core`: it starts where the cores below
/// end and holds, highest first, exactly the priorities that the core uses.
pub open spec fn assigned(app: &App, parent: &crate::syntax::Analysis, core: u8, s: &Signals) -> bool {
    &&& descending(s.priorities@)
    &&& forall|p: u8| s.priorities@.contains(p) <==> uses(app, parent, core, p)
    &&& s.start == offset(app, parent, core as nat)
    &&& s.priorities@.len() == levels_of(app, parent, core).len()
}

/// The application's analysis, with the signals of each core.
#[derive(Clone, Debug)]
pub struct Analysis {
    /// What the front end's analysis found.
    pub parent: crate::syntax::Analysis,
    /// The signals of each core, by core.
    pub signals: Vec<Signals>,
}

impl Analysis {
    /// The signals of every core are well formed.
    pub open spec fn wf(&self) -> bool {
        forall|c: int| 0 <= c < self.signals@.len() ==> (#[trigger] self.signals@[c]).wf()
    }

    /// The analysis is one of `app`: it has the signals of each core, with a
    /// signal for the priority of each task, of each dispatcher and of each
    /// timer queue, the application refers only to what it declares, a core
    /// that schedules has a timer queue, and what the front end found fits
    /// the application.
    pub open spec fn fits(&self, app: &App) -> bool {
        &&& app.wf()
        &&& self.wf()
        &&& self.signals@.len() == app.cores
        &&& !crate::check::undeclared(app)
        &&& !crate::check::schedule_without_queue(app, &self.parent)
        &&& forall|t: int|
            0 <= t < app.tasks@.len() ==> self.signals@[(#[trigger] app.tasks@[t]).core as int].has_level(
                app.tasks@[t].priority,
            )
        &&& forall|c: int|
            0 <= c < app.cores && self.parent.spec_timer_queue(c) is Some
                ==> (#[trigger] self.signals@[c]).has_level(
                self.parent.spec_timer_queue(c)->0.priority,
            )
        &&& self.parent.fits(app)
        &&& forall|c: int, d: int|
            0 <= c < app.cores && 0 <= d < self.parent.spec_dispatchers(c).len()
                ==> self.signals@[c].has_level(
                (#[trigger] self.parent.spec_dispatchers(c)[d]).priority,
            )
    }
}

/// Whether `core` uses priority `p`.
pub fn uses_priority(app: &App, parent: &crate::syntax::Analysis, core: u8, p: u8) -> (r: bool)
    ensures
        r == uses(app, parent, core, p),
{
    if let Some(q) = parent.timer_queue(core) {
        if q.priority == p {
            return true;
        }
    }
    let mut t: usize = 0;
    while t < app.tasks.len()
        invariant
            t <= app.tasks@.len(),
            forall|k: int|
                0 <= k < t ==> !((#[trigger] app.tasks@[k]).core == core && app.tasks@[k].priority
                    == p),
        decreases app.tasks@.len() - t,
    {
        if app.tasks[t].core == core && app.tasks[t].priority == p {
            return true;
        }
        t += 1;
    }
    false
}

/// The priorities that `core` uses, highest first.
pub fn priorities(app: &App, parent: &crate::syntax::Analysis, core: u8) -> (v: Vec<u8>)
    ensures
        descending(v@),
        forall|p: u8| v@.contains(p) <==> uses(app, parent, core, p),
        v@.len() == levels_of(app, parent, core).len(),
        v@.len() <= 256,
{
    let mut v: Vec<u8> = Vec::new();
    let mut next: u16 = 256;
    while next > 0
        invariant
            next <= 256,
            descending(v@),
            forall|i: int| 0 <= i < v@.len() ==> v@[i] >= next,
            forall|p: u8| v@.contains(p) <==> (p >= next && uses(app, parent, core, p)),
        decreases next,
    {
        next -= 1;
        let p: u8 = next as u8;
        if uses_priority(app, parent, core, p) {
            let ghost before = v@;
            v.push(p);
            proof {
                assert forall|q: u8| v@.contains(q) <==> (q >= next && uses(app, parent, core, q)) by {
                    if v@.contains(q) {
                        let j = choose|j: int| 0 <= j < v@.len() && v@[j] == q;
                        if j < before.len() {
                            assert(before.contains(q));
                        }
                    }
                    if q >= next && uses(app, parent, core, q) {
                        if q == p {
                            assert(v@[before.len() as int] == q);
                        } else {
                            assert(before.contains(q));
                            let j = choose|j: int| 0 <= j < before.len() && before[j] == q;
                            assert(v@[j] == q);
                        }
                    }
                }
            }
        } else {
            proof {
                assert forall|q: u8| v@.contains(q) <==> (q >= next && uses(app, parent, core, q)) by {}
            }
        }
    }
    proof {
        assert(v@.no_duplicates()) by {
            assert forall|i: int, j: int| 0 <= i < v@.len() && 0 <= j < v@.len() && i != j implies v@[i] != v@[j] by {
                if i < j {
                    assert(v@[i] > v@[j]);
                } else {
                    assert(v@[j] > v@[i]);
                }
            }
        }
        v@.unique_seq_to_set();
        assert(v@.to_set() =~= levels_of(app, parent, core));
        lemma_descending_bounded(v@);
    }
    v
}

/// Assigns a real-time signal to each priority level of each core.
///
/// Fails where the cores together use more priority levels than the kernel
/// has real-time signals.
pub fn app(parent: crate::syntax::Analysis, model: &App) -> (r: Option<Analysis>)
    ensures
        r is Some <==> offset(model, &parent, model.cores as nat) <= NSIGNALS,
        r matches Some(a) ==> {
            &&& a.parent == parent
            &&& a.signals@.len() == model.cores
            &&& a.wf()
            &&& forall|c: int|
                0 <= c < model.cores ==> assigned(model, &parent, c as u8, #[trigger] &a.signals@[c])
        },
        r matches Some(a) ==> (parent.fits(model) && crate::check::spec_app(model, &parent) is Ok
            ==> a.fits(model)),
{
    let mut rt: usize = 0;
    let mut signals: Vec<Signals> = Vec::new();
    let mut core: u8 = 0;
    while core < model.cores
        invariant
            core <= model.cores,
            rt == offset(model, &parent, core as nat),
            rt <= NSIGNALS,
            signals@.len() == core,
            forall|c: int| 0 <= c < core ==> (#[trigger] signals@[c]).wf(),
            forall|c: int|
                0 <= c < core ==> assigned(model, &parent, c as u8, #[trigger] &signals@[c]),
        decreases model.cores - core,
    {
        let list = priorities(model, &parent, core);
        let len: usize = list.len();
        if rt + len > NSIGNALS {
            proof {
                lemma_offset_grows(model, &parent, (core + 1) as nat, model.cores as nat);
            }
            return None;
        }
        signals.push(Signals { priorities: list, start: rt as u8 });
        rt = rt + len;
        core += 1;
    }
    let a = Analysis { parent, signals };
    proof {
        if a.parent.fits(model) && crate::check::spec_app(model, &a.parent) is Ok {
            lemma_fits(&a, model);
        }
    }
    Some(a)
}

/// An assignment of signals to a validated application, whose front-end
/// analysis fits it, is an analysis of that application.
pub proof fn lemma_fits(a: &Analysis, model: &App)
    requires
        a.parent.fits(model),
        crate::check::spec_app(model, &a.parent) is Ok,
        a.signals@.len() == model.cores,
        a.wf(),
        forall|c: int|
            0 <= c < model.cores ==> assigned(model, &a.parent, c as u8, #[trigger] &a.signals@[c]),
    ensures
        a.fits(model),
{
    assert forall|t: int| 0 <= t < model.tasks@.len() implies a.signals@[(
    #[trigger] model.tasks@[t]).core as int].has_level(model.tasks@[t].priority) by {
        let c = model.tasks@[t].core;
        assert(assigned(model, &a.parent, c, &a.signals@[c as int]));
        assert(uses(model, &a.parent, c, model.tasks@[t].priority));
    }
    assert forall|c: int|
        0 <= c < model.cores && a.parent.spec_timer_queue(c) is Some implies (
    #[trigger] a.signals@[c]).has_level(a.parent.spec_timer_queue(c)->0.priority) by {
        assert(assigned(model, &a.parent, c as u8, &a.signals@[c]));
        assert(uses(model, &a.parent, c as u8, a.parent.spec_timer_queue(c)->0.priority));
    }
    assert forall|c: int, d: int|
        0 <= c < model.cores && 0 <= d < a.parent.spec_dispatchers(c).len() implies a.signals@[c].has_level(
        (#[trigger] a.parent.spec_dispatchers(c)[d]).priority,
    ) by {
        assert(assigned(model, &a.parent, c as u8, &a.signals@[c]));
        assert(a.parent.channels@[c]@[d].priority == a.parent.spec_dispatchers(c)[d].priority);
        assert(uses(model, &a.parent, c as u8, a.parent.channels@[c]@[d].priority));
    }
}

/// The cores own disjoint ranges of signals: the range of a core ends
/// where the ranges of the cores above it begin, or before.
pub proof fn lemma_ranges_disjoint(
    app: &App,
    parent: &crate::syntax::Analysis,
    low: &Signals,
    lower: u8,
    high: &Signals,
    higher: u8,
)
    requires
        lower < higher,
        assigned(app, parent, lower, low),
        assigned(app, parent, higher, high),
    ensures
        low.start + low.priorities@.len() <= high.start,
{
    lemma_offset_grows(app, parent, (lower + 1) as nat, higher as nat);
}

/// The offsets of the cores do not decrease.
pub proof fn lemma_offset_grows(app: &App, parent: &crate::syntax::Analysis, low: nat, high: nat)
    requires
        low <= high <= 256,
    ensures
        offset(app, parent, low) <= offset(app, parent, high),
    decreases high - low,
{
    if low < high {
        lemma_offset_grows(app, parent, low, (high - 1) as nat);
    }
}

} // verus!
