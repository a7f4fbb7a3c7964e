//! The slots of a task: the buffers that hold the inputs of its pending
//! instances, and one free queue per sender.
//!
//! Each sender owns a run of `capacity` consecutive slots and takes free
//! slots from its own queue only. A slot is either free, and then in the
//! queue of its sender, or pending, and then it holds an input that a queued
//! signal refers to. The dispatcher takes the input out and returns the slot
//! in one step.

use vstd::prelude::*;
use crate::export::{enqueue, spec_payload, siginfo_t, Queued};
use crate::spsc::FreeQueue;
use crate::sys::{SIGRTMIN, SI_QUEUE};
use crate::time::Instant;
use crate::tq::{before_all, NotReady, Raise, TimerQueue};

verus! {

/// How many of the slots from `lo` up to, but without, `hi` hold an input.
pub open spec fn occupied<T>(inputs: Seq<Option<T>>, lo: int, hi: int) -> nat
    decreases hi - lo,
{
    if hi <= lo {
        0
    } else {
        occupied(inputs, lo, hi - 1) + if inputs[hi - 1] is Some {
            1nat
        } else {
            0nat
        }
    }
}

/// Writing one slot changes the count of its run by what the slot gains or
/// loses, and no other count.
pub proof fn lemma_occupied_update<T>(inputs: Seq<Option<T>>, lo: int, hi: int, i: int, v: Option<T>)
    requires
        0 <= lo <= hi <= inputs.len(),
        0 <= i < inputs.len(),
    ensures
        !(lo <= i < hi) ==> occupied(inputs.update(i, v), lo, hi) == occupied(inputs, lo, hi),
        lo <= i < hi ==> occupied(inputs.update(i, v), lo, hi) + (if inputs[i] is Some {
            1nat
        } else {
            0nat
        }) == occupied(inputs, lo, hi) + (if v is Some {
            1nat
        } else {
            0nat
        }),
    decreases hi - lo,
{
    if lo < hi {
        lemma_occupied_update(inputs, lo, hi - 1, i, v);
    }
}

/// A run without inputs counts zero.
pub proof fn lemma_occupied_none<T>(inputs: Seq<Option<T>>, lo: int, hi: int)
    requires
        0 <= lo <= hi <= inputs.len(),
        forall|i: int| lo <= i < hi ==> inputs[i] is None,
    ensures
        occupied(inputs, lo, hi) == 0,
    decreases hi - lo,
{
    if lo < hi {
        lemma_occupied_none(inputs, lo, hi - 1);
    }
}

/// The slots of one task.
pub struct Slots<T> {
    capacity: u8,
    inputs: Vec<Option<T>>,
    instants: Vec<Instant>,
    free: Vec<FreeQueue>,
}

impl<T> Slots<T> {
    /// How many instances each sender may have pending.
    pub closed spec fn capacity(&self) -> int {
        self.capacity as int
    }

    /// How many senders the task has.
    pub closed spec fn senders(&self) -> int {
        self.free@.len() as int
    }

    /// The inputs, by slot.
    pub closed spec fn inputs(&self) -> Seq<Option<T>> {
        self.inputs@
    }

    /// The instants, by slot.
    pub closed spec fn instants(&self) -> Seq<Instant> {
        self.instants@
    }

    /// The free slots of sender `s`, the one that is taken next first.
    pub closed spec fn free(&self, s: int) -> Seq<u8> {
        self.free@[s]@
    }

    /// How many slots of sender `s` hold an input.
    pub open spec fn pending(&self, s: int) -> nat {
        occupied(self.inputs(), s * self.capacity(), (s + 1) * self.capacity())
    }

    /// The slots are accounted for: every sender has `capacity` of them, each
    /// either in its free queue, once, or pending with an input.
    pub open spec fn wf(&self) -> bool {
        &&& 0 <= self.capacity() <= 255
        &&& 0 <= self.senders()
        &&& self.capacity() * self.senders() <= 255
        &&& self.inputs().len() == self.capacity() * self.senders()
        &&& self.instants().len() == self.inputs().len()
        &&& forall|s: int|
            0 <= s < self.senders() ==> {
                &&& (#[trigger] self.free(s)).no_duplicates()
                &&& self.free(s).len() + self.pending(s) == self.capacity()
                &&& forall|k: int|
                    0 <= k < self.free(s).len() ==> {
                        &&& s * self.capacity() <= (#[trigger] self.free(s)[k]) < (s + 1)
                            * self.capacity()
                        &&& self.inputs()[self.free(s)[k] as int] is None
                    }
            }
    }

    /// No slot is lost: every slot that holds no input is in the free queue
    /// of the sender that owns it.
    pub open spec fn complete(&self) -> bool {
        forall|s: int, i: u8|
            0 <= s < self.senders() && s * self.capacity() <= i < (s + 1) * self.capacity()
                && self.inputs()[i as int] is None ==> #[trigger] self.free(s).contains(i)
    }

    /// The slots of a task with `senders` senders of `capacity` slots each,
    /// all free: sender `s` has the slots from `s * capacity` upwards, lowest
    /// first.
    pub fn new(capacity: u8, senders: u8) -> (r: Slots<T>)
        requires
            capacity * senders <= 255,
        ensures
            r.wf(),
            r.complete(),
            r.capacity() == capacity,
            r.senders() == senders,
            forall|i: int| 0 <= i < capacity * senders ==> r.inputs()[i] is None,
            forall|s: int|
                0 <= s < senders ==> #[trigger] r.free(s) == Seq::new(
                    capacity as nat,
                    |k: int| (s * capacity + k) as u8,
                ),
    {
        let total: usize = (capacity as usize) * (senders as usize);
        let mut inputs: Vec<Option<T>> = Vec::new();
        let mut instants: Vec<Instant> = Vec::new();
        let mut i: usize = 0;
        while i < total
            invariant
                i <= total,
                inputs@.len() == i,
                instants@.len() == i,
                forall|k: int| 0 <= k < i ==> inputs@[k] is None,
            decreases total - i,
        {
            inputs.push(None);
            instants.push(
                Instant::from_timespec(crate::time::timespec { tv_sec: 0, tv_nsec: 0 }),
            );
            i += 1;
        }
        let mut free: Vec<FreeQueue> = Vec::new();
        let mut s: u8 = 0;
        while s < senders
            invariant
                s <= senders,
                capacity * senders <= 255,
                free@.len() == s,
                forall|x: int|
                    0 <= x < s ==> (#[trigger] free@[x])@ == Seq::new(
                        capacity as nat,
                        |k: int| (x * capacity + k) as u8,
                    ),
            decreases senders - s,
        {
            let mut q = FreeQueue::new();
            assert(s * capacity + capacity <= 255) by (nonlinear_arith)
                requires
                    s < senders,
                    capacity * senders <= 255,
                    capacity >= 0,
            ;
            let first: u8 = s * capacity;
            q.fill(first, capacity);
            assert(q@ =~= Seq::new(capacity as nat, |k: int| (s * capacity + k) as u8));
            free.push(q);
            s += 1;
        }
        let r = Slots { capacity, inputs, instants, free };
        proof {
            assert forall|x: int| 0 <= x < r.senders() implies {
                &&& (#[trigger] r.free(x)).no_duplicates()
                &&& r.free(x).len() + r.pending(x) == r.capacity()
                &&& forall|k: int|
                    0 <= k < r.free(x).len() ==> {
                        &&& x * r.capacity() <= (#[trigger] r.free(x)[k]) < (x + 1) * r.capacity()
                        &&& r.inputs()[r.free(x)[k] as int] is None
                    }
            } by {
                assert(0 <= x * capacity && (x + 1) * capacity <= capacity * senders)
                    by (nonlinear_arith)
                    requires
                        0 <= x < senders,
                        capacity >= 0,
                ;
                assert((x + 1) * capacity == x * capacity + capacity) by (nonlinear_arith);
                assert(r.inputs().len() == capacity * senders);
                assert(r.free(x) == Seq::new(capacity as nat, |k: int| (x * capacity + k) as u8));
                lemma_occupied_none(r.inputs(), x * capacity, (x + 1) * capacity);
            }
            assert forall|x: int, i: u8|
                0 <= x < r.senders() && x * r.capacity() <= i < (x + 1) * r.capacity()
                    && r.inputs()[i as int] is None implies #[trigger] r.free(x).contains(i) by {
                assert(r.free(x) == Seq::new(capacity as nat, |k: int| (x * capacity + k) as u8));
                assert((x + 1) * capacity == x * capacity + capacity) by (nonlinear_arith);
                assert(r.free(x)[i - x * capacity] == i);
            }
        }
        r
    }

    /// How many instances each sender may have pending.
    pub fn slots_per_sender(&self) -> (n: u8)
        ensures
            n == self.capacity(),
    {
        self.capacity
    }

    /// How many senders the task has.
    pub fn sender_count(&self) -> (n: usize)
        ensures
            n == self.senders(),
    {
        self.free.len()
    }

    /// How many slots of sender `sender` are free.
    pub fn available(&self, sender: usize) -> (n: usize)
        requires
            self.wf(),
            sender < self.senders(),
        ensures
            n == self.free(sender as int).len(),
            n + self.pending(sender as int) == self.capacity(),
    {
        assert(self.free(sender as int).len() + self.pending(sender as int) == self.capacity());
        self.free[sender].len()
    }

    /// Spawns an instance of the task from sender `sender`.
    ///
    /// With a free slot of the sender, the input (and the instant, where one
    /// is given) is written into the slot that was freed first, the slot
    /// becomes pending, and the result names it. Without a free slot nothing
    /// changes and the input comes back.
    pub fn spawn(&mut self, sender: usize, input: T, instant: Option<Instant>) -> (r: Result<u8, T>)
        requires
            old(self).wf(),
            sender < old(self).senders(),
        ensures
            final(self).wf(),
            old(self).complete() ==> final(self).complete(),
            final(self).capacity() == old(self).capacity(),
            final(self).senders() == old(self).senders(),
            old(self).free(sender as int).len() == 0 ==> {
                &&& r is Err && r->Err_0 == input
                &&& final(self).inputs() == old(self).inputs()
                &&& final(self).instants() == old(self).instants()
                &&& forall|s: int|
                    0 <= s < old(self).senders() ==> final(self).free(s) == old(self).free(s)
            },
            old(self).free(sender as int).len() > 0 ==> {
                &&& r is Ok && r->Ok_0 == old(self).free(sender as int)[0]
                &&& final(self).inputs() == old(self).inputs().update(
                    r->Ok_0 as int,
                    Some(input),
                )
                &&& final(self).instants() == (match instant {
                    Some(t) => old(self).instants().update(r->Ok_0 as int, t),
                    None => old(self).instants(),
                })
                &&& final(self).free(sender as int) == old(self).free(sender as int).subrange(
                    1,
                    old(self).free(sender as int).len() as int,
                )
                &&& forall|s: int|
                    0 <= s < old(self).senders() && s != sender ==> final(self).free(s) == old(
                        self,
                    ).free(s)
                &&& final(self).pending(sender as int) == old(self).pending(sender as int) + 1
            },
    {
        let ghost before = *self;
        let taken = self.free[sender].dequeue();
        match taken {
            None => {
                proof {
                    assert forall|s: int| 0 <= s < self.senders() implies {
                        &&& (#[trigger] self.free(s)).no_duplicates()
                        &&& self.free(s).len() + self.pending(s) == self.capacity()
                        &&& forall|k: int|
                            0 <= k < self.free(s).len() ==> {
                                &&& s * self.capacity() <= (#[trigger] self.free(s)[k]) < (s + 1)
                                    * self.capacity()
                                &&& self.inputs()[self.free(s)[k] as int] is None
                            }
                    } by {
                        assert(self.free(s) == before.free(s));
                        assert(before.free(s).no_duplicates());
                    }
                }
                proof {
                    if before.complete() {
                        lemma_same_complete(before, *self);
                    }
                }
                Err(input)
            },
            Some(index) => {
                let ghost queue = before.free(sender as int);
                proof {
                    lemma_run(sender as int, before.capacity(), before.senders());
                    assert(queue.no_duplicates());
                    assert(queue[0] == index);
                    assert(before.inputs()[queue[0] as int] is None);
                }
                self.inputs[index as usize] = Some(input);
                if let Some(t) = instant {
                    self.instants[index as usize] = t;
                }
                proof {
                    let cap = before.capacity();
                    lemma_occupied_update(
                        before.inputs(),
                        sender * cap,
                        (sender + 1) * cap,
                        index as int,
                        Some(input),
                    );
                    assert(self.inputs() == before.inputs().update(index as int, Some(input)));
                    assert(self.pending(sender as int) == before.pending(sender as int) + 1);
                    assert(self.free(sender as int) == queue.subrange(1, queue.len() as int));
                    assert forall|s: int| 0 <= s < self.senders() implies {
                        &&& (#[trigger] self.free(s)).no_duplicates()
                        &&& self.free(s).len() + self.pending(s) == self.capacity()
                        &&& forall|k: int|
                            0 <= k < self.free(s).len() ==> {
                                &&& s * self.capacity() <= (#[trigger] self.free(s)[k]) < (s + 1)
                                    * self.capacity()
                                &&& self.inputs()[self.free(s)[k] as int] is None
                            }
                    } by {
                        lemma_run(s, cap, before.senders());
                        lemma_occupied_update(
                            before.inputs(),
                            s * cap,
                            (s + 1) * cap,
                            index as int,
                            Some(input),
                        );
                        assert(before.free(s).no_duplicates());
                        if s == sender {
                            assert forall|k: int| 0 <= k < self.free(s).len() implies {
                                &&& s * cap <= (#[trigger] self.free(s)[k]) < (s + 1) * cap
                                &&& self.inputs()[self.free(s)[k] as int] is None
                            } by {
                                assert(self.free(s)[k] == queue[k + 1]);
                                assert(queue[k + 1] != queue[0]);
                            }
                        } else {
                            lemma_runs_apart(s, sender as int, cap);
                            assert forall|k: int| 0 <= k < self.free(s).len() implies {
                                &&& s * cap <= (#[trigger] self.free(s)[k]) < (s + 1) * cap
                                &&& self.inputs()[self.free(s)[k] as int] is None
                            } by {
                                assert(self.free(s)[k] == before.free(s)[k]);
                            }
                        }
                    }
                }
                proof {
                    if before.complete() {
                        lemma_spawn_complete(before, *self, sender as int);
                    }
                }
                Ok(index)
            },
        }
    }

    /// Dispatches the instance in slot `index`, which sender `sender`
    /// spawned: the input (with the slot's instant) leaves the slot, and the
    /// slot returns to the end of the sender's free queue.
    pub fn dispatch(&mut self, sender: usize, index: u8) -> (r: (T, Instant))
        requires
            old(self).wf(),
            sender < old(self).senders(),
            sender * old(self).capacity() <= index < (sender + 1) * old(self).capacity(),
            old(self).inputs()[index as int] is Some,
        ensures
            final(self).wf(),
            old(self).complete() ==> final(self).complete(),
            final(self).capacity() == old(self).capacity(),
            final(self).senders() == old(self).senders(),
            Some(r.0) == old(self).inputs()[index as int],
            r.1 == old(self).instants()[index as int],
            final(self).inputs() == old(self).inputs().update(index as int, None),
            final(self).instants() == old(self).instants(),
            final(self).free(sender as int) == old(self).free(sender as int).push(index),
            forall|s: int|
                0 <= s < old(self).senders() && s != sender ==> final(self).free(s) == old(
                    self,
                ).free(s),
            final(self).pending(sender as int) + 1 == old(self).pending(sender as int),
    {
        let ghost before = *self;
        proof {
            lemma_run(sender as int, before.capacity(), before.senders());
            lemma_occupied_update(
                before.inputs(),
                sender * before.capacity(),
                (sender + 1) * before.capacity(),
                index as int,
                None,
            );
        }
        let input = self.inputs[index as usize].take().unwrap();
        let instant = self.instants[index as usize];
        assert(before.free(sender as int).len() < 255);
        self.free[sender].enqueue_unchecked(index);
        proof {
            let cap = before.capacity();
            assert forall|s: int| 0 <= s < self.senders() implies {
                &&& (#[trigger] self.free(s)).no_duplicates()
                &&& self.free(s).len() + self.pending(s) == self.capacity()
                &&& forall|k: int|
                    0 <= k < self.free(s).len() ==> {
                        &&& s * self.capacity() <= (#[trigger] self.free(s)[k]) < (s + 1)
                            * self.capacity()
                        &&& self.inputs()[self.free(s)[k] as int] is None
                    }
            } by {
                lemma_run(s, cap, before.senders());
                lemma_occupied_update(
                    before.inputs(),
                    s * cap,
                    (s + 1) * cap,
                    index as int,
                    None,
                );
                assert(before.free(s).no_duplicates());
                if s == sender {
                    let old_queue = before.free(s);
                    assert forall|k: int| 0 <= k < old_queue.len() implies old_queue[k]
                        != index by {
                        assert(before.inputs()[old_queue[k] as int] is None);
                    }
                    assert forall|k: int| 0 <= k < self.free(s).len() implies {
                        &&& s * cap <= (#[trigger] self.free(s)[k]) < (s + 1) * cap
                        &&& self.inputs()[self.free(s)[k] as int] is None
                    } by {
                        if k < old_queue.len() {
                            assert(self.free(s)[k] == old_queue[k]);
                        }
                    }
                } else {
                    lemma_runs_apart(s, sender as int, cap);
                    assert forall|k: int| 0 <= k < self.free(s).len() implies {
                        &&& s * cap <= (#[trigger] self.free(s)[k]) < (s + 1) * cap
                        &&& self.inputs()[self.free(s)[k] as int] is None
                    } by {
                        assert(self.free(s)[k] == before.free(s)[k]);
                    }
                }
            }
        }
        proof {
            if before.complete() {
                lemma_dispatch_complete(before, *self, sender as int, index);
            }
        }
        (input, instant)
    }
}

impl<T> Slots<T> {
    /// Dispatches the instance in slot `index`, if the slot holds one, as
    /// `dispatch` does for the sender that owns the slot.
    pub fn try_dispatch(&mut self, index: u8) -> (r: Option<(T, Instant)>)
        requires
            old(self).wf(),
        ensures
            final(self).wf(),
            old(self).complete() ==> final(self).complete(),
            final(self).capacity() == old(self).capacity(),
            final(self).senders() == old(self).senders(),
            r is Some <==> index < old(self).inputs().len() && old(self).inputs()[index as int]
                is Some,
            r is None ==> final(self).inputs() == old(self).inputs() && final(self).instants()
                == old(self).instants() && forall|s: int|
                0 <= s < old(self).senders() ==> final(self).free(s) == old(self).free(s),
            r matches Some(out) ==> {
                let sender = index as int / old(self).capacity();
                &&& 0 <= sender < old(self).senders()
                &&& Some(out.0) == old(self).inputs()[index as int]
                &&& out.1 == old(self).instants()[index as int]
                &&& final(self).inputs() == old(self).inputs().update(index as int, None)
                &&& final(self).instants() == old(self).instants()
                &&& final(self).free(sender) == old(self).free(sender).push(index)
                &&& forall|s: int|
                    0 <= s < old(self).senders() && s != sender ==> final(self).free(s) == old(
                        self,
                    ).free(s)
            },
    {
        let i: usize = index as usize;
        if i >= self.inputs.len() || self.inputs[i].is_none() {
            return None;
        }
        let cap: usize = self.capacity as usize;
        assert(cap > 0) by (nonlinear_arith)
            requires
                i < cap * self.senders(),
                self.senders() >= 0,
                cap >= 0,
        ;
        let sender: usize = i / cap;
        assert(sender < self.senders() && sender * cap <= i < (sender + 1) * cap)
            by (nonlinear_arith)
            requires
                cap > 0,
                i < cap * self.senders(),
                sender == i / cap,
        ;
        Some(self.dispatch(sender, index))
    }
}

impl<T> Slots<T> {
    /// A `spawn` call site of sender `sender`: it takes a free slot, writes
    /// the input (and the instant, where one is given) into it, and answers
    /// with the signal to queue for the task's dispatcher, whose payload names
    /// the variant `tag` and the slot. Without a free slot nothing changes and
    /// the input comes back.
    pub fn send(
        &mut self,
        sender: usize,
        input: T,
        instant: Option<Instant>,
        tgid: i32,
        tid: Option<i32>,
        signo: u8,
        tag: u8,
    ) -> (r: Result<Queued, T>)
        requires
            old(self).wf(),
            sender < old(self).senders(),
        ensures
            final(self).wf(),
            old(self).complete() ==> final(self).complete(),
            final(self).capacity() == old(self).capacity(),
            final(self).senders() == old(self).senders(),
            old(self).free(sender as int).len() == 0 ==> {
                &&& r is Err && r->Err_0 == input
                &&& final(self).inputs() == old(self).inputs()
                &&& final(self).instants() == old(self).instants()
                &&& forall|s: int|
                    0 <= s < old(self).senders() ==> final(self).free(s) == old(self).free(s)
            },
            old(self).free(sender as int).len() > 0 ==> {
                let index = old(self).free(sender as int)[0];
                &&& r is Ok && r->Ok_0 == (Queued {
                    tgid,
                    tid,
                    sig: (SIGRTMIN + signo) as i32,
                    info: siginfo_t { si_code: SI_QUEUE, si_value: spec_payload(tag, index) },
                })
                &&& final(self).inputs() == old(self).inputs().update(index as int, Some(input))
                &&& final(self).instants() == (match instant {
                    Some(t) => old(self).instants().update(index as int, t),
                    None => old(self).instants(),
                })
                &&& final(self).free(sender as int) == old(self).free(sender as int).subrange(
                    1,
                    old(self).free(sender as int).len() as int,
                )
                &&& forall|s: int|
                    0 <= s < old(self).senders() && s != sender ==> final(self).free(s) == old(
                        self,
                    ).free(s)
                &&& final(self).pending(sender as int) == old(self).pending(sender as int) + 1
            },
    {
        match self.spawn(sender, input, instant) {
            Ok(index) => Ok(enqueue(tgid, tid, signo, tag, index)),
            Err(input) => Err(input),
        }
    }

    /// A `schedule` call site of sender `sender`: it takes a free slot,
    /// writes the input (and the instant, where the task's core keeps
    /// instants) into it, and puts the entry (instant, slot, task) into the
    /// sender's timer queue, behind the entries of the same instant. The
    /// answer is the timer signal to raise, where the entry displaces the
    /// head. Without a free slot nothing changes, the timer queue included,
    /// no signal is raised, and the input comes back.
    pub fn schedule(
        &mut self,
        queue: &mut TimerQueue,
        sender: usize,
        input: T,
        instant: Instant,
        writes_instant: bool,
        task: u8,
        tgid_tid: Option<(i32, i32)>,
        signo: u8,
    ) -> (r: Result<Option<Raise>, T>)
        requires
            old(self).wf(),
            sender < old(self).senders(),
            old(queue)@.len() < old(queue).spec_capacity(),
            old(queue).spec_issued() < u64::MAX,
        ensures
            final(self).wf(),
            old(self).complete() ==> final(self).complete(),
            final(self).capacity() == old(self).capacity(),
            final(self).senders() == old(self).senders(),
            final(queue).spec_capacity() == old(queue).spec_capacity(),
            old(self).free(sender as int).len() == 0 ==> {
                &&& r is Err && r->Err_0 == input
                &&& final(self).inputs() == old(self).inputs()
                &&& final(self).instants() == old(self).instants()
                &&& forall|s: int|
                    0 <= s < old(self).senders() ==> final(self).free(s) == old(self).free(s)
                &&& final(queue)@ == old(queue)@
                &&& final(queue).spec_issued() == old(queue).spec_issued()
            },
            old(self).free(sender as int).len() > 0 ==> {
                let index = old(self).free(sender as int)[0];
                &&& r is Ok && r->Ok_0 == (if before_all(old(queue)@, instant@) {
                    Some(Raise { tgid_tid, sig: (SIGRTMIN + signo) as i32 })
                } else {
                    None
                })
                &&& final(self).inputs() == old(self).inputs().update(index as int, Some(input))
                &&& final(self).instants() == (if writes_instant {
                    old(self).instants().update(index as int, instant)
                } else {
                    old(self).instants()
                })
                &&& final(self).free(sender as int) == old(self).free(sender as int).subrange(
                    1,
                    old(self).free(sender as int).len() as int,
                )
                &&& forall|s: int|
                    0 <= s < old(self).senders() && s != sender ==> final(self).free(s) == old(
                        self,
                    ).free(s)
                &&& final(self).pending(sender as int) == old(self).pending(sender as int) + 1
                &&& final(queue)@ == old(queue)@.insert(
                    (NotReady { index, instant, task }).key(old(queue).spec_issued()),
                )
                &&& final(queue).spec_issued() == old(queue).spec_issued() + 1
            },
    {
        let at = if writes_instant {
            Some(instant)
        } else {
            None
        };
        match self.spawn(sender, input, at) {
            Ok(index) => Ok(queue.enqueue_unchecked(NotReady { index, instant, task }, tgid_tid, signo)),
            Err(input) => Err(input),
        }
    }
}

/// Nothing changed, nothing is lost.
proof fn lemma_same_complete<T>(before: Slots<T>, after: Slots<T>)
    requires
        before.complete(),
        after.capacity() == before.capacity(),
        after.senders() == before.senders(),
        after.inputs() == before.inputs(),
        forall|s: int| 0 <= s < before.senders() ==> after.free(s) == before.free(s),
    ensures
        after.complete(),
{
    assert forall|s: int, i: u8|
        0 <= s < after.senders() && s * after.capacity() <= i < (s + 1) * after.capacity()
            && after.inputs()[i as int] is None implies #[trigger] after.free(s).contains(i) by {
        assert(before.free(s).contains(i));
    }
}

/// A spawn loses no slot: the slot that it takes holds an input afterwards.
proof fn lemma_spawn_complete<T>(before: Slots<T>, after: Slots<T>, sender: int)
    requires
        before.wf(),
        before.complete(),
        0 <= sender < before.senders(),
        before.free(sender).len() > 0,
        after.capacity() == before.capacity(),
        after.senders() == before.senders(),
        after.inputs().len() == before.inputs().len(),
        after.inputs()[before.free(sender)[0] as int] is Some,
        forall|i: int|
            0 <= i < before.inputs().len() && i != before.free(sender)[0] ==> after.inputs()[i]
                == before.inputs()[i],
        after.free(sender) == before.free(sender).subrange(1, before.free(sender).len() as int),
        forall|s: int|
            0 <= s < before.senders() && s != sender ==> after.free(s) == before.free(s),
    ensures
        after.complete(),
{
    let cap = before.capacity();
    let index = before.free(sender)[0];
    assert forall|s: int, i: u8|
        0 <= s < after.senders() && s * after.capacity() <= i < (s + 1) * after.capacity()
            && after.inputs()[i as int] is None implies #[trigger] after.free(s).contains(i) by {
        lemma_run(s, cap, before.senders());
        assert(i != index);
        assert(before.inputs()[i as int] is None);
        assert(before.free(s).contains(i));
        if s == sender {
            let queue = before.free(s);
            let j = choose|j: int| 0 <= j < queue.len() && queue[j] == i;
            assert(j != 0);
            assert(after.free(s)[j - 1] == i);
        }
    }
}

/// A dispatch loses no slot: the slot that it empties goes back to the free
/// queue of its sender.
proof fn lemma_dispatch_complete<T>(before: Slots<T>, after: Slots<T>, sender: int, index: u8)
    requires
        before.wf(),
        before.complete(),
        0 <= sender < before.senders(),
        sender * before.capacity() <= index < (sender + 1) * before.capacity(),
        after.capacity() == before.capacity(),
        after.senders() == before.senders(),
        after.inputs() == before.inputs().update(index as int, None),
        after.free(sender) == before.free(sender).push(index),
        forall|s: int|
            0 <= s < before.senders() && s != sender ==> after.free(s) == before.free(s),
    ensures
        after.complete(),
{
    let cap = before.capacity();
    assert forall|s: int, i: u8|
        0 <= s < after.senders() && s * after.capacity() <= i < (s + 1) * after.capacity()
            && after.inputs()[i as int] is None implies #[trigger] after.free(s).contains(i) by {
        lemma_run(s, cap, before.senders());
        lemma_run(sender, cap, before.senders());
        if s == sender {
            if i == index {
                assert(after.free(s)[before.free(s).len() as int] == i);
            } else {
                assert(before.inputs()[i as int] is None);
                assert(before.free(s).contains(i));
                let queue = before.free(s);
                let j = choose|j: int| 0 <= j < queue.len() && queue[j] == i;
                assert(after.free(s)[j] == i);
            }
        } else {
            lemma_runs_apart(s, sender, cap);
            assert(i != index);
            assert(before.inputs()[i as int] is None);
            assert(before.free(s).contains(i));
        }
    }
}

/// A run without a pending slot holds no input.
pub proof fn lemma_occupied_zero<T>(inputs: Seq<Option<T>>, lo: int, hi: int)
    requires
        lo <= hi,
        occupied(inputs, lo, hi) == 0,
    ensures
        forall|i: int| lo <= i < hi ==> inputs[i] is None,
    decreases hi - lo,
{
    if lo < hi {
        lemma_occupied_zero(inputs, lo, hi - 1);
    }
}

/// The round trip: once every instance that a sender spawned has been
/// dispatched, however many there were and in whichever order they ran, all
/// slots of the sender are free again: each is in the sender's free queue,
/// none is lost and none is there twice.
pub proof fn lemma_all_free<T>(slots: &Slots<T>, sender: int)
    requires
        slots.wf(),
        slots.complete(),
        0 <= sender < slots.senders(),
        slots.pending(sender) == 0,
    ensures
        slots.free(sender).len() == slots.capacity(),
        slots.free(sender).no_duplicates(),
        forall|i: u8|
            sender * slots.capacity() <= i < (sender + 1) * slots.capacity()
                ==> #[trigger] slots.free(sender).contains(i),
        forall|k: int|
            0 <= k < slots.free(sender).len() ==> sender * slots.capacity()
                <= #[trigger] slots.free(sender)[k] < (sender + 1) * slots.capacity(),
{
    let cap = slots.capacity();
    lemma_run(sender, cap, slots.senders());
    assert(slots.free(sender).no_duplicates());
    lemma_occupied_zero(slots.inputs(), sender * cap, (sender + 1) * cap);
    assert forall|i: u8| sender * cap <= i < (sender + 1) * cap implies #[trigger] slots.free(
        sender,
    ).contains(i) by {
        assert(slots.inputs()[i as int] is None);
    }
}

/// Free-slot accounting: at all times the free and the pending slots of a
/// sender together are the sender's `capacity` slots, so that a sender with
/// `capacity` pending instances has no free slot, and its next `spawn` hands
/// the input back.
pub proof fn lemma_accounting<T>(slots: &Slots<T>, sender: int)
    requires
        slots.wf(),
        0 <= sender < slots.senders(),
    ensures
        slots.free(sender).len() + slots.pending(sender) == slots.capacity(),
        slots.pending(sender) == slots.capacity() <==> slots.free(sender).len() == 0,
        slots.pending(sender) == 0 <==> slots.free(sender).len() == slots.capacity(),
{
    assert(slots.free(sender).no_duplicates());
}

/// The run of a sender lies within the slots of the task.
pub proof fn lemma_run(s: int, capacity: int, senders: int)
    by (nonlinear_arith)
    requires
        0 <= s < senders,
        0 <= capacity,
    ensures
        0 <= s * capacity,
        (s + 1) * capacity == s * capacity + capacity,
        (s + 1) * capacity <= capacity * senders,
{
}

/// The runs of two senders have no slot in common.
pub proof fn lemma_runs_apart(a: int, b: int, capacity: int)
    by (nonlinear_arith)
    requires
        a != b,
        0 <= capacity,
    ensures
        (a + 1) * capacity <= b * capacity || (b + 1) * capacity <= a * capacity,
{
}

} // verus!
