//! Timer queues: per executor, the scheduled tasks that are not ready yet, in
//! a bounded min-heap ordered by the instant at which each becomes ready.
//! Entries of one instant leave in the order in which they came: the queue
//! numbers its entries as they arrive, and the heap orders by that number
//! where instants are equal.

use vstd::prelude::*;
use vstd::multiset::Multiset;
use crate::sys::SIGRTMIN;
use crate::time::{itimerspec, timespec, Instant};

verus! {

/// How many entries the heap behind a timer queue has room for.
pub const HEAP_CAPACITY: usize = 256;

/// `heapless::binary_heap::Min`, the marker of a min-heap.
#[verifier::external_type_specification]
#[verifier::external_body]
pub struct ExMin(heapless::binary_heap::Min);

/// `heapless::binary_heap::BinaryHeap`, a binary heap with room for `N`
/// entries. Nothing of its inside is known here.
#[verifier::external_type_specification]
#[verifier::external_body]
#[verifier::reject_recursive_types(T)]
#[verifier::reject_recursive_types(K)]
#[verifier::reject_recursive_types(N)]
pub struct ExBinaryHeap<T, K, const N: usize>(heapless::binary_heap::BinaryHeap<T, K, N>);

/// What the heap orders: seconds, nanoseconds, order of arrival, slot, task.
pub type Key = (i64, i64, u64, u8, u8);

/// The entries of a heap.
pub uninterp spec fn heap_items(
    h: heapless::binary_heap::BinaryHeap<(i64, i64, u64, u8, u8), heapless::binary_heap::Min, 256>,
) -> Multiset<(i64, i64, u64, u8, u8)>;

/// The order of keys: by the first component that differs. Keys are ordered
/// by their instant, and keys of one instant by their order of arrival.
pub open spec fn key_le(a: Key, b: Key) -> bool {
    a.0 < b.0 || (a.0 == b.0 && (a.1 < b.1 || (a.1 == b.1 && (a.2 < b.2 || (a.2 == b.2 && (a.3
        < b.3 || (a.3 == b.3 && a.4 <= b.4)))))))
}

/// Whether `m` is the least entry of `items`.
pub open spec fn is_least(items: Multiset<Key>, m: Key) -> bool {
    items.contains(m) && forall|k: Key| items.contains(k) ==> key_le(m, k)
}

/// `heapless::binary_heap::BinaryHeap::new`: the new heap is empty.
#[verifier::external_body]
fn heap_new() -> (h: heapless::binary_heap::BinaryHeap<
    (i64, i64, u64, u8, u8),
    heapless::binary_heap::Min,
    256,
>)
    ensures
        heap_items(h) == Multiset::<Key>::empty(),
{
    heapless::binary_heap::BinaryHeap::new()
}

/// `heapless::binary_heap::BinaryHeap::len`: the number of entries, which is
/// never above the heap's capacity of 256.
#[verifier::external_body]
fn heap_len(
    h: &heapless::binary_heap::BinaryHeap<(i64, i64, u64, u8, u8), heapless::binary_heap::Min, 256>,
) -> (n: usize)
    ensures
        n == heap_items(*h).len(),
        n <= HEAP_CAPACITY,
{
    h.len()
}

/// `heapless::binary_heap::BinaryHeap::peek`: a copy of the top entry, which
/// in a min-heap of tuples is the least one; `None` where the heap is empty.
#[verifier::external_body]
fn heap_peek(
    h: &heapless::binary_heap::BinaryHeap<(i64, i64, u64, u8, u8), heapless::binary_heap::Min, 256>,
) -> (r: Option<(i64, i64, u64, u8, u8)>)
    ensures
        heap_items(*h).len() == 0 ==> r is None,
        heap_items(*h).len() > 0 ==> r is Some && is_least(heap_items(*h), r->0),
{
    h.peek().copied()
}

/// `heapless::binary_heap::BinaryHeap::pop`: removes the top entry, the least
/// one, and returns it; `None` where the heap is empty. It compares tuples of
/// integers and does not panic.
#[verifier::external_body]
fn heap_pop(
    h: &mut heapless::binary_heap::BinaryHeap<
        (i64, i64, u64, u8, u8),
        heapless::binary_heap::Min,
        256,
    >,
) -> (r: Option<(i64, i64, u64, u8, u8)>)
    ensures
        heap_items(*old(h)).len() == 0 ==> r is None && heap_items(*final(h)) == heap_items(
            *old(h),
        ),
        heap_items(*old(h)).len() > 0 ==> r is Some && is_least(heap_items(*old(h)), r->0)
            && heap_items(*final(h)) == heap_items(*old(h)).remove(r->0),
    no_unwind
{
    h.pop()
}

/// `heapless::binary_heap::BinaryHeap::push`: adds the entry, or hands it
/// back where the heap already holds 256 entries. It compares tuples of
/// integers and does not panic.
#[verifier::external_body]
fn heap_push(
    h: &mut heapless::binary_heap::BinaryHeap<
        (i64, i64, u64, u8, u8),
        heapless::binary_heap::Min,
        256,
    >,
    item: (i64, i64, u64, u8, u8),
) -> (r: Result<(), (i64, i64, u64, u8, u8)>)
    ensures
        heap_items(*old(h)).len() < HEAP_CAPACITY ==> r is Ok && heap_items(
            *final(h),
        ) == heap_items(*old(h)).insert(item),
        heap_items(*old(h)).len() >= HEAP_CAPACITY ==> r.is_err() && r.unwrap_err() == item && heap_items(
            *final(h),
        ) == heap_items(*old(h)),
    no_unwind
{
    h.push(item)
}

/// Whether every entry came before the `order`-th.
pub open spec fn all_came_before(items: Multiset<Key>, order: u64) -> bool {
    forall|k: Key| items.contains(k) ==> k.2 < order
}

/// Pushes an entry that came before the `bound`-th onto a heap of such
/// entries.
fn push_below(
    h: &mut heapless::binary_heap::BinaryHeap<
        (i64, i64, u64, u8, u8),
        heapless::binary_heap::Min,
        256,
    >,
    item: (i64, i64, u64, u8, u8),
    bound: u64,
)
    requires
        heap_items(*old(h)).len() < HEAP_CAPACITY,
        all_came_before(heap_items(*old(h)), bound),
        item.2 < bound,
    ensures
        heap_items(*final(h)) == heap_items(*old(h)).insert(item),
        all_came_before(heap_items(*final(h)), bound),
    no_unwind
{
    let ghost items = heap_items(*h);
    let _ = heap_push(h, item);
    proof {
        assert forall|k: Key| heap_items(*h).contains(k) implies k.2 < bound by {
            if k != item {
                assert(items.insert(item).count(k) == items.count(k));
                assert(items.contains(k));
            }
        }
    }
}

/// Pops the least entry of a heap of entries that came before the
/// `bound`-th.
fn pop_below(
    h: &mut heapless::binary_heap::BinaryHeap<
        (i64, i64, u64, u8, u8),
        heapless::binary_heap::Min,
        256,
    >,
    bound: u64,
) -> (r: Option<(i64, i64, u64, u8, u8)>)
    requires
        all_came_before(heap_items(*old(h)), bound),
    ensures
        heap_items(*old(h)).len() == 0 ==> r is None && heap_items(*final(h)) == heap_items(
            *old(h),
        ),
        heap_items(*old(h)).len() > 0 ==> r is Some && is_least(heap_items(*old(h)), r->0)
            && heap_items(*final(h)) == heap_items(*old(h)).remove(r->0),
        all_came_before(heap_items(*final(h)), bound),
    no_unwind
{
    let ghost items = heap_items(*h);
    let r = heap_pop(h);
    proof {
        assert forall|k: Key| heap_items(*h).contains(k) implies k.2 < bound by {
            if items.len() > 0 {
                assert(items.count(k) >= items.remove(r->0).count(k));
            }
            assert(items.contains(k));
        }
    }
    r
}

/// A scheduled task that is not ready yet.
#[derive(Clone, Copy, PartialEq, Eq, Structural, Debug)]
pub struct NotReady {
    /// The slot that holds the task's input.
    pub index: u8,
    /// When the task becomes ready.
    pub instant: Instant,
    /// The task's tag among the tasks that the executor schedules.
    pub task: u8,
}

impl NotReady {
    /// What the heap orders the entry by, where the entry is the `order`-th
    /// that the queue takes: its instant, then its order of arrival.
    pub open spec fn key(self, order: u64) -> Key {
        (self.instant@.tv_sec, self.instant@.tv_nsec, order, self.index, self.task)
    }

    /// The entry that a key stands for.
    pub open spec fn of_key(k: Key) -> timespec {
        timespec { tv_sec: k.0, tv_nsec: k.1 }
    }
}

/// A signal to raise, without payload.
#[derive(Clone, Copy, PartialEq, Eq, Debug)]
pub struct Raise {
    /// Process and thread of the executor in a multi-core application;
    /// `None` raises the signal for the calling process.
    pub tgid_tid: Option<(i32, i32)>,
    /// The signal number.
    pub sig: i32,
}

/// What the timer handler does next.
#[derive(Clone, Copy, PartialEq, Eq, Structural, Debug)]
pub enum Dequeued {
    /// The head became ready and left the queue: its task and slot.
    Ready { task: u8, index: u8 },
    /// The head lies in the future: arm the timer with this absolute,
    /// one-shot setting.
    Rearm { setting: itimerspec },
    /// The queue is empty.
    Empty,
}

/// The timer queue of an executor.
pub struct TimerQueue {
    heap: heapless::binary_heap::BinaryHeap<
        (i64, i64, u64, u8, u8),
        heapless::binary_heap::Min,
        256,
    >,
    capacity: u8,
    issued: u64,
}

impl View for TimerQueue {
    type V = Multiset<Key>;

    closed spec fn view(&self) -> Multiset<Key> {
        heap_items(self.heap)
    }
}

/// An entry that left the queue, with its order of arrival.
#[derive(Clone, Copy, PartialEq, Eq, Debug)]
pub struct Left {
    /// The entry.
    pub entry: NotReady,
    /// The entry was the `order`-th that the queue took.
    pub order: u64,
}

/// The keys of a list of entries that left the queue.
pub open spec fn keys(entries: Seq<Left>) -> Seq<Key> {
    entries.map_values(|l: Left| l.entry.key(l.order))
}

/// What the timer handler finds when it drains the queue.
pub struct Drained {
    /// The entries that became ready, in the order in which they left.
    pub ready: Vec<Left>,
    /// How to arm the timer: for the head that is left; `None` where nothing
    /// is left.
    pub rearm: Option<itimerspec>,
}

/// Whether the instant `t` comes before the instant of every entry.
pub open spec fn before_all(items: Multiset<Key>, t: timespec) -> bool {
    forall|k: Key| items.contains(k) ==> t.spec_lt(NotReady::of_key(k))
}

/// Whether no entry with the instant of `head` came before `head`.
pub open spec fn first_of_its_instant(items: Multiset<Key>, head: Key) -> bool {
    forall|k: Key|
        items.contains(k) && NotReady::of_key(k) == NotReady::of_key(head) ==> head.2 <= k.2
}

impl TimerQueue {
    /// Every entry in the queue has an order of arrival below the number of
    /// entries that the queue has taken.
    #[verifier::type_invariant]
    closed spec fn inv(&self) -> bool {
        all_came_before(heap_items(self.heap), self.issued)
    }

    /// The most entries the queue is meant to hold: the sum of the capacities
    /// of the tasks that the executor schedules.
    pub closed spec fn spec_capacity(&self) -> u8 {
        self.capacity
    }

    /// How many entries the queue has taken since it was made: the order of
    /// arrival of the next entry.
    pub closed spec fn spec_issued(&self) -> u64 {
        self.issued
    }

    /// An empty queue for up to `capacity` entries.
    pub fn new(capacity: u8) -> (q: TimerQueue)
        ensures
            q@ == Multiset::<Key>::empty(),
            q.spec_capacity() == capacity,
            q.spec_issued() == 0,
    {
        let heap = heap_new();
        assert(all_came_before(heap_items(heap), 0)) by {
            assert forall|k: Key| heap_items(heap).contains(k) implies k.2 < 0 by {
                assert(heap_items(heap).count(k) == 0);
            }
        }
        TimerQueue { heap, capacity, issued: 0 }
    }

    /// The most entries the queue is meant to hold.
    pub fn capacity(&self) -> (c: u8)
        ensures
            c == self.spec_capacity(),
    {
        self.capacity
    }

    /// How many entries the queue has taken since it was made.
    pub fn issued(&self) -> (n: u64)
        ensures
            n == self.spec_issued(),
            all_came_before(self@, n),
    {
        proof {
            use_type_invariant(self);
        }
        self.issued
    }

    /// The number of entries.
    pub fn len(&self) -> (n: usize)
        ensures
            n == self@.len(),
    {
        heap_len(&self.heap)
    }

    /// Adds the entry `nr` to a queue that has room for it. The entry gets
    /// the next order of arrival, which is above that of every entry in the
    /// queue: of entries with one instant it leaves last.
    ///
    /// Where the queue was empty, or `nr` becomes ready before its head, the
    /// outstanding timer is stale: the result is the timer signal (at offset
    /// `signo`) to raise for the executor, so that its handler arms the timer
    /// anew. Where `nr` is not earlier than the head, the timer stays as it
    /// is and the result is `None`.
    pub fn enqueue_unchecked(
        &mut self,
        nr: NotReady,
        tgid_tid: Option<(i32, i32)>,
        signo: u8,
    ) -> (r: Option<Raise>)
        requires
            old(self)@.len() < old(self).spec_capacity(),
            old(self).spec_issued() < u64::MAX,
        ensures
            final(self)@ == old(self)@.insert(nr.key(old(self).spec_issued())),
            all_came_before(old(self)@, old(self).spec_issued()),
            final(self).spec_issued() == old(self).spec_issued() + 1,
            final(self).spec_capacity() == old(self).spec_capacity(),
            before_all(old(self)@, nr.instant@) ==> r == Some(
                Raise { tgid_tid, sig: (SIGRTMIN + signo) as i32 },
            ),
            !before_all(old(self)@, nr.instant@) ==> r is None,
    {
        proof {
            use_type_invariant(&*self);
        }
        let ghost items = self@;
        let ts = nr.instant.to_timespec();
        let earlier = match heap_peek(&self.heap) {
            Some(head) => {
                let head_ts = timespec { tv_sec: head.0, tv_nsec: head.1 };
                proof {
                    if ts.spec_lt(head_ts) {
                        assert forall|k: Key| items.contains(k) implies ts.spec_lt(
                            NotReady::of_key(k),
                        ) by {
                            assert(key_le(head, k));
                        }
                    } else {
                        assert(items.contains(head));
                    }
                }
                ts.lt(&head_ts)
            },
            None => {
                proof {
                    assert forall|k: Key| items.contains(k) implies ts.spec_lt(
                        NotReady::of_key(k),
                    ) by {
                        assert(items.count(k) <= items.len());
                    }
                }
                true
            },
        };
        let r = if earlier {
            Some(Raise { tgid_tid, sig: SIGRTMIN + signo as i32 })
        } else {
            None
        };
        let order: u64 = self.issued;
        let bound: u64 = order + 1;
        self.issued = bound;
        let key: Key = (ts.tv_sec, ts.tv_nsec, order, nr.index, nr.task);
        push_below(&mut self.heap, key, bound);
        r
    }

    /// Adds the entry `nr` as `enqueue_unchecked` does, or hands it back
    /// where the queue is full or has taken as many entries as can be
    /// counted.
    pub fn enqueue(&mut self, nr: NotReady, tgid_tid: Option<(i32, i32)>, signo: u8) -> (r: Result<
        Option<Raise>,
        NotReady,
    >)
        ensures
            final(self).spec_capacity() == old(self).spec_capacity(),
            all_came_before(old(self)@, old(self).spec_issued()),
            old(self)@.len() >= old(self).spec_capacity() || old(self).spec_issued() == u64::MAX
                ==> r is Err && r->Err_0 == nr && final(self)@ == old(self)@
                && final(self).spec_issued() == old(self).spec_issued(),
            old(self)@.len() < old(self).spec_capacity() && old(self).spec_issued() < u64::MAX
                ==> final(self)@ == old(self)@.insert(nr.key(old(self).spec_issued()))
                && final(self).spec_issued() == old(self).spec_issued() + 1 && r is Ok && r->Ok_0 == (
            if before_all(old(self)@, nr.instant@) {
                Some(Raise { tgid_tid, sig: (SIGRTMIN + signo) as i32 })
            } else {
                None
            }),
    {
        proof {
            use_type_invariant(&*self);
        }
        if self.len() < self.capacity as usize && self.issued < u64::MAX {
            Ok(self.enqueue_unchecked(nr, tgid_tid, signo))
        } else {
            Err(nr)
        }
    }

    /// The timer handler at the instant `now`: `dequeue` until the queue is
    /// empty or its head lies in the future.
    ///
    /// The entries whose instant is not after `now` leave the queue, earliest
    /// first, and those of one instant in the order in which they came; the
    /// others stay. Afterwards the timer is to be armed for the head that is
    /// left, if any.
    pub fn drain(&mut self, now: Instant) -> (r: Drained)
        ensures
            final(self).spec_capacity() == old(self).spec_capacity(),
            final(self).spec_issued() == old(self).spec_issued(),
            old(self)@ == final(self)@.add(keys(r.ready@).to_multiset()),
            forall|i: int|
                0 <= i < r.ready@.len() ==> !now@.spec_lt(#[trigger] r.ready@[i].entry.instant@),
            forall|i: int, j: int|
                0 <= i < j < r.ready@.len() ==> #[trigger] key_le(keys(r.ready@)[i], keys(r.ready@)[j]),
            forall|i: int, j: int|
                0 <= i < j < r.ready@.len() && r.ready@[i].entry.instant@
                    == r.ready@[j].entry.instant@ ==> (#[trigger] r.ready@[i]).order <= (
                #[trigger] r.ready@[j]).order,
            before_all(final(self)@, now@),
            final(self)@.len() == 0 <==> r.rearm is None,
            r.rearm matches Some(setting) ==> setting.it_interval == (timespec {
                tv_sec: 0,
                tv_nsec: 0,
            }) && exists|head: Key| #[trigger]
                is_least(final(self)@, head) && setting.it_value == NotReady::of_key(head),
    {
        broadcast use vstd::seq_lib::group_to_multiset_ensures;

        proof {
            use_type_invariant(&*self);
        }
        let mut ready: Vec<Left> = Vec::new();
        let now_ts = now.to_timespec();
        assert(keys(ready@) =~= Seq::<Key>::empty());
        assert(old(self)@ =~= self@.add(keys(ready@).to_multiset()));
        loop
            invariant
                self.spec_capacity() == old(self).spec_capacity(),
                self.spec_issued() == old(self).spec_issued(),
                now_ts == now@,
                old(self)@ == self@.add(keys(ready@).to_multiset()),
                forall|i: int|
                    0 <= i < ready@.len() ==> !now@.spec_lt(#[trigger] ready@[i].entry.instant@),
                forall|i: int, j: int|
                    0 <= i < j < ready@.len() ==> #[trigger] key_le(keys(ready@)[i], keys(ready@)[j]),
                forall|i: int, k: Key|
                    0 <= i < ready@.len() && self@.contains(k) ==> #[trigger] key_le(
                        keys(ready@)[i],
                        k,
                    ),
            decreases self@.len(),
        {
            let ghost before = self@;
            let ghost out = ready@;
            match heap_peek(&self.heap) {
                None => {
                    proof {
                        assert forall|k: Key| self@.contains(k) implies now@.spec_lt(
                            NotReady::of_key(k),
                        ) by {
                            assert(self@.count(k) <= self@.len());
                        }
                        lemma_sorted_ties(ready@);
                    }
                    return Drained { ready, rearm: None };
                },
                Some(head) => {
                    let instant = timespec { tv_sec: head.0, tv_nsec: head.1 };
                    if now_ts.lt(&instant) {
                        proof {
                            assert forall|k: Key| self@.contains(k) implies now@.spec_lt(
                                NotReady::of_key(k),
                            ) by {
                                assert(key_le(head, k));
                            }
                            assert(self@.count(head) <= self@.len());
                            lemma_sorted_ties(ready@);
                        }
                        return Drained {
                            ready,
                            rearm: Some(
                                itimerspec {
                                    it_interval: timespec { tv_sec: 0, tv_nsec: 0 },
                                    it_value: instant,
                                },
                            ),
                        };
                    }
                    proof {
                        use_type_invariant(&*self);
                    }
                    let bound: u64 = self.issued;
                    let popped = pop_below(&mut self.heap, bound);
                    proof {
                        lemma_least_unique(before, head, popped->0);
                    }
                    let left = Left {
                        entry: NotReady {
                            index: head.3,
                            instant: Instant::from_timespec(instant),
                            task: head.4,
                        },
                        order: head.2,
                    };
                    ready.push(left);
                    proof {
                        assert(left.entry.key(left.order) == head);
                        vstd::seq_lib::to_multiset_build(keys(out), head);
                        assert(keys(ready@) =~= keys(out).push(head));
                        assert(self@ == before.remove(head));
                        assert(before =~= self@.insert(head));
                        let m_out = keys(out).to_multiset();
                        let m_new = keys(ready@).to_multiset();
                        assert(m_new =~= m_out.insert(head));
                        assert(old(self)@ == before.add(m_out));
                        assert forall|k: Key| self@.insert(head).add(m_out).count(k) == self@.add(
                            m_out.insert(head),
                        ).count(k) by {
                            assert(self@.insert(head).count(k) == self@.count(k) + (if k
                                == head {
                                1nat
                            } else {
                                0nat
                            }));
                            assert(m_out.insert(head).count(k) == m_out.count(k) + (if k
                                == head {
                                1nat
                            } else {
                                0nat
                            }));
                        }
                        assert(self@.insert(head).add(m_out) =~= self@.add(m_out.insert(head)));
                        assert(old(self)@ =~= self@.add(keys(ready@).to_multiset()));
                        assert forall|i: int, j: int|
                            0 <= i < j < ready@.len() implies #[trigger] key_le(
                            keys(ready@)[i],
                            keys(ready@)[j],
                        ) by {
                            if j == out.len() {
                                assert(keys(ready@)[i] == keys(out)[i]);
                                assert(before.contains(head));
                            } else {
                                assert(keys(ready@)[i] == keys(out)[i] && keys(ready@)[j] == keys(
                                    out,
                                )[j]);
                            }
                        }
                        assert forall|i: int, k: Key|
                            0 <= i < ready@.len() && self@.contains(k) implies #[trigger] key_le(
                            keys(ready@)[i],
                            k,
                        ) by {
                            assert(before.contains(k)) by {
                                assert(before.count(k) >= self@.count(k));
                            }
                            if i == out.len() {
                                assert(key_le(head, k));
                            } else {
                                assert(keys(ready@)[i] == keys(out)[i]);
                            }
                        }
                        assert(self@.len() < before.len());
                    }
                },
            }
        }
    }

    /// One step of the timer handler at the instant `now`.
    ///
    /// Where the head's instant is not after `now`, the head leaves the queue
    /// and its task is ready. Where the head lies in the future, the timer is
    /// to be armed for the head's instant. The head is the entry with the
    /// earliest instant, and of the entries with that instant the one that
    /// came first.
    pub fn dequeue(&mut self, now: Instant) -> (r: Dequeued)
        ensures
            final(self).spec_capacity() == old(self).spec_capacity(),
            final(self).spec_issued() == old(self).spec_issued(),
            old(self)@.len() == 0 ==> r == Dequeued::Empty && final(self)@ == old(self)@,
            old(self)@.len() > 0 ==> exists|head: Key| #[trigger]
                is_least(old(self)@, head) && first_of_its_instant(old(self)@, head) && (
                if now@.spec_lt(NotReady::of_key(head)) {
                    &&& r == (Dequeued::Rearm {
                        setting: itimerspec {
                            it_interval: timespec { tv_sec: 0, tv_nsec: 0 },
                            it_value: NotReady::of_key(head),
                        },
                    })
                    &&& final(self)@ == old(self)@
                } else {
                    &&& r == (Dequeued::Ready { task: head.4, index: head.3 })
                    &&& final(self)@ == old(self)@.remove(head)
                }),
    {
        proof {
            use_type_invariant(&*self);
        }
        match heap_peek(&self.heap) {
            Some(head) => {
                let instant = timespec { tv_sec: head.0, tv_nsec: head.1 };
                let now_ts = now.to_timespec();
                proof {
                    lemma_least_is_first(old(self)@, head);
                }
                if !now_ts.lt(&instant) {
                    let bound: u64 = self.issued;
                    let popped = pop_below(&mut self.heap, bound);
                    proof {
                        lemma_least_unique(old(self)@, head, popped->0);
                    }
                    Dequeued::Ready { task: head.4, index: head.3 }
                } else {
                    Dequeued::Rearm {
                        setting: itimerspec {
                            it_interval: timespec { tv_sec: 0, tv_nsec: 0 },
                            it_value: instant,
                        },
                    }
                }
            },
            None => Dequeued::Empty,
        }
    }
}

/// Schedule monotonicity: of two entries of a timer queue the one with the
/// earlier instant leaves first.
///
/// While an entry `a` with an earlier instant than `b` is in the queue, `b`
/// is not the head, and only the head leaves.
pub proof fn lemma_earlier_leaves_first(items: Multiset<Key>, a: Key, b: Key, head: Key)
    requires
        items.contains(a),
        items.contains(b),
        NotReady::of_key(a).spec_lt(NotReady::of_key(b)),
        is_least(items, head),
    ensures
        head != b,
        !NotReady::of_key(a).spec_lt(NotReady::of_key(head)),
{
    assert(key_le(head, a));
}

/// Entries of one instant leave in the order in which they came: while an
/// entry `a` that came before `b`, with the instant of `b`, is in the queue,
/// `b` is not the head, and only the head leaves.
pub proof fn lemma_ties_leave_in_order(items: Multiset<Key>, a: Key, b: Key, head: Key)
    requires
        items.contains(a),
        items.contains(b),
        NotReady::of_key(a) == NotReady::of_key(b),
        a.2 < b.2,
        is_least(items, head),
    ensures
        head != b,
{
    assert(key_le(head, a));
}

/// The least entry is the first of its instant.
pub proof fn lemma_least_is_first(items: Multiset<Key>, head: Key)
    requires
        is_least(items, head),
    ensures
        first_of_its_instant(items, head),
{
    assert forall|k: Key|
        items.contains(k) && NotReady::of_key(k) == NotReady::of_key(head) implies head.2
        <= k.2 by {
        assert(key_le(head, k));
    }
}

/// In a list of entries that is ordered by key, entries of one instant stand
/// in their order of arrival.
proof fn lemma_sorted_ties(ready: Seq<Left>)
    requires
        forall|i: int, j: int|
            0 <= i < j < ready.len() ==> #[trigger] key_le(keys(ready)[i], keys(ready)[j]),
    ensures
        forall|i: int, j: int|
            0 <= i < j < ready.len() && ready[i].entry.instant@ == ready[j].entry.instant@ ==> (
            #[trigger] ready[i]).order <= (#[trigger] ready[j]).order,
{
    assert forall|i: int, j: int|
        0 <= i < j < ready.len() && ready[i].entry.instant@ == ready[j].entry.instant@ implies (
    #[trigger] ready[i]).order <= (#[trigger] ready[j]).order by {
        assert(key_le(keys(ready)[i], keys(ready)[j]));
    }
}

/// An entry that is not earlier than the head leaves the timer as it is: the
/// head of the queue keeps its instant, and no signal is raised.
pub proof fn lemma_later_keeps_timer(items: Multiset<Key>, head: Key, nr: NotReady, order: u64, after: Key)
    requires
        is_least(items, head),
        !nr.instant@.spec_lt(NotReady::of_key(head)),
        is_least(items.insert(nr.key(order)), after),
    ensures
        !before_all(items, nr.instant@),
        NotReady::of_key(after) == NotReady::of_key(head),
{
    let grown = items.insert(nr.key(order));
    assert(grown.contains(head)) by {
        assert(grown.count(head) >= items.count(head));
    }
    assert(key_le(after, head));
    if after != nr.key(order) {
        assert(items.contains(after)) by {
            assert(grown.count(after) == items.count(after));
        }
        assert(key_le(head, after));
    }
}

/// An entry that is earlier than every entry of the queue becomes the head:
/// the timer is stale, and the signal that re-arms it is raised.
pub proof fn lemma_earlier_becomes_head(items: Multiset<Key>, nr: NotReady, order: u64, after: Key)
    requires
        before_all(items, nr.instant@),
        is_least(items.insert(nr.key(order)), after),
    ensures
        after == nr.key(order),
{
    let grown = items.insert(nr.key(order));
    if after != nr.key(order) {
        assert(items.contains(after)) by {
            assert(grown.count(after) == items.count(after));
        }
        assert(grown.contains(nr.key(order))) by {
            assert(grown.count(nr.key(order)) == items.count(nr.key(order)) + 1);
        }
        assert(key_le(after, nr.key(order)));
        assert(nr.instant@.spec_lt(NotReady::of_key(after)));
    }
}

/// A multiset of keys has at most one least entry.
pub proof fn lemma_least_unique(items: Multiset<Key>, a: Key, b: Key)
    requires
        is_least(items, a),
        is_least(items, b),
    ensures
        a == b,
{
    assert(key_le(a, b));
    assert(key_le(b, a));
}

} // verus!
