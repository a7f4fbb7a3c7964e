//! Free queues: the slots of a task's input buffer that hold no input, kept
//! in a bounded single-producer, single-consumer ring.

use vstd::prelude::*;

verus! {

/// How many slots a free queue can hold: one less than the ring's size.
pub const RING_CAPACITY: usize = 255;

/// `heapless::spsc::Queue`, a ring of `N` places that holds up to `N - 1`
/// items. Nothing of its inside is known here.
#[verifier::external_type_specification]
#[verifier::external_body]
#[verifier::reject_recursive_types(T)]
#[verifier::reject_recursive_types(N)]
pub struct ExQueue<T, const N: usize>(heapless::spsc::Queue<T, N>);

/// The items of a ring, the one that leaves next first.
pub uninterp spec fn ring_items(q: heapless::spsc::Queue<u8, 256>) -> Seq<u8>;

/// `heapless::spsc::Queue::new`: the new ring is empty.
#[verifier::external_body]
fn ring_new() -> (q: heapless::spsc::Queue<u8, 256>)
    ensures
        ring_items(q) == Seq::<u8>::empty(),
{
    heapless::spsc::Queue::new()
}

/// `heapless::spsc::Queue::len`: the number of items in the ring, which is
/// never above the ring's capacity of 255.
#[verifier::external_body]
fn ring_len(q: &heapless::spsc::Queue<u8, 256>) -> (n: usize)
    ensures
        n == ring_items(*q).len(),
        n <= RING_CAPACITY,
{
    q.len()
}

/// `heapless::spsc::Queue::enqueue`: adds the item at the end of the ring, or
/// hands it back where the ring already holds 255 items.
#[verifier::external_body]
fn ring_enqueue(q: &mut heapless::spsc::Queue<u8, 256>, val: u8) -> (r: Result<(), u8>)
    ensures
        ring_items(*old(q)).len() < RING_CAPACITY ==> r is Ok && ring_items(
            *final(q),
        ) == ring_items(*old(q)).push(val),
        ring_items(*old(q)).len() >= RING_CAPACITY ==> r.is_err() && r.unwrap_err() == val && ring_items(
            *final(q),
        ) == ring_items(*old(q)),
{
    q.enqueue(val)
}

/// `heapless::spsc::Queue::dequeue`: takes the item at the front of the ring,
/// or returns `None` where the ring is empty.
#[verifier::external_body]
fn ring_dequeue(q: &mut heapless::spsc::Queue<u8, 256>) -> (r: Option<u8>)
    ensures
        ring_items(*old(q)).len() == 0 ==> r is None && ring_items(*final(q)) == ring_items(
            *old(q),
        ),
        ring_items(*old(q)).len() > 0 ==> r == Some(ring_items(*old(q))[0]) && ring_items(
            *final(q),
        ) == ring_items(*old(q)).subrange(1, ring_items(*old(q)).len() as int),
{
    q.dequeue()
}

/// Queue version of a free-list that keeps track of the empty slots of a
/// task's buffers. The sender takes slots from its front, the dispatcher
/// returns them at its back.
pub struct FreeQueue {
    ring: heapless::spsc::Queue<u8, 256>,
}

impl View for FreeQueue {
    type V = Seq<u8>;

    closed spec fn view(&self) -> Seq<u8> {
        ring_items(self.ring)
    }
}

impl FreeQueue {
    /// An empty queue.
    pub fn new() -> (q: FreeQueue)
        ensures
            q@ == Seq::<u8>::empty(),
    {
        FreeQueue { ring: ring_new() }
    }

    /// The number of free slots.
    pub fn len(&self) -> (n: usize)
        ensures
            n == self@.len(),
            n <= RING_CAPACITY,
    {
        ring_len(&self.ring)
    }

    /// Whether no slot is free.
    pub fn is_empty(&self) -> (b: bool)
        ensures
            b == (self@.len() == 0),
    {
        ring_len(&self.ring) == 0
    }

    /// Returns slot `index` to the queue, or hands it back where the queue
    /// is full.
    pub fn enqueue(&mut self, index: u8) -> (r: Result<(), u8>)
        ensures
            old(self)@.len() < RING_CAPACITY ==> r is Ok && final(self)@ == old(
                self,
            )@.push(index),
            old(self)@.len() >= RING_CAPACITY ==> r.is_err() && r.unwrap_err() == index && final(self)@
                == old(self)@,
    {
        ring_enqueue(&mut self.ring, index)
    }

    /// Returns slot `index` to a queue that has room for it.
    pub fn enqueue_unchecked(&mut self, index: u8)
        requires
            old(self)@.len() < RING_CAPACITY,
        ensures
            final(self)@ == old(self)@.push(index),
    {
        let _ = ring_enqueue(&mut self.ring, index);
    }

    /// Takes the slot that was freed first, if any is free.
    pub fn dequeue(&mut self) -> (r: Option<u8>)
        ensures
            old(self)@.len() == 0 ==> r is None && final(self)@ == old(self)@,
            old(self)@.len() > 0 ==> r == Some(old(self)@[0]) && final(self)@ == old(
                self,
            )@.subrange(1, old(self)@.len() as int),
    {
        ring_dequeue(&mut self.ring)
    }

    /// Puts the `count` slots from `first` upwards into the queue, lowest
    /// first: what the bootstrap does with each sender's share of a task's
    /// slots.
    pub fn fill(&mut self, first: u8, count: u8)
        requires
            old(self)@.len() + count <= RING_CAPACITY,
            first + count <= 256,
        ensures
            final(self)@ == old(self)@ + Seq::new(count as nat, |i: int| (first + i) as u8),
    {
        let mut done: u8 = 0;
        while done < count
            invariant
                done <= count,
                first + count <= 256,
                old(self)@.len() + count <= RING_CAPACITY,
                self@ == old(self)@ + Seq::new(done as nat, |i: int| (first + i) as u8),
            decreases count - done,
        {
            let ghost before = self@;
            self.enqueue_unchecked(first + done);
            done += 1;
            assert(self@ =~= old(self)@ + Seq::new(done as nat, |i: int| (first + i) as u8));
        }
    }
}

} // verus!
