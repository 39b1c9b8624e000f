//! The bounded, non-blocking relay queue that bridges the two domains.
use ringbuf::{HeapRb, Rb};
use vstd::prelude::*;

verus! {

/// A fixed-capacity FIFO of packets backed by a heap ring buffer.
///
/// `push` on a full queue hands the incoming packet back and leaves the queue
/// as it was; `pop` on an empty queue returns `None`. Neither ever waits.
#[verifier::external_body]
pub struct RelayQueue {
    ring: HeapRb<Vec<u32>>,
}

/// The packets held by a relay queue, oldest first.
pub uninterp spec fn queue_items(q: RelayQueue) -> Seq<Seq<u32>>;

/// The capacity a relay queue was created with.
pub uninterp spec fn queue_capacity(q: RelayQueue) -> nat;

/// The queue after offering `p`: appended when there is room, else unchanged.
pub open spec fn pushed(items: Seq<Seq<u32>>, cap: nat, p: Seq<u32>) -> Seq<Seq<u32>> {
    if items.len() < cap {
        items.push(p)
    } else {
        items
    }
}

/// The queue after offering each of `ps` in turn.
pub open spec fn pushed_all(items: Seq<Seq<u32>>, cap: nat, ps: Seq<Seq<u32>>) -> Seq<
    Seq<u32>,
>
    decreases ps.len(),
{
    if ps.len() == 0 {
        items
    } else {
        pushed(pushed_all(items, cap, ps.drop_last()), cap, ps.last())
    }
}

/// What `n` successive pops hand out, in order (a pop on an empty queue hands
/// out nothing).
pub open spec fn drained(items: Seq<Seq<u32>>, n: nat) -> Seq<Seq<u32>> {
    items.take(if n <= items.len() { n as int } else { items.len() as int })
}

/// Popping from a queue that holds packets hands out its oldest one and then
/// what the rest would hand out, which is how `pop` behaves.
pub proof fn lemma_drained_step(items: Seq<Seq<u32>>, n: nat)
    requires
        items.len() > 0,
    ensures
        drained(items, n + 1) == seq![items[0]] + drained(items.drop_first(), n),
{
    assert(drained(items, n + 1) =~= seq![items[0]] + drained(items.drop_first(), n));
}

/// Offering packets to a queue with room for all of them, then popping as many
/// packets as it holds, hands out the packets already queued followed by the
/// offered ones, in the order they were offered and unchanged.
pub proof fn lemma_fifo(items: Seq<Seq<u32>>, cap: nat, ps: Seq<Seq<u32>>)
    requires
        items.len() + ps.len() <= cap,
    ensures
        pushed_all(items, cap, ps) == items + ps,
        drained(pushed_all(items, cap, ps), items.len() + ps.len()) == items + ps,
    decreases ps.len(),
{
    if ps.len() > 0 {
        lemma_fifo(items, cap, ps.drop_last());
        assert(items + ps == (items + ps.drop_last()).push(ps.last()));
    } else {
        assert(items + ps == items);
    }
    assert((items + ps).take((items + ps).len() as int) == items + ps);
}

/// Offering a packet to a full queue leaves the queue exactly as it was: the
/// incoming packet alone is dropped.
pub proof fn lemma_full_drops_incoming(items: Seq<Seq<u32>>, cap: nat, p: Seq<u32>)
    requires
        items.len() >= cap,
    ensures
        pushed(items, cap, p) == items,
{
}

impl RelayQueue {
    pub open spec fn items(self) -> Seq<Seq<u32>> {
        queue_items(self)
    }

    pub open spec fn capacity_spec(self) -> nat {
        queue_capacity(self)
    }

    /// The queue holds no more packets than its capacity, which is positive.
    pub open spec fn wf(self) -> bool {
        &&& 0 < self.capacity_spec()
        &&& self.items().len() <= self.capacity_spec()
    }

    /// Relies on `HeapRb::new`: an empty ring of the given capacity
    /// (it panics on a zero capacity).
    #[verifier::external_body]
    fn ring_new(capacity: usize) -> (r: RelayQueue)
        requires
            capacity > 0,
        ensures
            queue_items(r) == Seq::<Seq<u32>>::empty(),
            queue_capacity(r) == capacity,
    {
        RelayQueue { ring: HeapRb::new(capacity) }
    }

    /// An empty queue that holds up to `capacity` packets.
    pub fn new(capacity: usize) -> (r: RelayQueue)
        requires
            capacity > 0,
        ensures
            r.wf(),
            r.items() == Seq::<Seq<u32>>::empty(),
            r.capacity_spec() == capacity,
    {
        RelayQueue::ring_new(capacity)
    }

    /// Relies on `Rb::push`: appends at the back when there is room, else hands
    /// the packet back and leaves the ring unchanged.
    #[verifier::external_body]
    fn ring_push(&mut self, p: Vec<u32>) -> (r: Result<(), Vec<u32>>)
        ensures
            queue_capacity(*final(self)) == queue_capacity(*old(self)),
            queue_items(*old(self)).len() < queue_capacity(*old(self)) ==> {
                &&& r is Ok
                &&& queue_items(*final(self)) == queue_items(*old(self)).push(p@)
            },
            queue_items(*old(self)).len() >= queue_capacity(*old(self)) ==> {
                &&& r == Err::<(), Vec<u32>>(p)
                &&& queue_items(*final(self)) == queue_items(*old(self))
            },
    {
        self.ring.push(p)
    }

    /// Relies on `Rb::pop`: removes and returns the oldest packet, if any.
    #[verifier::external_body]
    fn ring_pop(&mut self) -> (r: Option<Vec<u32>>)
        ensures
            queue_capacity(*final(self)) == queue_capacity(*old(self)),
            queue_items(*old(self)).len() == 0 ==> {
                &&& r is None
                &&& queue_items(*final(self)) == queue_items(*old(self))
            },
            queue_items(*old(self)).len() > 0 ==> {
                &&& r is Some
                &&& r->0@ == queue_items(*old(self))[0]
                &&& queue_items(*final(self)) == queue_items(*old(self)).drop_first()
            },
    {
        self.ring.pop()
    }
    /// Offers a packet without waiting. Returns whether it was queued; on a
    /// full queue the packet is dropped and the queue is left unchanged.
    pub fn push(&mut self, p: Vec<u32>) -> (queued: bool)
        ensures
            final(self).capacity_spec() == old(self).capacity_spec(),
            final(self).items() == pushed(old(self).items(), old(self).capacity_spec(), p@),
            queued == (old(self).items().len() < old(self).capacity_spec()),
    {
        match self.ring_push(p) {
            Ok(()) => true,
            Err(_) => false,
        }
    }

    /// Takes the oldest packet without waiting; `None` when the queue is empty.
    pub fn pop(&mut self) -> (r: Option<Vec<u32>>)
        ensures
            final(self).capacity_spec() == old(self).capacity_spec(),
            old(self).items().len() == 0 ==> r is None && final(self).items() == old(self).items(),
            old(self).items().len() > 0 ==> {
                &&& r is Some
                &&& r->0@ == old(self).items()[0]
                &&& final(self).items() == old(self).items().drop_first()
            },
    {
        self.ring_pop()
    }
}

} // verus!
