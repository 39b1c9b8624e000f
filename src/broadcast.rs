//! The flow broadcaster: fans packets out to any number of subscribers, each
//! with a bounded queue of its own that drops its oldest packet on overflow.
use crate::capture::{copy_range, views};
use crate::relay::RelayQueue;
use vstd::prelude::*;

verus! {

/// A subscriber's queue after `p` is delivered to it: appended, with the
/// oldest packet dropped first when the queue already holds `cap` packets.
pub open spec fn lagged_push(pending: Seq<Seq<u32>>, cap: nat, p: Seq<u32>) -> Seq<Seq<u32>> {
    if pending.len() < cap {
        pending.push(p)
    } else {
        pending.drop_first().push(p)
    }
}

/// One subscriber slot after `p` is published: an open one gets it, a closed
/// one stays closed.
pub open spec fn delivered_to(s: Option<Seq<Seq<u32>>>, cap: nat, p: Seq<u32>) -> Option<
    Seq<Seq<u32>>,
> {
    match s {
        Some(q) => Some(lagged_push(q, cap, p)),
        None => None,
    }
}

/// All subscriber slots after `p` is published.
pub open spec fn delivered(
    subs: Seq<Option<Seq<Seq<u32>>>>,
    cap: nat,
    p: Seq<u32>,
) -> Seq<Option<Seq<Seq<u32>>>> {
    subs.map_values(|s: Option<Seq<Seq<u32>>>| delivered_to(s, cap, p))
}

/// The view of one subscriber slot.
pub open spec fn slot_view(s: Option<Vec<Vec<u32>>>) -> Option<Seq<Seq<u32>>> {
    match s {
        Some(q) => Some(views(q@)),
        None => None,
    }
}

/// Publishing is isolated between subscribers: what subscriber `i` holds
/// afterwards depends on what it held before and on the packet alone, never
/// on any other subscriber; and a subscriber with room in its queue loses
/// nothing and finds the packet at the back.
pub proof fn lemma_isolation(
    subs1: Seq<Option<Seq<Seq<u32>>>>,
    subs2: Seq<Option<Seq<Seq<u32>>>>,
    cap: nat,
    p: Seq<u32>,
    i: int,
)
    requires
        0 <= i < subs1.len(),
        0 <= i < subs2.len(),
        subs1[i] == subs2[i],
    ensures
        delivered(subs1, cap, p)[i] == delivered(subs2, cap, p)[i],
        delivered(subs1, cap, p).len() == subs1.len(),
        subs1[i] is Some && subs1[i]->0.len() < cap ==> delivered(subs1, cap, p)[i] == Some(
            subs1[i]->0.push(p),
        ),
{
}

/// A subscriber that takes each packet as soon as it is published receives
/// every packet: with an empty queue before a publish, its queue afterwards
/// holds exactly the published packet, whatever the other subscribers hold.
pub proof fn lemma_prompt_subscriber_misses_nothing(
    subs: Seq<Option<Seq<Seq<u32>>>>,
    cap: nat,
    p: Seq<u32>,
    i: int,
)
    requires
        0 < cap,
        0 <= i < subs.len(),
        subs[i] == Some(Seq::<Seq<u32>>::empty()),
    ensures
        delivered(subs, cap, p)[i] == Some(seq![p]),
{
    assert(Seq::<Seq<u32>>::empty().push(p) == seq![p]);
}

/// Fan-out of packets to subscribers, each identified by the index it was
/// given when it subscribed.
pub struct Broadcaster {
    subscribers: Vec<Option<Vec<Vec<u32>>>>,
    capacity: usize,
}

impl View for Broadcaster {
    type V = Seq<Option<Seq<Seq<u32>>>>;

    closed spec fn view(&self) -> Self::V {
        self.subscribers@.map_values(|s: Option<Vec<Vec<u32>>>| slot_view(s))
    }
}

impl Broadcaster {
    /// The number of packets each subscriber's queue holds before it drops
    /// its oldest.
    pub closed spec fn capacity_spec(&self) -> nat {
        self.capacity as nat
    }

    /// The capacity is positive and no subscriber holds more than it.
    pub open spec fn wf(&self) -> bool {
        &&& 0 < self.capacity_spec()
        &&& forall|i: int|
            0 <= i < self@.len() && (#[trigger] self@[i]) is Some ==> self@[i]->0.len()
                <= self.capacity_spec()
    }

    /// A broadcaster with no subscribers.
    pub fn new(capacity: usize) -> (r: Broadcaster)
        requires
            capacity > 0,
        ensures
            r.wf(),
            r@ == Seq::<Option<Seq<Seq<u32>>>>::empty(),
            r.capacity_spec() == capacity,
    {
        let r = Broadcaster { subscribers: Vec::new(), capacity };
        assert(r@ =~= Seq::<Option<Seq<Seq<u32>>>>::empty());
        r
    }

    /// Adds a subscriber with an empty queue and returns its index.
    pub fn subscribe(&mut self) -> (id: usize)
        requires
            old(self).wf(),
        ensures
            final(self).wf(),
            final(self).capacity_spec() == old(self).capacity_spec(),
            id == old(self)@.len(),
            final(self)@ == old(self)@.push(Some(Seq::<Seq<u32>>::empty())),
    {
        let ghost before = self@;
        let id = self.subscribers.len();
        self.subscribers.push(Some(Vec::new()));
        assert(views(Seq::<Vec<u32>>::empty()) =~= Seq::<Seq<u32>>::empty());
        assert(self@ =~= before.push(Some(Seq::<Seq<u32>>::empty())));
        id
    }

    /// Delivers a copy of `p` to every open subscriber; one whose queue is
    /// full first drops its oldest packet. Never waits on any subscriber.
    pub fn publish(&mut self, p: &Vec<u32>)
        requires
            old(self).wf(),
        ensures
            final(self).wf(),
            final(self).capacity_spec() == old(self).capacity_spec(),
            final(self)@ == delivered(old(self)@, old(self).capacity_spec(), p@),
    {
        let ghost before = self@;
        let ghost cap = self.capacity as nat;
        let n = self.subscribers.len();
        let mut i: usize = 0;
        while i < n
            invariant
                i <= n == self.subscribers@.len() == before.len(),
                cap == self.capacity,
                0 < cap,
                forall|j: int| 0 <= j < before.len() && (#[trigger] before[j]) is Some
                    ==> before[j]->0.len() <= cap,
                forall|j: int| 0 <= j < i ==> #[trigger] self@[j] == delivered_to(before[j], cap, p@),
                forall|j: int| i <= j < n ==> #[trigger] self@[j] == before[j],
            decreases n - i,
        {
            let ghost mid = self@;
            let ghost mid_slots = self.subscribers@;
            assert(mid[i as int] == before[i as int]);
            assert(mid[i as int] == slot_view(mid_slots[i as int]));
            let slot = self.subscribers.remove(i);
            let next = match slot {
                Some(mut q) => {
                    let ghost q0 = views(q@);
                    if q.len() >= self.capacity {
                        q.remove(0);
                        assert(views(q@) =~= q0.drop_first());
                    }
                    let ghost q1 = views(q@);
                    q.push(copy_range(p, 0, p.len()));
                    assert(p@.subrange(0, p@.len() as int) =~= p@);
                    assert(views(q@) =~= q1.push(p@));
                    assert(views(q@) == lagged_push(q0, cap, p@));
                    Some(q)
                },
                None => None,
            };
            self.subscribers.insert(i, next);
            assert(slot_view(mid_slots[i as int]) == before[i as int]);
            assert(self@[i as int] == delivered_to(before[i as int], cap, p@));
            assert forall|j: int| 0 <= j < n && j != i implies #[trigger] self@[j] == mid[j] by {
                assert(self.subscribers@[j] == mid_slots[j]);
            }
            i = i + 1;
        }
        assert(self@ =~= delivered(before, cap, p@));
    }

    /// Takes the oldest packet waiting for subscriber `id`; `None` when its
    /// queue is empty, or when there is no open subscriber `id`.
    pub fn recv(&mut self, id: usize) -> (r: Option<Vec<u32>>)
        requires
            old(self).wf(),
        ensures
            final(self).wf(),
            final(self).capacity_spec() == old(self).capacity_spec(),
            ({
                let s = old(self)@;
                if id < s.len() && s[id as int] is Some && s[id as int]->0.len() > 0 {
                    &&& r is Some
                    &&& r->0@ == s[id as int]->0[0]
                    &&& final(self)@ == s.update(id as int, Some(s[id as int]->0.drop_first()))
                } else {
                    &&& r is None
                    &&& final(self)@ == s
                }
            }),
    {
        let ghost before = self@;
        if id >= self.subscribers.len() {
            return None;
        }
        let slot = self.subscribers.remove(id);
        let (next, r) = match slot {
            Some(mut q) => {
                if q.len() > 0 {
                    let ghost q0 = views(q@);
                    let first = q.remove(0);
                    assert(views(q@) =~= q0.drop_first());
                    (Some(q), Some(first))
                } else {
                    (Some(q), None)
                }
            },
            None => (None, None),
        };
        self.subscribers.insert(id, next);
        proof {
            if r is Some {
                assert(self@ =~= before.update(id as int, Some(before[id as int]->0.drop_first())));
            } else {
                assert(self@ =~= before);
            }
        }
        r
    }

    /// Closes subscriber `id` and discards what it had not taken.
    pub fn unsubscribe(&mut self, id: usize)
        requires
            old(self).wf(),
        ensures
            final(self).wf(),
            final(self).capacity_spec() == old(self).capacity_spec(),
            id < old(self)@.len() ==> final(self)@ == old(self)@.update(id as int, None),
            id >= old(self)@.len() ==> final(self)@ == old(self)@,
    {
        let ghost before = self@;
        if id < self.subscribers.len() {
            self.subscribers.set(id, None);
            assert(self@ =~= before.update(id as int, None));
        }
    }
}

/// One turn of the broadcaster's polling loop: takes the oldest packet from
/// the capture queue and publishes it. Returns `false` when the queue was
/// empty, and the caller then waits a short interval before the next turn.
pub fn relay_step(capture: &mut RelayQueue, bc: &mut Broadcaster) -> (published: bool)
    requires
        old(bc).wf(),
    ensures
        final(bc).wf(),
        final(bc).capacity_spec() == old(bc).capacity_spec(),
        final(capture).capacity_spec() == old(capture).capacity_spec(),
        published == (old(capture).items().len() > 0),
        published ==> {
            &&& final(capture).items() == old(capture).items().drop_first()
            &&& final(bc)@ == delivered(old(bc)@, old(bc).capacity_spec(), old(capture).items()[0])
        },
        !published ==> final(capture).items() == old(capture).items() && final(bc)@ == old(bc)@,
{
    match capture.pop() {
        Some(p) => {
            bc.publish(&p);
            true
        },
        None => false,
    }
}

} // verus!
