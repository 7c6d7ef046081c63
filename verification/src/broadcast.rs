//! The broadcaster: fan-out of events to every subscribed session, each
//! through its own bounded queue. A slow subscriber loses its oldest
//! unread entries rather than ever stalling the publisher.

use vstd::prelude::*;
use crate::auth::str_eq;
use crate::types::{BattleEvent, LocationView, clone_event};

verus! {

/// One session's subscription: its identifier and its pending events,
/// oldest first.
struct Subscriber {
    sid: String,
    queue: Vec<BattleEvent>,
}

/// The fan-out channel: one bounded queue per subscribed session.
pub struct Broadcaster {
    capacity: usize,
    subs: Vec<Subscriber>,
}

/// A queue after one event lands in it: appended at the tail, pushing the
/// oldest entry out first when the queue is full.
pub open spec fn bounded_push(q: Seq<LocationView>, e: LocationView, cap: int) -> Seq<
    LocationView,
> {
    if q.len() < cap {
        q.push(e)
    } else {
        q.drop_first().push(e)
    }
}

/// Every queue after one event is published to all of them.
pub open spec fn spec_publish(qs: Seq<Seq<LocationView>>, e: LocationView, cap: int) -> Seq<
    Seq<LocationView>,
> {
    qs.map_values(|q: Seq<LocationView>| bounded_push(q, e, cap))
}

/// Every queue after a run of events is published in order.
pub open spec fn spec_publish_all(
    qs: Seq<Seq<LocationView>>,
    es: Seq<LocationView>,
    cap: int,
) -> Seq<Seq<LocationView>>
    decreases es.len(),
{
    if es.len() == 0 {
        qs
    } else {
        spec_publish(spec_publish_all(qs, es.drop_last(), cap), es.last(), cap)
    }
}

impl Subscriber {
    spec fn queue_view(&self) -> Seq<LocationView> {
        self.queue@.map_values(|e: BattleEvent| e@)
    }
}

impl Broadcaster {
    /// The per-subscriber queue bound.
    pub closed spec fn capacity_spec(&self) -> int {
        self.capacity as int
    }

    /// The subscribed session identifiers, in subscription order.
    pub closed spec fn subscribers(&self) -> Seq<Seq<char>> {
        self.subs@.map_values(|s: Subscriber| s.sid@)
    }

    /// The pending events of each subscriber, oldest first, in the same
    /// order as `subscribers`.
    pub closed spec fn queues(&self) -> Seq<Seq<LocationView>> {
        self.subs@.map_values(|s: Subscriber| s.queue_view())
    }

    /// Well-formedness: a positive bound, no session subscribed twice,
    /// and no queue beyond the bound.
    pub closed spec fn wf(&self) -> bool {
        &&& self.capacity >= 1
        &&& forall|i: int, j: int|
            #![trigger self.subs@[i].sid@, self.subs@[j].sid@]
            0 <= i < j < self.subs@.len() ==> self.subs@[i].sid@ != self.subs@[j].sid@
        &&& forall|i: int|
            0 <= i < self.subs@.len() ==> (#[trigger] self.subs@[i]).queue@.len() <= self.capacity
    }

    /// A fresh channel with the given per-subscriber bound and nobody
    /// subscribed.
    pub fn new(capacity: usize) -> (b: Broadcaster)
        requires
            capacity >= 1,
        ensures
            b.wf(),
            b.capacity_spec() == capacity,
            b.subscribers() == Seq::<Seq<char>>::empty(),
            b.queues() == Seq::<Seq<LocationView>>::empty(),
    {
        let b = Broadcaster { capacity, subs: Vec::new() };
        proof {
            assert(b.subscribers() =~= Seq::<Seq<char>>::empty());
            assert(b.queues() =~= Seq::<Seq<LocationView>>::empty());
        }
        b
    }

    /// How many sessions are currently subscribed.
    pub fn sub_count(&self) -> (n: usize)
        ensures
            n == self.subscribers().len(),
    {
        self.subs.len()
    }

    fn find_sub(&self, sid: &String) -> (r: Option<usize>)
        ensures
            match r {
                Some(i) => i < self.subs@.len() && self.subs@[i as int].sid@ == sid@,
                None => forall|i: int| 0 <= i < self.subs@.len() ==> self.subs@[i].sid@ != sid@,
            },
    {
        let mut i: usize = 0;
        while i < self.subs.len()
            invariant
                i <= self.subs@.len(),
                forall|j: int| 0 <= j < i ==> self.subs@[j].sid@ != sid@,
            decreases self.subs@.len() - i,
        {
            if str_eq(self.subs[i].sid.as_str(), sid.as_str()) {
                return Some(i);
            }
            i += 1;
        }
        None
    }

    /// Subscribes the session: it gets a fresh, empty queue, and sees
    /// nothing published before this call. A session already subscribed
    /// is left as it is.
    pub fn subscribe(&mut self, sid: &String) -> (r: bool)
        requires
            old(self).wf(),
        ensures
            final(self).wf(),
            final(self).capacity_spec() == old(self).capacity_spec(),
            r == !old(self).subscribers().contains(sid@),
            r ==> final(self).subscribers() == old(self).subscribers().push(sid@),
            r ==> final(self).queues() == old(self).queues().push(Seq::<LocationView>::empty()),
            !r ==> *final(self) == *old(self),
    {
        match self.find_sub(sid) {
            Some(i) => {
                proof {
                    assert(old(self).subscribers()[i as int] == sid@);
                    assert(old(self).subscribers().contains(sid@));
                }
                false
            },
            None => {
                proof {
                    assert(forall|i: int|
                        0 <= i < old(self).subscribers().len()
                            ==> old(self).subscribers()[i] != sid@);
                    assert(!old(self).subscribers().contains(sid@));
                }
                let entry = Subscriber { sid: sid.clone(), queue: Vec::new() };
                proof {
                    assert(entry.queue_view() =~= Seq::<LocationView>::empty());
                }
                self.subs.push(entry);
                proof {
                    assert(self.subscribers() =~= old(self).subscribers().push(sid@));
                    assert(self.queues() =~= old(self).queues().push(
                        Seq::<LocationView>::empty(),
                    ));
                }
                true
            },
        }
    }

    /// Drops the session's subscription and its pending events; true
    /// exactly when it was subscribed.
    pub fn unsubscribe(&mut self, sid: &String) -> (r: bool)
        requires
            old(self).wf(),
        ensures
            final(self).wf(),
            final(self).capacity_spec() == old(self).capacity_spec(),
            r == old(self).subscribers().contains(sid@),
            r ==> exists|k: int|
                {
                    &&& 0 <= k < old(self).subscribers().len()
                    &&& old(self).subscribers()[k] == sid@
                    &&& final(self).subscribers() == old(self).subscribers().remove(k)
                    &&& final(self).queues() == #[trigger] old(self).queues().remove(k)
                },
            !r ==> *final(self) == *old(self),
    {
        match self.find_sub(sid) {
            Some(i) => {
                proof {
                    assert(old(self).subscribers()[i as int] == sid@);
                    assert(old(self).subscribers().contains(sid@));
                }
                self.subs.remove(i);
                proof {
                    let k = i as int;
                    assert(final(self).subscribers() =~= old(self).subscribers().remove(k));
                    assert(final(self).queues() =~= old(self).queues().remove(k));
                }
                true
            },
            None => {
                proof {
                    assert(forall|i: int|
                        0 <= i < old(self).subscribers().len()
                            ==> old(self).subscribers()[i] != sid@);
                    assert(!old(self).subscribers().contains(sid@));
                }
                false
            },
        }
    }

    /// Takes the session's oldest pending event, if it is subscribed and
    /// anything is pending: per-subscriber FIFO relative to publish order.
    pub fn recv(&mut self, sid: &String) -> (r: Option<BattleEvent>)
        requires
            old(self).wf(),
        ensures
            final(self).wf(),
            final(self).capacity_spec() == old(self).capacity_spec(),
            final(self).subscribers() == old(self).subscribers(),
            !old(self).subscribers().contains(sid@) ==> r is None && *final(self) == *old(self),
            old(self).subscribers().contains(sid@) ==> exists|k: int|
                {
                    &&& 0 <= k < old(self).subscribers().len()
                    &&& #[trigger] old(self).subscribers()[k] == sid@
                    &&& if old(self).queues()[k].len() == 0 {
                        r is None && final(self).queues() == old(self).queues()
                    } else {
                        r is Some && r->0@ == old(self).queues()[k].first() && final(self).queues()
                            == old(self).queues().update(k, old(self).queues()[k].drop_first())
                    }
                },
    {
        match self.find_sub(sid) {
            Some(i) => {
                proof {
                    assert(old(self).subscribers()[i as int] == sid@);
                    assert(old(self).subscribers().contains(sid@));
                }
                let ghost prev = *self;
                let entry = &mut self.subs[i];
                if entry.queue.len() == 0 {
                    proof {
                        assert(prev.queues()[i as int].len() == 0);
                        assert(self.subs@ =~= prev.subs@);
                    }
                    None
                } else {
                    let e = entry.queue.remove(0);
                    proof {
                        let k = i as int;
                        assert(self.subs@ =~= prev.subs@.update(k, self.subs@[k]));
                        assert(self.subscribers() =~= prev.subscribers());
                        assert(e@ == prev.queues()[k].first());
                        assert(self.subs@[k].queue_view() =~= prev.queues()[k].drop_first());
                        assert forall|j: int|
                            0 <= j < prev.subs@.len() && j != k implies #[trigger] self.queues()[j]
                            == prev.queues()[j] by {
                            assert(self.subs@[j] == prev.subs@[j]);
                        }
                        assert(self.queues() =~= prev.queues().update(
                            k,
                            prev.queues()[k].drop_first(),
                        ));
                    }
                    Some(e)
                }
            },
            None => {
                proof {
                    assert(forall|i: int|
                        0 <= i < old(self).subscribers().len()
                            ==> old(self).subscribers()[i] != sid@);
                    assert(!old(self).subscribers().contains(sid@));
                }
                None
            },
        }
    }

    /// Publishes one event to every current subscriber's queue, bounded
    /// and lossy per queue, never blocking on any of them. With nobody
    /// subscribed the event is simply lost.
    pub fn publish(&mut self, event: &BattleEvent)
        requires
            old(self).wf(),
        ensures
            final(self).wf(),
            final(self).capacity_spec() == old(self).capacity_spec(),
            final(self).subscribers() == old(self).subscribers(),
            final(self).queues() == spec_publish(
                old(self).queues(),
                event@,
                old(self).capacity_spec(),
            ),
    {
        let cap = self.capacity;
        let n = self.subs.len();
        proof {
            assert(old(self).queues().len() == n);
        }
        let mut i: usize = 0;
        while i < n
            invariant
                i <= n,
                n == self.subs@.len(),
                n == old(self).subs@.len(),
                old(self).queues().len() == n,
                self.queues().len() == n,
                cap == self.capacity,
                cap >= 1,
                self.wf(),
                old(self).wf(),
                self.subscribers() == old(self).subscribers(),
                forall|j: int|
                    i <= j < n ==> (#[trigger] self.queues()[j]) == old(self).queues()[j],
                forall|j: int|
                    0 <= j < i ==> (#[trigger] self.queues()[j]) == bounded_push(
                        old(self).queues()[j],
                        event@,
                        cap as int,
                    ),
            decreases n - i,
        {
            let ghost prev = *self;
            let entry = &mut self.subs[i];
            if entry.queue.len() < cap {
                entry.queue.push(clone_event(event));
            } else {
                entry.queue.remove(0);
                entry.queue.push(clone_event(event));
            }
            proof {
                assert(self.subs@ =~= prev.subs@.update(i as int, self.subs@[i as int]));
                assert(self.subs@[i as int].sid@ == prev.subs@[i as int].sid@);
                assert(self.subscribers() =~= prev.subscribers());
                assert(prev.queues()[i as int] == prev.subs@[i as int].queue_view());
                assert(self.subs@[i as int].queue_view() =~= bounded_push(
                    prev.queues()[i as int],
                    event@,
                    cap as int,
                ));
                assert(self.queues()[i as int] == self.subs@[i as int].queue_view());
                assert(self.queues().len() == n);
                assert forall|j: int| 0 <= j < n && j != i implies #[trigger] self.queues()[j]
                    == prev.queues()[j] by {
                    assert(self.subs@[j] == prev.subs@[j]);
                }
                assert forall|j: int| i < j < n implies #[trigger] self.queues()[j] == old(
                    self,
                ).queues()[j] by {
                    assert(self.queues()[j] == prev.queues()[j]);
                    assert(prev.queues()[j] == old(self).queues()[j]);
                }
                assert forall|j: int| 0 <= j < i + 1 implies #[trigger] self.queues()[j]
                    == bounded_push(old(self).queues()[j], event@, cap as int) by {
                    if j < i {
                        assert(self.queues()[j] == prev.queues()[j]);
                    } else {
                        assert(self.queues()[j] == bounded_push(
                            prev.queues()[i as int],
                            event@,
                            cap as int,
                        ));
                        assert(prev.queues()[i as int] == old(self).queues()[i as int]);
                    }
                }
            }
            i += 1;
        }
        proof {
            assert(final(self).queues() =~= spec_publish(
                old(self).queues(),
                event@,
                old(self).capacity_spec(),
            ));
        }
    }
}

/// Publishes a batch of events in order, each fanned out to every current
/// subscriber; an empty batch is a no-op, not an error.
pub fn broadcast_events(b: &mut Broadcaster, events: &Vec<BattleEvent>)
    requires
        old(b).wf(),
    ensures
        final(b).wf(),
        final(b).capacity_spec() == old(b).capacity_spec(),
        final(b).subscribers() == old(b).subscribers(),
        final(b).queues() == spec_publish_all(
            old(b).queues(),
            events@.map_values(|e: BattleEvent| e@),
            old(b).capacity_spec(),
        ),
{
    let ghost es = events@.map_values(|e: BattleEvent| e@);
    let mut i: usize = 0;
    while i < events.len()
        invariant
            i <= events@.len(),
            es == events@.map_values(|e: BattleEvent| e@),
            b.wf(),
            b.capacity_spec() == old(b).capacity_spec(),
            b.subscribers() == old(b).subscribers(),
            b.queues() == spec_publish_all(old(b).queues(), es.take(i as int), old(b).capacity_spec()),
        decreases events@.len() - i,
    {
        b.publish(&events[i]);
        proof {
            assert(es.take(i + 1).drop_last() =~= es.take(i as int));
            assert(es.take(i + 1).last() == es[i as int]);
        }
        i += 1;
    }
    proof {
        assert(es.take(events@.len() as int) =~= es);
    }
}

/// Broadcast fan-out: an event published while a set of sessions is
/// subscribed lands at the tail of every one of their queues; a session
/// that subscribes afterwards starts with an empty queue, in which the
/// event does not appear.
pub proof fn lemma_broadcast_fanout(qs: Seq<Seq<LocationView>>, e: LocationView, cap: int)
    requires
        cap >= 1,
    ensures
        spec_publish(qs, e, cap).len() == qs.len(),
        forall|i: int|
            0 <= i < qs.len() ==> (#[trigger] spec_publish(qs, e, cap)[i]).len() >= 1
                && spec_publish(qs, e, cap)[i].last() == e,
        !Seq::<LocationView>::empty().contains(e),
{
    assert forall|i: int| 0 <= i < qs.len() implies (#[trigger] spec_publish(qs, e, cap)[i]).len()
        >= 1 && spec_publish(qs, e, cap)[i].last() == e by {
        assert(spec_publish(qs, e, cap)[i] == bounded_push(qs[i], e, cap));
    }
}

} // verus!
