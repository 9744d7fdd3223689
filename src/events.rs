//! Fan-out of events to subscribers, each with a bounded queue. A subscriber
//! whose queue is full when an event arrives is dropped, so producers never wait.
use vstd::prelude::*;

use crate::protocol::{EventType, TranscriptResult};

verus! {

/// Queue of a subscriber: its id and the events not yet taken.
pub type SubscriberView = (u64, Seq<EventType>);

/// The subscribers after `e` is broadcast: each with room gets `e` appended,
/// each with a full queue is dropped; order is kept.
pub open spec fn after_broadcast(subs: Seq<SubscriberView>, cap: nat, e: EventType) -> Seq<SubscriberView>
    decreases subs.len(),
{
    if subs.len() == 0 {
        Seq::empty()
    } else {
        let rest = after_broadcast(subs.drop_last(), cap, e);
        let last = subs.last();
        if last.1.len() < cap {
            rest.push((last.0, last.1.push(e)))
        } else {
            rest
        }
    }
}

/// Every subscriber still present after a broadcast has the event as the last
/// of its queue, and every subscriber that had room is still present with
/// the event appended. Two subscribers thus receive the same event, and a
/// shutdown reaches every subscriber that can still take it.
pub proof fn lemma_broadcast_reaches_all(subs: Seq<SubscriberView>, cap: nat, e: EventType)
    ensures
        forall|k: int| 0 <= k < after_broadcast(subs, cap, e).len()
            ==> (#[trigger] after_broadcast(subs, cap, e)[k]).1.last() == e,
        forall|i: int| 0 <= i < subs.len() && (#[trigger] subs[i]).1.len() < cap
            ==> exists|k: int| 0 <= k < after_broadcast(subs, cap, e).len()
                && after_broadcast(subs, cap, e)[k] == (subs[i].0, subs[i].1.push(e)),
    decreases subs.len(),
{
    if subs.len() > 0 {
        let init = subs.drop_last();
        lemma_broadcast_reaches_all(init, cap, e);
        let rest = after_broadcast(init, cap, e);
        let out = after_broadcast(subs, cap, e);
        assert forall|i: int| 0 <= i < subs.len() && (#[trigger] subs[i]).1.len() < cap
            implies exists|k: int| 0 <= k < out.len() && out[k] == (subs[i].0, subs[i].1.push(e)) by {
            if i < subs.len() - 1 {
                assert(init[i] == subs[i]);
                let k = choose|k: int| 0 <= k < rest.len() && rest[k] == (init[i].0, init[i].1.push(e));
                assert(out[k] == rest[k]);
            } else {
                assert(out[rest.len() as int] == (subs[i].0, subs[i].1.push(e)));
            }
        }
        assert forall|k: int| 0 <= k < out.len() implies (#[trigger] out[k]).1.last() == e by {
            if k < rest.len() {
                assert(out[k] == rest[k]);
            }
        }
    }
}

/// Subscribers and their pending events.
pub struct EventBus {
    subscribers: Vec<(u64, Vec<EventType>)>,
    capacity: usize,
    next_id: u64,
}

impl EventType {
    /// A copy equal to `self`.
    pub fn duplicate(&self) -> (r: Self)
        ensures
            r == *self,
    {
        match self {
            EventType::SpeechStarted => EventType::SpeechStarted,
            EventType::SpeechEnded { duration_ms } => EventType::SpeechEnded { duration_ms: *duration_ms },
            EventType::TranscriptionComplete(res) => EventType::TranscriptionComplete(res.duplicate()),
            EventType::CaptureStateChanged { capturing, error } => EventType::CaptureStateChanged {
                capturing: *capturing,
                error: crate::protocol::copy_opt_string(error),
            },
            EventType::Shutdown => EventType::Shutdown,
        }
    }
}

pub open spec fn subscriber_view(s: (u64, Vec<EventType>)) -> SubscriberView {
    (s.0, s.1@)
}

impl EventBus {
    pub closed spec fn subs(&self) -> Seq<SubscriberView> {
        self.subscribers@.map_values(|s: (u64, Vec<EventType>)| subscriber_view(s))
    }

    pub closed spec fn cap(&self) -> nat {
        self.capacity as nat
    }

    pub closed spec fn next(&self) -> u64 {
        self.next_id
    }

    /// Ids are below the next id to hand out.
    pub open spec fn wf(&self) -> bool {
        forall|i: int| 0 <= i < self.subs().len() ==> (#[trigger] self.subs()[i]).0 < self.next()
    }

    /// No subscribers; each queue holds at most `capacity` events.
    pub fn new(capacity: usize) -> (r: Self)
        ensures
            r.subs().len() == 0,
            r.cap() == capacity,
            r.next() == 0,
            r.wf(),
    {
        EventBus { subscribers: Vec::new(), capacity, next_id: 0 }
    }

    /// Number of subscribers.
    pub fn subscriber_count(&self) -> (r: usize)
        ensures
            r == self.subs().len(),
    {
        self.subscribers.len()
    }

    /// Adds a subscriber with an empty queue and returns its id, or `None`
    /// when ids are exhausted.
    pub fn subscribe(&mut self) -> (r: Option<u64>)
        requires
            old(self).wf(),
        ensures
            final(self).wf(),
            final(self).cap() == old(self).cap(),
            old(self).next() < u64::MAX ==> r == Some(old(self).next())
                && final(self).subs() == old(self).subs().push((old(self).next(), Seq::empty())),
            old(self).next() == u64::MAX ==> r.is_none() && final(self).subs() == old(self).subs(),
    {
        if self.next_id == u64::MAX {
            return None;
        }
        let id = self.next_id;
        let ghost before = self.subs();
        self.subscribers.push((id, Vec::new()));
        self.next_id = id + 1;
        proof {
            assert(self.subs() =~= before.push((id, Seq::empty())));
        }
        Some(id)
    }

    /// Delivers `e` to every subscriber with room and drops those whose queue
    /// is full; returns how many were dropped.
    pub fn broadcast(&mut self, e: &EventType) -> (r: usize)
        requires
            old(self).wf(),
        ensures
            final(self).wf(),
            final(self).cap() == old(self).cap(),
            final(self).subs() == after_broadcast(old(self).subs(), old(self).cap(), *e),
            r == old(self).subs().len() - final(self).subs().len(),
    {
        let ghost old_subs = self.subs();
        let ghost cap = self.capacity as nat;
        let mut kept: Vec<(u64, Vec<EventType>)> = Vec::new();
        let mut dropped: usize = 0;
        let n = self.subscribers.len();
        let mut i: usize = 0;
        while i < n
            invariant
                n == old_subs.len(),
                self.subs() == old_subs,
                self.capacity as nat == cap,
                i <= n,
                kept@.map_values(|s: (u64, Vec<EventType>)| subscriber_view(s)) == after_broadcast(old_subs.take(i as int), cap, *e),
                dropped + kept@.len() == i,
                forall|k: int| 0 <= k < kept@.len() ==> exists|j: int| 0 <= j < i && (#[trigger] kept@[k]).0 == old_subs[j].0,
            decreases n - i,
        {
            let ghost kv = kept@.map_values(|s: (u64, Vec<EventType>)| subscriber_view(s));
            proof {
                assert(old_subs.take(i as int + 1).drop_last() =~= old_subs.take(i as int));
                assert(old_subs[i as int] == subscriber_view(self.subscribers@[i as int]));
            }
            let id = self.subscribers[i].0;
            if self.subscribers[i].1.len() < self.capacity {
                let mut q = Vec::new();
                let len = self.subscribers[i].1.len();
                let mut j: usize = 0;
                while j < len
                    invariant
                        i < n,
                        n == self.subscribers@.len(),
                        len == self.subscribers@[i as int].1@.len(),
                        j <= len,
                        q@ == self.subscribers@[i as int].1@.take(j as int),
                    decreases len - j,
                {
                    q.push(self.subscribers[i].1[j].duplicate());
                    j = j + 1;
                    proof {
                        assert(q@ =~= self.subscribers@[i as int].1@.take(j as int));
                    }
                }
                q.push(e.duplicate());
                proof {
                    assert(self.subscribers@[i as int].1@.take(len as int) =~= self.subscribers@[i as int].1@);
                }
                kept.push((id, q));
                proof {
                    assert(kept@.map_values(|s: (u64, Vec<EventType>)| subscriber_view(s)) =~= kv.push(
                        (old_subs[i as int].0, old_subs[i as int].1.push(*e)),
                    ));
                    assert(kept@[kept@.len() - 1].0 == old_subs[i as int].0);
                }
            } else {
                dropped = dropped + 1;
            }
            i = i + 1;
        }
        proof {
            assert(old_subs.take(n as int) =~= old_subs);
        }
        self.subscribers = kept;
        dropped
    }

    /// Takes the pending events of subscriber `id`; `None` when it is not
    /// subscribed (never was, or was dropped).
    pub fn take_events(&mut self, id: u64) -> (r: Option<Vec<EventType>>)
        requires
            old(self).wf(),
        ensures
            final(self).wf(),
            final(self).cap() == old(self).cap(),
            (forall|k: int| 0 <= k < old(self).subs().len() ==> (#[trigger] old(self).subs()[k]).0 != id)
                ==> r.is_none() && final(self).subs() == old(self).subs(),
            forall|k: int| 0 <= k < old(self).subs().len() && (#[trigger] old(self).subs()[k]).0 == id
                && (forall|m: int| 0 <= m < k ==> old(self).subs()[m].0 != id)
                ==> (r matches Some(v) && v@ == old(self).subs()[k].1
                    && final(self).subs() == old(self).subs().update(k, (id, Seq::empty()))),
    {
        let ghost orig = *self;
        let n = self.subscribers.len();
        let mut i: usize = 0;
        while i < n
            invariant
                *self == orig,
                orig == *old(self),
                orig.wf(),
                n == self.subscribers@.len(),
                i <= n,
                forall|m: int| 0 <= m < i ==> self.subs()[m].0 != id,
            decreases n - i,
        {
            if self.subscribers[i].0 == id {
                let ghost before = self.subs();
                assert(before[i as int] == subscriber_view(self.subscribers@[i as int]));
                let taken = self.subscribers.remove(i);
                self.subscribers.insert(i, (id, Vec::new()));
                proof {
                    assert(self.subs() =~= before.update(i as int, (id, Seq::empty())));
                    assert(before[i as int] == subscriber_view(taken));
                }
                return Some(taken.1);
            }
            proof {
                assert(self.subs()[i as int] == subscriber_view(self.subscribers@[i as int]));
            }
            i = i + 1;
        }
        None
    }

    /// Removes subscriber `id` with its queue; false when it is not subscribed.
    pub fn unsubscribe(&mut self, id: u64) -> (r: bool)
        requires
            old(self).wf(),
        ensures
            final(self).wf(),
            final(self).cap() == old(self).cap(),
            (forall|k: int| 0 <= k < old(self).subs().len() ==> (#[trigger] old(self).subs()[k]).0 != id)
                ==> !r && final(self).subs() == old(self).subs(),
            forall|k: int| 0 <= k < old(self).subs().len() && (#[trigger] old(self).subs()[k]).0 == id
                && (forall|m: int| 0 <= m < k ==> old(self).subs()[m].0 != id)
                ==> r && final(self).subs() == old(self).subs().remove(k),
    {
        let ghost orig = *self;
        let n = self.subscribers.len();
        let mut i: usize = 0;
        while i < n
            invariant
                *self == orig,
                orig == *old(self),
                orig.wf(),
                n == self.subscribers@.len(),
                i <= n,
                forall|m: int| 0 <= m < i ==> self.subs()[m].0 != id,
            decreases n - i,
        {
            if self.subscribers[i].0 == id {
                let ghost before = self.subs();
                assert(before[i as int] == subscriber_view(self.subscribers@[i as int]));
                self.subscribers.remove(i);
                proof {
                    assert(self.subs() =~= before.remove(i as int));
                    assert forall|k: int| 0 <= k < self.subs().len() implies (#[trigger] self.subs()[k]).0 < self.next() by {
                        let k2 = if k < i { k } else { k + 1 };
                        assert(self.subs()[k] == before[k2]);
                    }
                }
                return true;
            }
            proof {
                assert(self.subs()[i as int] == subscriber_view(self.subscribers@[i as int]));
            }
            i = i + 1;
        }
        false
    }
}

} // verus!
