//! Bounded, ordered queue of finished segments waiting for transcription, with
//! at most one segment handed to the engine at a time.
use vstd::prelude::*;

verus! {

/// A finished 16 kHz mono segment and its sequence number.
#[derive(Clone, Debug)]
pub struct QueuedSegment {
    pub samples: Vec<i16>,
    pub seq: u64,
}

/// Why a segment was not admitted.
#[derive(Clone, Copy, Debug, PartialEq, Eq, Structural)]
pub enum EnqueueError {
    /// The queue holds as many pending segments as its capacity.
    Full,
    /// The sequence number is already pending or not above the last one started.
    OutOfOrder,
}

/// Why a completion was refused.
#[derive(Clone, Copy, Debug, PartialEq, Eq, Structural)]
pub enum CompleteError {
    /// No segment with that sequence number is in flight.
    NotInFlight,
}

/// Abstract state of a queue: pending segments as (sequence number, samples).
pub struct QueueView {
    pub pending: Seq<(u64, Seq<i16>)>,
    pub capacity: nat,
    pub in_flight: Option<u64>,
    pub last_started: Option<u64>,
}

/// Whether `seq` is above the last started sequence number.
pub open spec fn after_last(last_started: Option<u64>, seq: u64) -> bool {
    match last_started {
        Some(l) => seq > l,
        None => true,
    }
}

/// Whether `seq` is among the pending ones.
pub open spec fn is_pending(pending: Seq<(u64, Seq<i16>)>, seq: u64) -> bool {
    exists|i: int| 0 <= i < pending.len() && pending[i].0 == seq
}

/// Whether index `k` holds the smallest pending sequence number.
pub open spec fn is_min_at(pending: Seq<(u64, Seq<i16>)>, k: int) -> bool {
    &&& 0 <= k < pending.len()
    &&& forall|i: int| 0 <= i < pending.len() ==> pending[k].0 <= pending[i].0
}

impl QueueView {
    /// Pending sequence numbers are distinct and above the last one started;
    /// the segment in flight is the last one started.
    pub open spec fn wf(&self) -> bool {
        &&& forall|i: int, j: int|
            0 <= i < j < self.pending.len() ==> self.pending[i].0 != self.pending[j].0
        &&& forall|i: int| 0 <= i < self.pending.len() ==> after_last(self.last_started, #[trigger] self.pending[i].0)
        &&& self.in_flight.is_some() ==> self.in_flight == self.last_started
    }
}

/// The segment that starts has a smaller sequence number than every segment
/// left pending, and all of those stay above it: so whatever order segments
/// arrive in, the engine receives the pending ones in increasing order.
pub proof fn lemma_started_precedes_rest(q: QueueView, k: int)
    requires
        q.wf(),
        is_min_at(q.pending, k),
    ensures
        forall|i: int| 0 <= i < q.pending.remove(k).len()
            ==> q.pending[k].0 < (#[trigger] q.pending.remove(k)[i]).0,
{
    assert forall|i: int| 0 <= i < q.pending.remove(k).len()
        implies q.pending[k].0 < (#[trigger] q.pending.remove(k)[i]).0 by {
        let i2 = if i < k { i } else { i + 1 };
        assert(q.pending.remove(k)[i] == q.pending[i2]);
        assert(q.pending[i2].0 != q.pending[k].0);
    }
}

/// How one operation may change a queue. An admission, a refusal or a
/// discard keeps the last started and in-flight numbers. A start, only when
/// nothing is in flight, makes a number above the last one started both the
/// last started and the one in flight. A completion clears the number in flight.
pub open spec fn queue_step(a: QueueView, b: QueueView) -> bool {
    ||| (b.last_started == a.last_started && b.in_flight == a.in_flight)
    ||| (a.in_flight.is_none() && b.last_started is Some && after_last(a.last_started, b.last_started->0)
        && b.in_flight == b.last_started)
    ||| (a.in_flight.is_some() && b.in_flight.is_none() && b.last_started == a.last_started)
}

/// A run of operations: each state follows from the one before by one operation.
pub open spec fn is_trace(t: Seq<QueueView>) -> bool {
    forall|k: int| 0 <= k < t.len() - 1 ==> #[trigger] queue_step(t[k], t[k + 1])
}

/// Whether the operation after state `k` started a segment.
pub open spec fn starts_at(t: Seq<QueueView>, k: int) -> bool {
    t[k + 1].last_started != t[k].last_started
}

/// `a` is not after `b` among last started numbers (none comes first).
pub open spec fn started_le(a: Option<u64>, b: Option<u64>) -> bool {
    match a {
        None => true,
        Some(x) => b matches Some(y) && x <= y,
    }
}

proof fn lemma_started_monotone(t: Seq<QueueView>, i: int, j: int)
    requires
        is_trace(t),
        0 <= i <= j < t.len(),
    ensures
        started_le(t[i].last_started, t[j].last_started),
    decreases j - i,
{
    if i < j {
        lemma_started_monotone(t, i, j - 1);
        let k = j - 1;
        assert(queue_step(t[k], t[k + 1]));
        assert(t[k + 1] == t[j]);
    }
}

/// Over any run of operations, segments start in strictly increasing order
/// of sequence number, whatever order they were admitted in: completions,
/// which follow starts one for one, are thus delivered in that order too.
pub proof fn lemma_trace_starts_increase(t: Seq<QueueView>, i: int, j: int)
    requires
        is_trace(t),
        0 <= i < j,
        j + 1 < t.len(),
        starts_at(t, i),
        starts_at(t, j),
    ensures
        t[i + 1].last_started is Some,
        t[j + 1].last_started is Some,
        t[i + 1].last_started->0 < t[j + 1].last_started->0,
{
    assert(queue_step(t[i], t[i + 1]));
    assert(queue_step(t[j], t[j + 1]));
    lemma_started_monotone(t, i + 1, j);
}

proof fn lemma_cleared_between(t: Seq<QueueView>, i: int, j: int)
    requires
        is_trace(t),
        0 <= i <= j < t.len(),
        t[i].in_flight.is_some(),
        t[j].in_flight.is_none(),
    ensures
        exists|k: int| i <= k < j && t[k].in_flight.is_some() && #[trigger] t[k + 1].in_flight.is_none(),
    decreases j - i,
{
    if t[i + 1].in_flight.is_none() {
        assert(t[i].in_flight.is_some() && t[i + 1].in_flight.is_none());
    } else {
        lemma_cleared_between(t, i + 1, j);
    }
}

/// Over any run of operations, no two segments are in flight together:
/// between two starts the segment started first has completed.
pub proof fn lemma_trace_one_in_flight(t: Seq<QueueView>, i: int, j: int)
    requires
        is_trace(t),
        0 <= i < j,
        j + 1 < t.len(),
        starts_at(t, i),
        starts_at(t, j),
    ensures
        t[i + 1].in_flight.is_some(),
        t[j].in_flight.is_none(),
        exists|k: int| i < k < j && t[k].in_flight.is_some() && #[trigger] t[k + 1].in_flight.is_none(),
{
    assert(queue_step(t[i], t[i + 1]));
    assert(queue_step(t[j], t[j + 1]));
    lemma_cleared_between(t, i + 1, j);
}

/// Transcription work queue.
pub struct TranscriptionQueue {
    pending: Vec<QueuedSegment>,
    capacity: usize,
    in_flight: Option<u64>,
    last_started: Option<u64>,
}

pub open spec fn segment_view(s: QueuedSegment) -> (u64, Seq<i16>) {
    (s.seq, s.samples@)
}

impl View for TranscriptionQueue {
    type V = QueueView;

    closed spec fn view(&self) -> QueueView {
        QueueView {
            pending: self.pending@.map_values(|s: QueuedSegment| segment_view(s)),
            capacity: self.capacity as nat,
            in_flight: self.in_flight,
            last_started: self.last_started,
        }
    }
}

impl TranscriptionQueue {
    /// An empty queue admitting at most `capacity` pending segments.
    pub fn new(capacity: usize) -> (r: Self)
        ensures
            r@.pending.len() == 0,
            r@.capacity == capacity,
            r@.in_flight.is_none(),
            r@.last_started.is_none(),
            r@.wf(),
    {
        TranscriptionQueue { pending: Vec::new(), capacity, in_flight: None, last_started: None }
    }

    /// Number of pending segments.
    pub fn depth(&self) -> (r: usize)
        ensures
            r == self@.pending.len(),
    {
        self.pending.len()
    }

    /// Sequence number of the segment being transcribed, if any.
    pub fn in_flight(&self) -> (r: Option<u64>)
        ensures
            r == self@.in_flight,
    {
        self.in_flight
    }

    fn contains_seq(&self, seq: u64) -> (r: bool)
        ensures
            r == is_pending(self@.pending, seq),
    {
        let mut i: usize = 0;
        while i < self.pending.len()
            invariant
                i <= self.pending@.len(),
                self@.pending.len() == self.pending@.len(),
                forall|j: int| 0 <= j < i ==> self@.pending[j].0 != seq,
            decreases self.pending@.len() - i,
        {
            if self.pending[i].seq == seq {
                assert(self@.pending[i as int].0 == seq);
                return true;
            }
            i = i + 1;
        }
        false
    }

    /// Admits a segment, or says why not: `Full` when as many segments as the
    /// capacity are pending, else `OutOfOrder` when its sequence number is
    /// pending already or not above the last one started.
    pub fn enqueue(&mut self, segment: QueuedSegment) -> (r: Result<(), EnqueueError>)
        requires
            old(self)@.wf(),
        ensures
            final(self)@.wf(),
            queue_step(old(self)@, final(self)@),
            old(self)@.pending.len() >= old(self)@.capacity ==> r == Err::<(), EnqueueError>(EnqueueError::Full),
            old(self)@.pending.len() < old(self)@.capacity
                && (!after_last(old(self)@.last_started, segment.seq) || is_pending(old(self)@.pending, segment.seq))
                ==> r == Err::<(), EnqueueError>(EnqueueError::OutOfOrder),
            old(self)@.pending.len() < old(self)@.capacity && after_last(old(self)@.last_started, segment.seq)
                && !is_pending(old(self)@.pending, segment.seq) ==> r.is_ok(),
            r.is_ok() ==> final(self)@ == (QueueView {
                pending: old(self)@.pending.push(segment_view(segment)),
                ..old(self)@
            }),
            r.is_err() ==> final(self)@ == old(self)@,
    {
        if self.pending.len() >= self.capacity {
            return Err(EnqueueError::Full);
        }
        let fresh = match self.last_started {
            Some(l) => segment.seq > l,
            None => true,
        };
        if !fresh || self.contains_seq(segment.seq) {
            return Err(EnqueueError::OutOfOrder);
        }
        let ghost before = self@;
        self.pending.push(segment);
        proof {
            assert(self@.pending =~= before.pending.push(segment_view(segment)));
        }
        Ok(())
    }

    /// Hands out the pending segment with the smallest sequence number, unless
    /// a segment is in flight or none is pending. Sequence numbers handed out
    /// only increase.
    pub fn start_next(&mut self) -> (r: Option<QueuedSegment>)
        requires
            old(self)@.wf(),
        ensures
            final(self)@.wf(),
            queue_step(old(self)@, final(self)@),
            old(self)@.in_flight.is_some() || old(self)@.pending.len() == 0 ==> r.is_none() && final(self)@ == old(self)@,
            old(self)@.in_flight.is_none() && old(self)@.pending.len() > 0 ==> r.is_some(),
            r matches Some(s) ==> exists|k: int| {
                &&& is_min_at(old(self)@.pending, k)
                &&& old(self)@.pending[k] == segment_view(s)
                &&& final(self)@ == (QueueView {
                    pending: old(self)@.pending.remove(k),
                    in_flight: Some(s.seq),
                    last_started: Some(s.seq),
                    ..old(self)@
                })
            },
            r matches Some(s) ==> after_last(old(self)@.last_started, s.seq),
    {
        if self.in_flight.is_some() || self.pending.len() == 0 {
            return None;
        }
        let mut best: usize = 0;
        let mut i: usize = 1;
        while i < self.pending.len()
            invariant
                1 <= i <= self.pending@.len(),
                best < i,
                self@.pending.len() == self.pending@.len(),
                forall|j: int| 0 <= j < i ==> self@.pending[best as int].0 <= self@.pending[j].0,
            decreases self.pending@.len() - i,
        {
            if self.pending[i].seq < self.pending[best].seq {
                best = i;
            }
            i = i + 1;
        }
        let ghost before = self@;
        let seg = self.pending.remove(best);
        self.in_flight = Some(seg.seq);
        self.last_started = Some(seg.seq);
        proof {
            let k = best as int;
            assert(self@.pending =~= before.pending.remove(k));
            assert(is_min_at(before.pending, k));
            assert(before.pending[k] == segment_view(seg));
            assert(after_last(before.last_started, before.pending[k].0));
            assert forall|a: int, b: int| 0 <= a < b < self@.pending.len() implies self@.pending[a].0 != self@.pending[b].0 by {
                let a2 = if a < k { a } else { a + 1 };
                let b2 = if b < k { b } else { b + 1 };
                assert(self@.pending[a] == before.pending[a2]);
                assert(self@.pending[b] == before.pending[b2]);
            }
            assert forall|a: int| 0 <= a < self@.pending.len() implies after_last(self@.last_started, #[trigger] self@.pending[a].0) by {
                let a2 = if a < k { a } else { a + 1 };
                assert(self@.pending[a] == before.pending[a2]);
                assert(before.pending[a2].0 != before.pending[k].0);
            }
        }
        Some(seg)
    }

    /// Records that the segment in flight finished, whether the engine
    /// succeeded or failed on it; the queue then accepts the next start.
    pub fn complete(&mut self, seq: u64) -> (r: Result<(), CompleteError>)
        requires
            old(self)@.wf(),
        ensures
            final(self)@.wf(),
            queue_step(old(self)@, final(self)@),
            old(self)@.in_flight == Some(seq) ==> r.is_ok() && final(self)@ == (QueueView { in_flight: None, ..old(self)@ }),
            old(self)@.in_flight != Some(seq) ==> r == Err::<(), CompleteError>(CompleteError::NotInFlight) && final(self)@ == old(self)@,
    {
        let current = match self.in_flight {
            Some(s) => s == seq,
            None => false,
        };
        if current {
            self.in_flight = None;
            Ok(())
        } else {
            Err(CompleteError::NotInFlight)
        }
    }

    /// Drops every pending segment that has not started; returns how many.
    pub fn discard_pending(&mut self) -> (r: usize)
        requires
            old(self)@.wf(),
        ensures
            final(self)@.wf(),
            queue_step(old(self)@, final(self)@),
            r == old(self)@.pending.len(),
            final(self)@ == (QueueView { pending: Seq::empty(), ..old(self)@ }),
    {
        let n = self.pending.len();
        self.pending.clear();
        proof {
            assert(self@.pending =~= Seq::<(u64, Seq<i16>)>::empty());
        }
        n
    }
}

} // verus!
