//! Turns classified audio into utterances: samples are buffered from the start of
//! speech until enough silence follows, the size limit is reached, or the
//! push-to-talk key is released.
use vstd::prelude::*;

use crate::queue::QueuedSegment;

verus! {

/// Accumulates one utterance at a time and numbers the finished ones.
pub struct SegmentAccumulator {
    /// Whether an utterance is being buffered.
    pub accumulating: bool,
    /// Samples of the current utterance.
    pub buffer: Vec<i16>,
    /// Samples of silence since the last sound in the current utterance.
    pub silence_run: usize,
    /// Sequence number of the next finished segment.
    pub next_seq: u64,
    /// Silence that ends an utterance, in samples.
    pub min_silence_samples: usize,
    /// Longest utterance, in samples; a full buffer closes it.
    pub max_segment_samples: usize,
    /// Shortest utterance worth transcribing, in samples.
    pub min_segment_samples: usize,
}

/// `b` with as much of `s` appended as fits below `cap`.
pub open spec fn append_capped(b: Seq<i16>, s: Seq<i16>, cap: int) -> Seq<i16> {
    if b.len() >= cap {
        b
    } else if s.len() <= cap - b.len() {
        b + s
    } else {
        b + s.take(cap - b.len())
    }
}

/// The segment that closing buffer `b` yields: none when it is too short or
/// sequence numbers are exhausted.
pub open spec fn closed_segment(b: Seq<i16>, next_seq: u64, min_len: int) -> Option<(u64, Seq<i16>)> {
    if b.len() >= min_len && b.len() > 0 && next_seq < u64::MAX {
        Some((next_seq, b))
    } else {
        None
    }
}

pub open spec fn segment_of(r: Option<QueuedSegment>) -> Option<(u64, Seq<i16>)> {
    match r {
        Some(s) => Some((s.seq, s.samples@)),
        None => None,
    }
}

impl SegmentAccumulator {
    /// The buffer stays within the size limit, which is positive.
    pub open spec fn wf(&self) -> bool {
        &&& self.max_segment_samples > 0
        &&& self.buffer@.len() <= self.max_segment_samples
        &&& !self.accumulating ==> self.buffer@.len() == 0 && self.silence_run == 0
    }

    /// Same limits, sequence number and buffering state.
    pub open spec fn same_limits(&self, other: &Self) -> bool {
        &&& self.min_silence_samples == other.min_silence_samples
        &&& self.max_segment_samples == other.max_segment_samples
        &&& self.min_segment_samples == other.min_segment_samples
    }

    /// Idle, numbering from 1.
    pub fn new(min_silence_samples: usize, max_segment_samples: usize, min_segment_samples: usize) -> (r: Self)
        requires
            max_segment_samples > 0,
        ensures
            r.wf(),
            !r.accumulating,
            r.next_seq == 1,
            r.min_silence_samples == min_silence_samples,
            r.max_segment_samples == max_segment_samples,
            r.min_segment_samples == min_segment_samples,
    {
        SegmentAccumulator {
            accumulating: false,
            buffer: Vec::new(),
            silence_run: 0,
            next_seq: 1,
            min_silence_samples,
            max_segment_samples,
            min_segment_samples,
        }
    }

    fn append(&mut self, samples: &Vec<i16>)
        requires
            old(self).wf(),
        ensures
            final(self).buffer@ == append_capped(old(self).buffer@, samples@, old(self).max_segment_samples as int),
            *final(self) == (SegmentAccumulator { buffer: final(self).buffer, ..*old(self) }),
    {
        let len = self.buffer.len();
        let room: usize = self.max_segment_samples - len;
        let count: usize = if samples.len() < room { samples.len() } else { room };
        let ghost before = self.buffer@;
        let ghost orig = *self;
        let mut i: usize = 0;
        while i < count
            invariant
                *self == (SegmentAccumulator { buffer: self.buffer, ..orig }),
                count <= samples@.len(),
                i <= count,
                self.buffer@ == before + samples@.take(i as int),
            decreases count - i,
        {
            self.buffer.push(samples[i]);
            i = i + 1;
            proof {
                assert(self.buffer@ =~= before + samples@.take(i as int));
            }
        }
        proof {
            assert(samples@.take(samples@.len() as int) =~= samples@);
            if room == 0 {
                assert(before + samples@.take(0) =~= before);
            }
        }
    }

    /// Ends the current utterance: hands it out numbered when it is long
    /// enough, and returns to idle.
    fn close(&mut self) -> (r: Option<QueuedSegment>)
        requires
            old(self).wf(),
        ensures
            final(self).wf(),
            segment_of(r) == closed_segment(old(self).buffer@, old(self).next_seq, old(self).min_segment_samples as int),
            final(self).next_seq == (if r.is_some() { old(self).next_seq + 1 } else { old(self).next_seq as int }),
            !final(self).accumulating,
            final(self).same_limits(old(self)),
    {
        let n = self.buffer.len();
        let emit = n >= self.min_segment_samples && n > 0 && self.next_seq < u64::MAX;
        let seq = self.next_seq;
        let mut taken: Vec<i16> = Vec::new();
        std::mem::swap(&mut taken, &mut self.buffer);
        self.accumulating = false;
        self.silence_run = 0;
        if emit {
            self.next_seq = seq + 1;
            Some(QueuedSegment { samples: taken, seq })
        } else {
            None
        }
    }

    /// Automatic mode: takes one batch with the speech detector's classification. Sound
    /// starts an utterance; silence lasting `min_silence_samples` or a full
    /// buffer ends it, yielding the segment if it is long enough.
    pub fn feed(&mut self, samples: &Vec<i16>, silent: bool) -> (r: Option<QueuedSegment>)
        requires
            old(self).wf(),
        ensures
            final(self).wf(),
            final(self).same_limits(old(self)),
            ({
                let o = *old(self);
                let buf = append_capped(o.buffer@, samples@, o.max_segment_samples as int);
                let run = if silent { o.silence_run + samples@.len() } else { 0 };
                let ends = run >= o.min_silence_samples || buf.len() >= o.max_segment_samples;
                if !o.accumulating && silent {
                    &&& r.is_none()
                    &&& *final(self) == o
                } else if ends {
                    &&& segment_of(r) == closed_segment(buf, o.next_seq, o.min_segment_samples as int)
                    &&& !final(self).accumulating
                    &&& final(self).next_seq == (if r.is_some() { o.next_seq + 1 } else { o.next_seq as int })
                } else {
                    &&& r.is_none()
                    &&& final(self).accumulating
                    &&& final(self).buffer@ == buf
                    &&& final(self).silence_run == run
                    &&& final(self).next_seq == o.next_seq
                }
            }),
    {
        if !self.accumulating && silent {
            return None;
        }
        self.accumulating = true;
        self.append(samples);
        let run: usize = if silent {
            if samples.len() <= usize::MAX - self.silence_run { self.silence_run + samples.len() } else { usize::MAX }
        } else {
            0
        };
        let ghost exact = if silent { old(self).silence_run + samples@.len() } else { 0 };
        assert(run >= self.min_silence_samples <==> exact >= self.min_silence_samples);
        if run >= self.min_silence_samples || self.buffer.len() >= self.max_segment_samples {
            self.close()
        } else {
            self.silence_run = run;
            None
        }
    }

    /// Push-to-talk key pressed: an utterance starts if none is going on.
    pub fn begin(&mut self)
        requires
            old(self).wf(),
        ensures
            final(self).wf(),
            old(self).accumulating ==> *final(self) == *old(self),
            !old(self).accumulating ==> *final(self) == (SegmentAccumulator { accumulating: true, ..*old(self) }),
    {
        if !self.accumulating {
            self.accumulating = true;
        }
    }

    /// Push-to-talk mode: buffers a batch while the key is held; a full
    /// buffer ends the utterance.
    pub fn push_held(&mut self, samples: &Vec<i16>) -> (r: Option<QueuedSegment>)
        requires
            old(self).wf(),
        ensures
            final(self).wf(),
            final(self).same_limits(old(self)),
            ({
                let o = *old(self);
                let buf = append_capped(o.buffer@, samples@, o.max_segment_samples as int);
                if !o.accumulating {
                    r.is_none() && *final(self) == o
                } else if buf.len() >= o.max_segment_samples {
                    &&& segment_of(r) == closed_segment(buf, o.next_seq, o.min_segment_samples as int)
                    &&& !final(self).accumulating
                    &&& final(self).next_seq == (if r.is_some() { o.next_seq + 1 } else { o.next_seq as int })
                } else {
                    &&& r.is_none()
                    &&& *final(self) == (SegmentAccumulator { buffer: final(self).buffer, ..o })
                    &&& final(self).buffer@ == buf
                }
            }),
    {
        if !self.accumulating {
            return None;
        }
        self.append(samples);
        if self.buffer.len() >= self.max_segment_samples {
            self.close()
        } else {
            None
        }
    }

    /// Push-to-talk key released: the utterance ends and is handed out if it
    /// is long enough.
    pub fn finish(&mut self) -> (r: Option<QueuedSegment>)
        requires
            old(self).wf(),
        ensures
            final(self).wf(),
            final(self).same_limits(old(self)),
            !final(self).accumulating,
            segment_of(r) == closed_segment(old(self).buffer@, old(self).next_seq, old(self).min_segment_samples as int),
            final(self).next_seq == (if r.is_some() { old(self).next_seq + 1 } else { old(self).next_seq as int }),
    {
        self.close()
    }

    /// Capture stopped: the utterance being buffered is dropped unsent.
    pub fn discard(&mut self)
        requires
            old(self).wf(),
        ensures
            final(self).wf(),
            *final(self) == (SegmentAccumulator {
                accumulating: false,
                buffer: final(self).buffer,
                silence_run: 0,
                ..*old(self)
            }),
            final(self).buffer@.len() == 0,
    {
        self.buffer = Vec::new();
        self.accumulating = false;
        self.silence_run = 0;
    }
}

} // verus!
