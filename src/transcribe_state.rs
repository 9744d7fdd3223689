//! Continuous transcription state: capture on or off, speaking or not, the
//! last error, and a bounded history of recent results.
use vstd::prelude::*;

use crate::protocol::{EventType, TranscriptResult, TranscriptionMode};

verus! {

/// The most recent results, oldest first, at most `capacity` of them.
pub struct SegmentRingBuffer {
    items: Vec<TranscriptResult>,
    capacity: usize,
}

/// Contents after `x` is added to `s` under capacity `cap`: the oldest entry
/// leaves when the buffer is full.
pub open spec fn ring_push(s: Seq<TranscriptResult>, cap: nat, x: TranscriptResult) -> Seq<TranscriptResult> {
    if cap == 0 {
        s
    } else if s.len() < cap {
        s.push(x)
    } else {
        s.drop_first().push(x)
    }
}

impl SegmentRingBuffer {
    pub closed spec fn contents(&self) -> Seq<TranscriptResult> {
        self.items@
    }

    pub closed spec fn cap(&self) -> nat {
        self.capacity as nat
    }

    pub open spec fn wf(&self) -> bool {
        self.contents().len() <= self.cap()
    }

    /// An empty buffer holding at most `capacity` results.
    pub fn new(capacity: usize) -> (r: Self)
        ensures
            r.contents().len() == 0,
            r.cap() == capacity,
            r.wf(),
    {
        SegmentRingBuffer { items: Vec::new(), capacity }
    }

    /// Number of results held.
    pub fn len(&self) -> (r: usize)
        ensures
            r == self.contents().len(),
    {
        self.items.len()
    }

    /// The result at `i`, oldest first.
    pub fn get(&self, i: usize) -> (r: &TranscriptResult)
        requires
            i < self.contents().len(),
        ensures
            *r == self.contents()[i as int],
    {
        &self.items[i]
    }

    /// Adds a result, dropping the oldest one when full.
    pub fn push(&mut self, x: TranscriptResult)
        requires
            old(self).wf(),
        ensures
            final(self).wf(),
            final(self).cap() == old(self).cap(),
            final(self).contents() == ring_push(old(self).contents(), old(self).cap(), x),
    {
        if self.capacity == 0 {
            return;
        }
        if self.items.len() >= self.capacity {
            self.items.remove(0);
        }
        self.items.push(x);
        proof {
            let old_s = old(self).contents();
            if old_s.len() >= old(self).cap() {
                assert(self.items@ =~= old_s.drop_first().push(x));
            }
        }
    }
}

/// State machine of continuous transcription.
pub struct TranscribeState {
    pub capturing: bool,
    pub in_speech: bool,
    pub mode: TranscriptionMode,
    pub error: Option<String>,
    pub last_result: Option<TranscriptResult>,
    pub history: SegmentRingBuffer,
    /// Samples (at 16 kHz) of sound heard since speech started.
    pub speech_samples: u64,
}

/// Milliseconds that `samples` samples last at 16 kHz.
pub open spec fn duration_ms_of(samples: u64) -> u64 {
    (samples as int * 1000 / 16000) as u64
}

impl TranscribeState {
    pub open spec fn wf(&self) -> bool {
        &&& self.history.wf()
        &&& self.in_speech ==> self.capturing
    }

    /// Idle, with no result yet and room for `history_capacity` results.
    pub fn new(mode: TranscriptionMode, history_capacity: usize) -> (r: Self)
        ensures
            r.wf(),
            !r.capturing,
            !r.in_speech,
            r.mode == mode,
            r.error.is_none(),
            r.last_result.is_none(),
            r.history.contents().len() == 0,
            r.history.cap() == history_capacity,
            r.speech_samples == 0,
    {
        TranscribeState {
            capturing: false,
            in_speech: false,
            mode,
            error: None,
            last_result: None,
            history: SegmentRingBuffer::new(history_capacity),
            speech_samples: 0,
        }
    }

    /// Starts capture and clears the error; reports the change, if it is one.
    pub fn start_capture(&mut self) -> (r: Option<EventType>)
        requires
            old(self).wf(),
        ensures
            final(self).wf(),
            old(self).capturing ==> r.is_none() && *final(self) == *old(self),
            !old(self).capturing ==> r == Some(EventType::CaptureStateChanged { capturing: true, error: None })
                && *final(self) == (TranscribeState { capturing: true, in_speech: false, error: None, ..*old(self) }),
    {
        if self.capturing {
            return None;
        }
        self.capturing = true;
        self.in_speech = false;
        self.error = None;
        Some(EventType::CaptureStateChanged { capturing: true, error: None })
    }

    /// Stops capture; reports the change, if it is one. When idle already
    /// nothing changes and nothing is reported.
    pub fn stop_capture(&mut self) -> (r: Option<EventType>)
        requires
            old(self).wf(),
        ensures
            final(self).wf(),
            !old(self).capturing ==> r.is_none() && *final(self) == *old(self),
            old(self).capturing ==> r == Some(EventType::CaptureStateChanged { capturing: false, error: None })
                && *final(self) == (TranscribeState { capturing: false, in_speech: false, ..*old(self) }),
    {
        if !self.capturing {
            return None;
        }
        self.capturing = false;
        self.in_speech = false;
        Some(EventType::CaptureStateChanged { capturing: false, error: None })
    }

    /// A capture error: capture stops, the error is kept and reported.
    pub fn capture_error(&mut self, message: String) -> (r: EventType)
        requires
            old(self).wf(),
        ensures
            final(self).wf(),
            *final(self) == (TranscribeState { capturing: false, in_speech: false, error: Some(message), ..*old(self) }),
            r == (EventType::CaptureStateChanged { capturing: false, error: Some(message) }),
    {
        let copy = message.clone();
        self.capturing = false;
        self.in_speech = false;
        self.error = Some(message);
        EventType::CaptureStateChanged { capturing: false, error: Some(copy) }
    }

    /// The speech detector reported sound: speech starts, if capturing and not speaking yet.
    pub fn speech_started(&mut self) -> (r: Option<EventType>)
        requires
            old(self).wf(),
        ensures
            final(self).wf(),
            old(self).capturing && !old(self).in_speech ==> r == Some(EventType::SpeechStarted)
                && *final(self) == (TranscribeState { in_speech: true, ..*old(self) }),
            !(old(self).capturing && !old(self).in_speech) ==> r.is_none() && *final(self) == *old(self),
    {
        if self.capturing && !self.in_speech {
            self.in_speech = true;
            Some(EventType::SpeechStarted)
        } else {
            None
        }
    }

    /// The speech detector reported silence after `duration_ms` of speech: speech ends,
    /// if it was going on.
    pub fn speech_ended(&mut self, duration_ms: u64) -> (r: Option<EventType>)
        requires
            old(self).wf(),
        ensures
            final(self).wf(),
            old(self).in_speech ==> r == Some(EventType::SpeechEnded { duration_ms })
                && *final(self) == (TranscribeState { in_speech: false, ..*old(self) }),
            !old(self).in_speech ==> r.is_none() && *final(self) == *old(self),
    {
        if self.in_speech {
            self.in_speech = false;
            Some(EventType::SpeechEnded { duration_ms })
        } else {
            None
        }
    }

    /// The queue finished a segment. A result becomes the latest result, joins
    /// the history and is reported; a failure is kept as the current error and
    /// reported to no one, since the worker carries on.
    pub fn transcription_finished(&mut self, outcome: Result<TranscriptResult, String>) -> (r: Option<EventType>)
        requires
            old(self).wf(),
        ensures
            final(self).wf(),
            final(self).capturing == old(self).capturing,
            final(self).in_speech == old(self).in_speech,
            final(self).mode == old(self).mode,
            final(self).history.cap() == old(self).history.cap(),
            outcome matches Ok(res) ==> {
                &&& r == Some(EventType::TranscriptionComplete(res))
                &&& final(self).last_result == Some(res)
                &&& final(self).error == old(self).error
                &&& final(self).history.contents() == ring_push(old(self).history.contents(), old(self).history.cap(), res)
            },
            outcome matches Err(msg) ==> {
                &&& r.is_none()
                &&& final(self).error == Some(msg)
                &&& final(self).last_result == old(self).last_result
                &&& final(self).history.contents() == old(self).history.contents()
            },
    {
        match outcome {
            Ok(res) => {
                let for_history = res.duplicate();
                let for_event = res.duplicate();
                self.history.push(for_history);
                self.last_result = Some(res);
                Some(EventType::TranscriptionComplete(for_event))
            },
            Err(msg) => {
                self.error = Some(msg);
                None
            },
        }
    }

    /// Takes the speech detector's report on one batch of `batch_len` samples
    /// at 16 kHz. A report of sound starts speech and starts counting its
    /// length; a report of silence ends speech with the length counted, in
    /// milliseconds; no report adds the batch to the length while speaking.
    pub fn on_batch(&mut self, report: Option<bool>, batch_len: u64) -> (r: Option<EventType>)
        requires
            old(self).wf(),
        ensures
            final(self).wf(),
            final(self).capturing == old(self).capturing,
            final(self).mode == old(self).mode,
            final(self).error == old(self).error,
            final(self).last_result == old(self).last_result,
            final(self).history == old(self).history,
            report == Some(false) && old(self).capturing && !old(self).in_speech ==> {
                &&& r == Some(EventType::SpeechStarted)
                &&& final(self).in_speech
                &&& final(self).speech_samples == batch_len
            },
            report == Some(false) && !(old(self).capturing && !old(self).in_speech) ==> {
                &&& r.is_none()
                &&& final(self).in_speech == old(self).in_speech
                &&& final(self).speech_samples == old(self).speech_samples
            },
            report == Some(true) ==> {
                &&& r == (if old(self).in_speech {
                    Some(EventType::SpeechEnded { duration_ms: duration_ms_of(old(self).speech_samples) })
                } else {
                    None
                })
                &&& !final(self).in_speech
                &&& final(self).speech_samples == 0
            },
            report.is_none() ==> {
                &&& r.is_none()
                &&& final(self).in_speech == old(self).in_speech
                &&& final(self).speech_samples == (if old(self).in_speech {
                    if old(self).speech_samples as int + batch_len as int <= u64::MAX {
                        (old(self).speech_samples + batch_len) as u64
                    } else {
                        u64::MAX
                    }
                } else {
                    old(self).speech_samples
                })
            },
    {
        match report {
            Some(false) => {
                let ev = self.speech_started();
                if ev.is_some() {
                    self.speech_samples = batch_len;
                }
                ev
            },
            Some(true) => {
                let ms = self.speech_samples / 16;
                let ev = self.speech_ended(ms);
                self.speech_samples = 0;
                ev
            },
            None => {
                if self.in_speech {
                    self.speech_samples = self.speech_samples.saturating_add(batch_len);
                }
                None
            },
        }
    }

    /// Changes how segments are delimited.
    pub fn set_mode(&mut self, mode: TranscriptionMode)
        ensures
            *final(self) == (TranscribeState { mode, ..*old(self) }),
    {
        self.mode = mode;
    }
}

} // verus!
