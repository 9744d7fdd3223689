//! The service's shared state and the control requests that change it.
use vstd::prelude::*;

use crate::protocol::{
    copy_opt_string, EventType, RecordingMode, Request, Response, TranscribeStatus, TranscriptionMode,
};

verus! {

/// Device selection, mixing settings and transcription status of the service.
pub struct ServiceState {
    pub transcribe_status: TranscribeStatus,
    pub aec_enabled: bool,
    pub recording_mode: RecordingMode,
    pub source1_id: Option<String>,
    pub source2_id: Option<String>,
}

/// What the service does with a request.
pub enum Dispatch {
    /// The state answered it: send `response`, and broadcast `event` if any.
    Reply { response: Response, event: Option<EventType> },
    /// It needs a collaborator outside the state (devices, model files,
    /// configuration on disk, the event stream); it is handed back unchanged.
    Forward(Request),
}

/// The state after new sources are chosen: capture runs while at least one is set.
pub open spec fn with_sources(s: ServiceState, s1: Option<String>, s2: Option<String>) -> ServiceState {
    let capturing = s1.is_some() || s2.is_some();
    let started = capturing && !s.transcribe_status.capturing;
    ServiceState {
        source1_id: s1,
        source2_id: s2,
        transcribe_status: TranscribeStatus {
            capturing,
            in_speech: capturing && s.transcribe_status.in_speech,
            source1_id: s1,
            source2_id: s2,
            error: if started { None } else { s.transcribe_status.error },
            ..s.transcribe_status
        },
        ..s
    }
}

/// The event that a change of capture raises, if capture changed.
pub open spec fn capture_event(before: bool, after: bool) -> Option<EventType> {
    if before != after {
        Some(EventType::CaptureStateChanged { capturing: after, error: None })
    } else {
        None
    }
}

/// The state after a request, and what the service does with it.
pub open spec fn dispatch_spec(s: ServiceState, req: Request) -> (ServiceState, Dispatch) {
    match req {
        Request::SetSources { source1_id, source2_id } => {
            let t = with_sources(s, source1_id, source2_id);
            (t, Dispatch::Reply {
                response: Response::Ack,
                event: capture_event(s.transcribe_status.capturing, t.transcribe_status.capturing),
            })
        },
        Request::SetRecordingMode { mode } => (
            ServiceState { recording_mode: mode, ..s },
            Dispatch::Reply { response: Response::Ack, event: None },
        ),
        Request::SetAecEnabled { enabled } => (
            ServiceState { aec_enabled: enabled, ..s },
            Dispatch::Reply { response: Response::Ack, event: None },
        ),
        Request::SetTranscriptionMode { mode } => (
            ServiceState { transcribe_status: TranscribeStatus { transcription_mode: mode, ..s.transcribe_status }, ..s },
            Dispatch::Forward(Request::SetTranscriptionMode { mode }),
        ),
        Request::GetStatus => (s, Dispatch::Reply { response: Response::Status(s.transcribe_status), event: None }),
        Request::Ping => (s, Dispatch::Reply { response: Response::Ack, event: None }),
        Request::Shutdown => (
            ServiceState {
                transcribe_status: TranscribeStatus { capturing: false, in_speech: false, ..s.transcribe_status },
                ..s
            },
            Dispatch::Reply { response: Response::Ack, event: Some(EventType::Shutdown) },
        ),
        other => (s, Dispatch::Forward(other)),
    }
}

impl Default for ServiceState {
    fn default() -> (r: Self)
        ensures
            !r.transcribe_status.capturing,
            !r.transcribe_status.in_speech,
            r.transcribe_status.transcription_mode == TranscriptionMode::Automatic,
            r.transcribe_status.source1_id.is_none(),
            r.transcribe_status.source2_id.is_none(),
            r.transcribe_status.queue_depth == 0,
            r.transcribe_status.error.is_none(),
            !r.aec_enabled,
            r.recording_mode == RecordingMode::Mixed,
            r.source1_id.is_none(),
            r.source2_id.is_none(),
    {
        Self::new()
    }
}

impl ServiceState {
    /// Idle, no sources, mixing without echo cancellation, automatic mode.
    pub fn new() -> (r: Self)
        ensures
            !r.transcribe_status.capturing,
            !r.transcribe_status.in_speech,
            r.transcribe_status.transcription_mode == TranscriptionMode::Automatic,
            r.transcribe_status.source1_id.is_none(),
            r.transcribe_status.source2_id.is_none(),
            r.transcribe_status.queue_depth == 0,
            r.transcribe_status.error.is_none(),
            !r.aec_enabled,
            r.recording_mode == RecordingMode::Mixed,
            r.source1_id.is_none(),
            r.source2_id.is_none(),
    {
        ServiceState {
            transcribe_status: TranscribeStatus {
                capturing: false,
                in_speech: false,
                transcription_mode: TranscriptionMode::Automatic,
                source1_id: None,
                source2_id: None,
                queue_depth: 0,
                error: None,
            },
            aec_enabled: false,
            recording_mode: RecordingMode::Mixed,
            source1_id: None,
            source2_id: None,
        }
    }

    /// A copy of the transcription status.
    pub fn status_snapshot(&self) -> (r: TranscribeStatus)
        ensures
            r == self.transcribe_status,
    {
        let t = &self.transcribe_status;
        TranscribeStatus {
            capturing: t.capturing,
            in_speech: t.in_speech,
            transcription_mode: t.transcription_mode,
            source1_id: copy_opt_string(&t.source1_id),
            source2_id: copy_opt_string(&t.source2_id),
            queue_depth: t.queue_depth,
            error: copy_opt_string(&t.error),
        }
    }

    /// Records the queue depth that status queries report.
    pub fn set_queue_depth(&mut self, depth: u64)
        ensures
            *final(self) == (ServiceState {
                transcribe_status: TranscribeStatus { queue_depth: depth, ..old(self).transcribe_status },
                ..*old(self)
            }),
    {
        self.transcribe_status.queue_depth = depth;
    }

    /// Applies a control request to the state.
    pub fn handle_request(&mut self, request: Request) -> (r: Dispatch)
        ensures
            (*final(self), r) == dispatch_spec(*old(self), request),
    {
        match request {
            Request::SetSources { source1_id, source2_id } => {
                let was = self.transcribe_status.capturing;
                let capturing = source1_id.is_some() || source2_id.is_some();
                if capturing && !was {
                    self.transcribe_status.error = None;
                }
                self.transcribe_status.capturing = capturing;
                self.transcribe_status.in_speech = capturing && self.transcribe_status.in_speech;
                self.transcribe_status.source1_id = copy_opt_string(&source1_id);
                self.transcribe_status.source2_id = copy_opt_string(&source2_id);
                self.source1_id = source1_id;
                self.source2_id = source2_id;
                let event = if was != capturing {
                    Some(EventType::CaptureStateChanged { capturing, error: None })
                } else {
                    None
                };
                Dispatch::Reply { response: Response::Ack, event }
            },
            Request::SetRecordingMode { mode } => {
                self.recording_mode = mode;
                Dispatch::Reply { response: Response::Ack, event: None }
            },
            Request::SetAecEnabled { enabled } => {
                self.aec_enabled = enabled;
                Dispatch::Reply { response: Response::Ack, event: None }
            },
            Request::SetTranscriptionMode { mode } => {
                self.transcribe_status.transcription_mode = mode;
                Dispatch::Forward(Request::SetTranscriptionMode { mode })
            },
            Request::GetStatus => Dispatch::Reply { response: Response::Status(self.status_snapshot()), event: None },
            Request::Ping => Dispatch::Reply { response: Response::Ack, event: None },
            Request::Shutdown => {
                self.transcribe_status.capturing = false;
                self.transcribe_status.in_speech = false;
                Dispatch::Reply { response: Response::Ack, event: Some(EventType::Shutdown) }
            },
            other => Dispatch::Forward(other),
        }
    }
}

} // verus!
