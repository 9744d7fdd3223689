//! Messages exchanged between clients and the service.
use vstd::prelude::*;

use crate::audio::{AudioDevice, AudioSourceType};

verus! {

/// How segments are delimited.
#[derive(Clone, Copy, Debug, PartialEq, Eq, Structural)]
pub enum TranscriptionMode {
    /// The speech detector delimits segments.
    Automatic,
    /// A hotkey chord delimits segments.
    PushToTalk,
}

/// How two sources are combined.
#[derive(Clone, Copy, Debug, PartialEq, Eq, Structural)]
pub enum RecordingMode {
    /// The two mono streams are summed.
    Mixed,
    /// The second stream is a reference removed from the first.
    EchoCancel,
}

/// One push-to-talk chord: named keys pressed together.
#[derive(Clone, Debug)]
pub struct HotkeyCombination {
    pub keys: Vec<String>,
}

/// Text recognised in one segment, with its timing and sequence number.
#[derive(Clone, Debug)]
pub struct TranscriptResult {
    pub text: String,
    pub seq: u64,
    pub start_ms: u64,
    pub end_ms: u64,
}

impl TranscriptResult {
    /// A copy equal to `self`.
    pub fn duplicate(&self) -> (r: Self)
        ensures
            r == *self,
    {
        TranscriptResult { text: self.text.clone(), seq: self.seq, start_ms: self.start_ms, end_ms: self.end_ms }
    }
}

/// Copy of an optional string, equal to it.
pub fn copy_opt_string(s: &Option<String>) -> (r: Option<String>)
    ensures
        r == *s,
{
    match s {
        Some(v) => Some(v.clone()),
        None => None,
    }
}

/// Events broadcast to subscribers.
#[derive(Clone, Debug)]
pub enum EventType {
    SpeechStarted,
    SpeechEnded { duration_ms: u64 },
    TranscriptionComplete(TranscriptResult),
    CaptureStateChanged { capturing: bool, error: Option<String> },
    Shutdown,
}

/// Snapshot of the transcription status.
#[derive(Clone, Debug)]
pub struct TranscribeStatus {
    pub capturing: bool,
    pub in_speech: bool,
    pub transcription_mode: TranscriptionMode,
    pub source1_id: Option<String>,
    pub source2_id: Option<String>,
    pub queue_depth: u64,
    pub error: Option<String>,
}

/// Persisted configuration values.
#[derive(Clone, Debug)]
pub struct ConfigValues {
    pub transcription_mode: TranscriptionMode,
    pub ptt_hotkeys: Vec<HotkeyCombination>,
    pub auto_paste_enabled: bool,
    pub auto_paste_delay_ms: u32,
}

/// Whether the speech model is on disk, and where.
#[derive(Clone, Debug)]
pub struct ModelStatus {
    pub available: bool,
    pub path: String,
}

/// GPU acceleration support of the build and of the machine.
#[derive(Clone, Debug)]
pub struct CudaStatus {
    pub build_enabled: bool,
    pub runtime_available: bool,
    pub system_info: String,
}

/// Requests a client sends.
#[derive(Clone, Debug)]
pub enum Request {
    ListDevices { source_type: Option<AudioSourceType> },
    SetSources { source1_id: Option<String>, source2_id: Option<String> },
    SetRecordingMode { mode: RecordingMode },
    SetAecEnabled { enabled: bool },
    GetStatus,
    GetConfig,
    SetTranscriptionMode { mode: TranscriptionMode },
    SetPushToTalkHotkeys { hotkeys: Vec<HotkeyCombination> },
    DownloadModel,
    GetModelStatus,
    GetCudaStatus,
    SubscribeEvents,
    Ping,
    Shutdown,
}

/// Responses the service sends, one per request, and events on a
/// subscribed connection.
#[derive(Clone, Debug)]
pub enum Response {
    /// The request was carried out.
    Ack,
    Error { message: String },
    Devices { devices: Vec<AudioDevice> },
    Status(TranscribeStatus),
    ConfigValues(ConfigValues),
    ModelStatus(ModelStatus),
    CudaStatus(CudaStatus),
    Event { event: EventType },
}

} // verus!
