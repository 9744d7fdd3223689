use flowstt::config::{
    format_hotkeys_display, parse_transcription_mode, transcription_mode_name, validate_config_key, CliError,
    EXIT_GENERAL, EXIT_USAGE,
};
use flowstt::events::EventBus;
use flowstt::protocol::{
    EventType, HotkeyCombination, RecordingMode, Request, Response, TranscriptResult, TranscriptionMode,
};
use flowstt::state::{Dispatch, ServiceState};
use flowstt::transcribe_state::{SegmentRingBuffer, TranscribeState};

fn result(seq: u64, text: &str) -> TranscriptResult {
    TranscriptResult { text: text.to_string(), seq, start_ms: 0, end_ms: 100 }
}

fn reply(d: Dispatch) -> (Response, Option<EventType>) {
    match d {
        Dispatch::Reply { response, event } => (response, event),
        Dispatch::Forward(_) => panic!("request was forwarded"),
    }
}

#[test]
fn set_sources_starts_capture_and_status_reports_it() {
    let mut st = ServiceState::new();
    let (resp, ev) = reply(st.handle_request(Request::SetSources {
        source1_id: Some("mic1".to_string()),
        source2_id: None,
    }));
    assert!(matches!(resp, Response::Ack));
    assert!(matches!(ev, Some(EventType::CaptureStateChanged { capturing: true, error: None })));
    let (resp, _) = reply(st.handle_request(Request::GetStatus));
    match resp {
        Response::Status(s) => {
            assert!(s.capturing);
            assert_eq!(s.source1_id.as_deref(), Some("mic1"));
            assert_eq!(s.source2_id, None);
        }
        _ => panic!("expected a status"),
    }
}

#[test]
fn clearing_sources_stops_capture_and_again_is_quiet() {
    let mut st = ServiceState::new();
    reply(st.handle_request(Request::SetSources { source1_id: Some("a".to_string()), source2_id: None }));
    let (resp, ev) = reply(st.handle_request(Request::SetSources { source1_id: None, source2_id: None }));
    assert!(matches!(resp, Response::Ack));
    assert!(matches!(ev, Some(EventType::CaptureStateChanged { capturing: false, error: None })));
    let (resp, ev) = reply(st.handle_request(Request::SetSources { source1_id: None, source2_id: None }));
    assert!(matches!(resp, Response::Ack));
    assert!(ev.is_none());
    assert!(!st.transcribe_status.capturing);
}

#[test]
fn settings_requests_update_state() {
    let mut st = ServiceState::new();
    reply(st.handle_request(Request::SetAecEnabled { enabled: true }));
    reply(st.handle_request(Request::SetRecordingMode { mode: RecordingMode::EchoCancel }));
    assert!(st.aec_enabled);
    assert_eq!(st.recording_mode, RecordingMode::EchoCancel);
    assert!(matches!(reply(st.handle_request(Request::Ping)).0, Response::Ack));
    match st.handle_request(Request::SetTranscriptionMode { mode: TranscriptionMode::PushToTalk }) {
        Dispatch::Forward(Request::SetTranscriptionMode { mode }) => assert_eq!(mode, TranscriptionMode::PushToTalk),
        _ => panic!("expected the request to be forwarded"),
    }
    assert_eq!(st.transcribe_status.transcription_mode, TranscriptionMode::PushToTalk);
    assert!(matches!(st.handle_request(Request::ListDevices { source_type: None }), Dispatch::Forward(_)));
    st.set_queue_depth(3);
    assert_eq!(st.status_snapshot().queue_depth, 3);
}

#[test]
fn shutdown_request_raises_shutdown_event() {
    let mut st = ServiceState::new();
    let (resp, ev) = reply(st.handle_request(Request::Shutdown));
    assert!(matches!(resp, Response::Ack));
    assert!(matches!(ev, Some(EventType::Shutdown)));
}

#[test]
fn stop_capture_when_idle_is_noop() {
    let mut t = TranscribeState::new(TranscriptionMode::Automatic, 4);
    assert!(t.stop_capture().is_none());
    assert!(!t.capturing);
    assert!(t.error.is_none());
    assert!(t.start_capture().is_some());
    assert!(t.start_capture().is_none());
    assert!(matches!(t.stop_capture(), Some(EventType::CaptureStateChanged { capturing: false, .. })));
    assert!(t.stop_capture().is_none());
}

#[test]
fn capture_error_stops_and_is_reported() {
    let mut t = TranscribeState::new(TranscriptionMode::Automatic, 4);
    t.start_capture();
    match t.capture_error("device disconnected".to_string()) {
        EventType::CaptureStateChanged { capturing, error } => {
            assert!(!capturing);
            assert_eq!(error.as_deref(), Some("device disconnected"));
        }
        _ => panic!("expected a capture state change"),
    }
    assert!(!t.capturing);
    assert_eq!(t.error.as_deref(), Some("device disconnected"));
}

#[test]
fn inference_failure_sets_error_and_keeps_going() {
    let mut t = TranscribeState::new(TranscriptionMode::Automatic, 4);
    t.start_capture();
    assert!(t.transcription_finished(Err("model not loaded".to_string())).is_none());
    assert_eq!(t.error.as_deref(), Some("model not loaded"));
    assert!(t.transcription_finished(Ok(result(2, "hello"))).is_some());
    assert_eq!(t.last_result.as_ref().unwrap().text, "hello");
}

#[test]
fn history_keeps_most_recent() {
    let mut h = SegmentRingBuffer::new(2);
    h.push(result(1, "a"));
    h.push(result(2, "b"));
    h.push(result(3, "c"));
    assert_eq!(h.len(), 2);
    assert_eq!(h.get(0).seq, 2);
    assert_eq!(h.get(1).seq, 3);
    let mut none = SegmentRingBuffer::new(0);
    none.push(result(1, "a"));
    assert_eq!(none.len(), 0);
}

#[test]
fn two_subscribers_receive_identical_events() {
    let mut bus = EventBus::new(8);
    let a = bus.subscribe().unwrap();
    let b = bus.subscribe().unwrap();
    assert_ne!(a, b);
    assert_eq!(bus.broadcast(&EventType::TranscriptionComplete(result(7, "hi there"))), 0);
    for id in [a, b] {
        let evs = bus.take_events(id).unwrap();
        assert_eq!(evs.len(), 1);
        match &evs[0] {
            EventType::TranscriptionComplete(r) => {
                assert_eq!(r.seq, 7);
                assert_eq!(r.text, "hi there");
            }
            _ => panic!("expected a transcription"),
        }
    }
}

#[test]
fn shutdown_reaches_every_subscriber_last() {
    let mut bus = EventBus::new(4);
    let ids: Vec<u64> = (0..3).map(|_| bus.subscribe().unwrap()).collect();
    bus.broadcast(&EventType::SpeechStarted);
    bus.broadcast(&EventType::Shutdown);
    for id in ids {
        let evs = bus.take_events(id).unwrap();
        assert_eq!(evs.len(), 2);
        assert!(matches!(evs[1], EventType::Shutdown));
    }
}

#[test]
fn full_subscriber_is_dropped() {
    let mut bus = EventBus::new(1);
    let slow = bus.subscribe().unwrap();
    let fast = bus.subscribe().unwrap();
    assert_eq!(bus.broadcast(&EventType::SpeechStarted), 0);
    assert_eq!(bus.take_events(fast).unwrap().len(), 1);
    assert_eq!(bus.broadcast(&EventType::SpeechEnded { duration_ms: 5 }), 1);
    assert!(bus.take_events(slow).is_none());
    assert_eq!(bus.subscriber_count(), 1);
    assert!(bus.unsubscribe(fast));
    assert!(!bus.unsubscribe(fast));
    assert_eq!(bus.subscriber_count(), 0);
}

#[test]
fn config_key_validation() {
    assert!(validate_config_key("transcription_mode").is_ok());
    assert!(validate_config_key("ptt_hotkeys").is_ok());
    let e = validate_config_key("colour").unwrap_err();
    assert_eq!(e.exit_code, EXIT_USAGE);
    assert_eq!(e.message, "Unknown configuration key 'colour'. Valid keys: transcription_mode, ptt_hotkeys");
}

#[test]
fn transcription_mode_values() {
    assert_eq!(parse_transcription_mode("automatic").unwrap(), TranscriptionMode::Automatic);
    assert_eq!(parse_transcription_mode("push_to_talk").unwrap(), TranscriptionMode::PushToTalk);
    let e = parse_transcription_mode("manual").unwrap_err();
    assert_eq!(e.exit_code, 64);
    assert_eq!(e.message, "Invalid value 'manual' for transcription_mode. Expected: automatic, push_to_talk");
    assert_eq!(transcription_mode_name(TranscriptionMode::PushToTalk), "push_to_talk");
    assert_eq!(transcription_mode_name(TranscriptionMode::Automatic), "automatic");
}

#[test]
fn cli_error_exit_codes() {
    let g = CliError::general("boom".to_string());
    assert_eq!(g.exit_code, EXIT_GENERAL);
    assert_eq!(g.exit_code, 1);
    assert_eq!(g.message, "boom");
    assert_eq!(CliError::usage("bad".to_string()).exit_code, 64);
    assert_eq!(CliError::new("x".to_string(), 3).exit_code, 3);
}

#[test]
fn hotkeys_display() {
    assert_eq!(format_hotkeys_display(&Vec::new()), "(none)");
    let a = HotkeyCombination { keys: vec!["left_control".to_string(), "left_alt".to_string()] };
    let b = HotkeyCombination { keys: vec!["f9".to_string()] };
    assert_eq!(a.display(), "left_control+left_alt");
    assert_eq!(format_hotkeys_display(&vec![a, b]), "left_control+left_alt, f9");
}

#[test]
fn cli_error_from_string_is_general() {
    let e: CliError = "oops".to_string().into();
    assert_eq!(e.exit_code, 1);
    assert_eq!(e.message, "oops");
}

#[test]
fn fresh_bus_hands_out_id_zero() {
    let mut bus = EventBus::new(1);
    assert_eq!(bus.subscribe(), Some(0));
    assert_eq!(bus.subscribe(), Some(1));
}

#[test]
fn speech_length_is_counted_from_batches() {
    let mut t = TranscribeState::new(TranscriptionMode::Automatic, 1);
    assert!(t.on_batch(Some(false), 1600).is_none());
    t.start_capture();
    assert!(matches!(t.on_batch(Some(false), 1600), Some(EventType::SpeechStarted)));
    assert!(t.on_batch(None, 1600).is_none());
    assert!(t.on_batch(Some(false), 1600).is_none());
    assert!(matches!(t.on_batch(Some(true), 1600), Some(EventType::SpeechEnded { duration_ms: 200 })));
    assert!(t.on_batch(Some(true), 1600).is_none());
    assert_eq!(t.speech_samples, 0);
}
