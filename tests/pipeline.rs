use flowstt::processor::{AudioProcessor, SilenceDetector};
use flowstt::protocol::{EventType, TranscriptResult, TranscriptionMode};
use flowstt::queue::TranscriptionQueue;
use flowstt::segment::SegmentAccumulator;
use flowstt::transcribe_state::TranscribeState;

#[test]
fn speech_then_silence_yields_one_of_each_event_in_order() {
    let mut detector = SilenceDetector::new();
    let mut acc = SegmentAccumulator::new(8000, 16000 * 30, 1600);
    let mut queue = TranscriptionQueue::new(4);
    let mut state = TranscribeState::new(TranscriptionMode::Automatic, 8);
    let mut events = Vec::new();
    state.start_capture();
    let speech = vec![8000i16; 1600];
    let silence = vec![0i16; 1600];
    let batches: Vec<&Vec<i16>> = std::iter::repeat(&speech).take(20).chain(std::iter::repeat(&silence).take(10)).collect();
    for batch in batches {
        let report = detector.process(batch);
        events.extend(state.on_batch(report, batch.len() as u64));
        if let Some(seg) = acc.feed(batch, detector.is_silent) {
            queue.enqueue(seg).unwrap();
        }
        if let Some(seg) = queue.start_next() {
            let res = TranscriptResult { text: "hello".to_string(), seq: seg.seq, start_ms: 0, end_ms: 2000 };
            queue.complete(seg.seq).unwrap();
            events.extend(state.transcription_finished(Ok(res)));
        }
    }
    assert_eq!(events.len(), 3);
    assert!(matches!(events[0], EventType::SpeechStarted));
    assert!(matches!(events[1], EventType::SpeechEnded { duration_ms: 2000 }));
    match &events[2] {
        EventType::TranscriptionComplete(r) => assert_eq!(r.seq, 1),
        _ => panic!("expected a transcription"),
    }
}

#[test]
fn short_blips_are_discarded() {
    let mut acc = SegmentAccumulator::new(100, 10000, 500);
    assert!(acc.feed(&vec![9000i16; 50], false).is_none());
    assert!(acc.accumulating);
    assert!(acc.feed(&vec![0i16; 100], true).is_none());
    assert!(!acc.accumulating);
    assert_eq!(acc.next_seq, 1);
}

#[test]
fn silence_while_idle_is_ignored() {
    let mut acc = SegmentAccumulator::new(100, 10000, 10);
    assert!(acc.feed(&vec![0i16; 500], true).is_none());
    assert!(!acc.accumulating);
    assert!(acc.buffer.is_empty());
}

#[test]
fn full_buffer_closes_segment() {
    let mut acc = SegmentAccumulator::new(1000, 300, 10);
    assert!(acc.feed(&vec![1i16; 200], false).is_none());
    let seg = acc.feed(&vec![2i16; 200], false).unwrap();
    assert_eq!(seg.seq, 1);
    assert_eq!(seg.samples.len(), 300);
    assert_eq!(seg.samples[250], 2);
    assert!(!acc.accumulating);
}

#[test]
fn push_to_talk_segments() {
    let mut acc = SegmentAccumulator::new(100, 1000, 10);
    assert!(acc.push_held(&vec![1i16; 50]).is_none());
    assert!(acc.buffer.is_empty());
    acc.begin();
    assert!(acc.push_held(&vec![1i16; 50]).is_none());
    assert!(acc.push_held(&vec![0i16; 50]).is_none());
    let seg = acc.finish().unwrap();
    assert_eq!((seg.seq, seg.samples.len()), (1, 100));
    acc.begin();
    acc.push_held(&vec![3i16; 20]);
    acc.discard();
    assert!(acc.finish().is_none());
    acc.begin();
    acc.push_held(&vec![3i16; 20]);
    assert_eq!(acc.finish().unwrap().seq, 2);
}
