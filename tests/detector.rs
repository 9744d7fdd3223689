use flowstt::processor::{AudioProcessor, SilenceDetector, DEFAULT_THRESHOLD_RATIO};

#[test]
fn detector_first_batch_reports_initial_state() {
    let mut d = SilenceDetector::new();
    assert_eq!(d.threshold_ratio, DEFAULT_THRESHOLD_RATIO);
    assert_eq!(d.process(&vec![0; 100]), Some(true));
    let mut d = SilenceDetector::new();
    assert_eq!(d.process(&vec![5000; 100]), Some(false));
}

#[test]
fn detector_empty_batch_is_silent() {
    let mut d = SilenceDetector::new();
    assert_eq!(d.process(&Vec::new()), Some(true));
}

#[test]
fn detector_threshold_is_minus_forty_db() {
    // Full scale 32768: -40 dB is an RMS of 327.68.
    let mut d = SilenceDetector::new();
    assert_eq!(d.process(&vec![327; 50]), Some(true));
    assert_eq!(d.process(&vec![328; 50]), Some(false));
    assert_eq!(d.process(&vec![-328; 50]), None);
}

#[test]
fn detector_transitions_equal_crossings_plus_one() {
    let loud = vec![8000i16; 160];
    let quiet = vec![10i16; 160];
    let pattern = [true, true, false, true, false, false, false, true, true, false];
    let mut d = SilenceDetector::new();
    let mut reports = 0;
    for (k, &is_loud) in pattern.iter().enumerate() {
        let batch = if is_loud { &loud } else { &quiet };
        if d.process(batch).is_some() {
            reports += 1;
        }
        assert_eq!(d.is_silent, !is_loud, "batch {}", k);
    }
    let crossings = pattern.windows(2).filter(|w| w[0] != w[1]).count();
    assert_eq!(reports, crossings + 1);
    assert_eq!(d.name(), "SilenceDetector");
}

#[test]
fn detector_four_batch_example() {
    let mut d = SilenceDetector::default();
    let loud = vec![16384i16, 16384];
    assert_eq!(d.process(&loud), Some(false));
    assert_eq!(d.process(&vec![0, 0]), Some(true));
    assert_eq!(d.process(&Vec::new()), None);
    assert_eq!(d.process(&vec![16384]), Some(false));
    assert!(d.initialized);
    assert_eq!(d.threshold_ratio, DEFAULT_THRESHOLD_RATIO);
}
