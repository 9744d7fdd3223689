use flowstt::audio::{
    resample_to_16khz,
    convert_to_mono, mix_sources, process_recorded_audio, AudioSourceType, RawRecordedAudio, RecordingState,
    MAX_RECORDING_SAMPLES,
};

fn resample(samples: Vec<i16>, rate: u32) -> Vec<i16> {
    process_recorded_audio(RawRecordedAudio { samples, sample_rate: rate, channels: 1 }).unwrap()
}

#[test]
fn resample_identity_at_target_rate() {
    let s = vec![1i16, -5, 300, 32767, -32768];
    assert_eq!(resample(s.clone(), 16000), s);
    assert_eq!(resample(Vec::new(), 16000), Vec::<i16>::new());
}

#[test]
fn resample_empty_input_is_empty() {
    assert!(resample(Vec::new(), 44100).is_empty());
    assert!(resample(Vec::new(), 8000).is_empty());
}

#[test]
fn resample_length_law() {
    for &(n, rate) in &[(8usize, 48000u32), (10, 44100), (7, 8000), (1, 48000), (100, 22050), (3, 32000)] {
        let s: Vec<i16> = (0..n as i32).map(|v| v as i16).collect();
        let expected = (n * 16000 + rate as usize - 1) / rate as usize;
        assert_eq!(resample(s, rate).len(), expected, "n={} rate={}", n, rate);
    }
}

#[test]
fn resample_downsamples_by_picking_and_interpolating() {
    // 48 kHz to 16 kHz: every third sample.
    assert_eq!(resample(vec![0, 1, 2, 3, 4, 5, 6, 7, 8], 48000), vec![0, 3, 6]);
    // 24 kHz: positions 0, 1.5, 3 -> 0, midpoint of 100 and 200, 300.
    assert_eq!(resample(vec![0, 100, 200, 300], 24000), vec![0, 150, 300]);
}

#[test]
fn resample_upsamples_with_interpolation() {
    // 8 kHz to 16 kHz: midpoints between neighbours, last sample repeated.
    assert_eq!(resample(vec![0, 100, -100], 8000), vec![0, 50, 100, 0, -100, -100]);
}

#[test]
fn resample_zero_rate_is_empty() {
    assert!(resample(vec![1, 2, 3], 0).is_empty());
}

#[test]
fn mono_single_channel_is_identity() {
    let s = vec![3i16, -7, 12];
    assert_eq!(convert_to_mono(&s, 1), s);
}

#[test]
fn mono_equal_stereo_keeps_amplitude() {
    let s = vec![1000i16, 1000, -2000, -2000, 32767, 32767, -32768, -32768];
    assert_eq!(convert_to_mono(&s, 2), vec![1000, -2000, 32767, -32768]);
}

#[test]
fn mono_averages_and_truncates_toward_zero() {
    assert_eq!(convert_to_mono(&vec![1, 2, -1, -2], 2), vec![1, -1]);
    // A trailing partial frame is still divided by the channel count.
    assert_eq!(convert_to_mono(&vec![3, 3, 3, 9], 3), vec![3, 3]);
}

#[test]
fn mono_zero_channels_is_empty() {
    assert!(convert_to_mono(&vec![1, 2, 3], 0).is_empty());
    assert!(convert_to_mono(&Vec::new(), 2).is_empty());
}

#[test]
fn recorded_stereo_is_mixed_down_then_resampled() {
    let raw = RawRecordedAudio { samples: vec![10, 30, 50, 70, 90, 110], sample_rate: 48000, channels: 2 };
    // Mono: 20, 60, 100; at 48 kHz one output sample per three inputs.
    assert_eq!(process_recorded_audio(raw).unwrap(), vec![20]);
}

#[test]
fn mixing_sums_and_saturates() {
    assert_eq!(mix_sources(&vec![1, 2, 3], &vec![10, 20]), vec![11, 22, 3]);
    assert_eq!(mix_sources(&vec![30000, -30000], &vec![10000, -10000]), vec![32767, -32768]);
    assert!(mix_sources(&Vec::new(), &Vec::new()).is_empty());
}

#[test]
fn recording_never_exceeds_cap() {
    let mut st = RecordingState::new();
    st.start_recording();
    let big = vec![7i16; MAX_RECORDING_SAMPLES - 10];
    st.process_samples(&big, 1);
    assert_eq!(st.get_state().recording_samples.len(), MAX_RECORDING_SAMPLES - 10);
    st.process_samples(&vec![1i16; 100], 1);
    assert_eq!(st.get_state().recording_samples.len(), MAX_RECORDING_SAMPLES);
    st.process_samples(&vec![1i16; 100], 1);
    assert_eq!(st.get_state().recording_samples.len(), MAX_RECORDING_SAMPLES);
    let raw = st.stop_recording();
    assert_eq!(raw.samples.len(), MAX_RECORDING_SAMPLES);
    assert!(!st.is_recording());
}

#[test]
fn not_recording_keeps_buffer_empty() {
    let mut st = RecordingState::new();
    st.process_samples(&vec![5i16; 10], 1);
    assert!(st.get_state().recording_samples.is_empty());
}

#[test]
fn capture_settings_are_recorded() {
    let mut st = RecordingState::new();
    st.init_for_capture(48000, 2, AudioSourceType::System);
    assert!(st.get_state().stream_active);
    assert_eq!(st.get_state().sample_rate, 48000);
    assert_eq!(st.get_state().channels, 2);
    assert_eq!(st.get_state().source_type, AudioSourceType::System);
    st.mark_capture_stopped();
    assert!(!st.get_state().stream_active);
    assert_eq!(AudioSourceType::default(), AudioSourceType::Input);
}

#[test]
fn detector_runs_only_when_monitoring_and_enabled() {
    let mut st = RecordingState::new();
    let loud = vec![10000i16; 160];
    assert_eq!(st.process_samples(&loud, 1), None);
    st.set_processing_enabled(true);
    assert!(st.is_processing_enabled());
    assert_eq!(st.process_samples(&loud, 1), None);
    st.set_monitoring(true);
    assert!(st.is_monitoring());
    assert_eq!(st.process_samples(&loud, 1), Some(false));
    assert_eq!(st.process_samples(&loud, 1), None);
    assert_eq!(st.process_samples(&vec![0i16; 160], 1), Some(true));
    // Stereo input is mixed down before detection.
    assert_eq!(st.process_samples(&vec![10000i16, -10000, 10000, -10000], 2), None);
    assert_eq!(st.process_samples(&vec![10000i16, 10000], 2), Some(false));
}

#[test]
fn resample_to_16khz_is_public_and_exact() {
    let s = vec![4i16, -4, 8];
    assert_eq!(resample_to_16khz(&s, 16000), Ok(s.clone()));
    assert_eq!(resample_to_16khz(&Vec::new(), 16000), Ok(Vec::new()));
    assert_eq!(resample_to_16khz(&vec![0, 100, -100], 8000).unwrap(), vec![0, 50, 100, 0, -100, -100]);
    assert_eq!(resample_to_16khz(&vec![1; 10], 44100).unwrap().len(), 4);
}

#[test]
fn init_for_capture_resets_recording() {
    let mut st = RecordingState::new();
    st.start_recording();
    st.process_samples(&vec![3i16; 40], 1);
    assert_eq!(st.get_state().recording_samples.len(), 40);
    st.init_for_capture(16000, 1, AudioSourceType::Input);
    assert!(st.get_state().recording_samples.is_empty());
    assert!(st.get_state().stream_active);
}
