//! Resampling, channel mixing and recording-buffer management.
use vstd::prelude::*;

use crate::processor::{is_silent_batch, emits, AudioProcessor, SilenceDetector};

verus! {

/// Sample rate that the transcription engine expects.
pub const TARGET_RATE: u32 = 16000;

/// Sum of `s[lo..hi]`.
pub open spec fn sum_range(s: Seq<i16>, lo: int, hi: int) -> int
    decreases hi - lo,
{
    if hi <= lo {
        0
    } else {
        sum_range(s, lo, hi - 1) + s[hi - 1] as int
    }
}

/// Integer division rounding toward zero, as Rust's `/` on signed integers.
pub open spec fn div_trunc(a: int, d: int) -> int {
    if a >= 0 {
        a / d
    } else {
        -((-a) / d)
    }
}

/// Number of frames in `n` interleaved samples of `c` channels (a trailing
/// partial frame counts).
pub open spec fn frame_count(n: int, c: int) -> int {
    (n + c - 1) / c
}

/// Mono value of frame `k`: the sum of its samples divided by the channel count.
pub open spec fn mono_frame(s: Seq<i16>, c: int, k: int) -> i16 {
    let lo = k * c;
    let hi = if (k + 1) * c <= s.len() { (k + 1) * c } else { s.len() as int };
    div_trunc(sum_range(s, lo, hi), c) as i16
}

/// Interleaved samples of `c` channels averaged frame by frame; empty for zero channels.
pub open spec fn mono_of(s: Seq<i16>, c: int) -> Seq<i16> {
    if c <= 0 {
        Seq::empty()
    } else {
        Seq::new(frame_count(s.len() as int, c) as nat, |k: int| mono_frame(s, c, k))
    }
}

/// Length of `n` samples at `rate` once resampled to the target rate:
/// `ceil(n * 16000 / rate)`.
pub open spec fn resampled_len(n: int, rate: int) -> int {
    (n * TARGET_RATE as int + rate - 1) / rate
}

/// Linear interpolation between `a` and `b` at `frac / 16000`.
pub open spec fn lerp(a: i16, b: i16, frac: int) -> int {
    div_trunc(a as int * (TARGET_RATE as int - frac) + b as int * frac, TARGET_RATE as int)
}

/// Output sample `i`: source position `i * rate / 16000`, interpolated between
/// its two neighbours; the last source sample where there is no right neighbour.
pub open spec fn resampled_at(s: Seq<i16>, rate: int, i: int) -> i16 {
    let pos = i * rate;
    let idx = pos / TARGET_RATE as int;
    let frac = pos % TARGET_RATE as int;
    if idx + 1 < s.len() {
        lerp(s[idx], s[idx + 1], frac) as i16
    } else if idx < s.len() {
        s[idx]
    } else {
        0
    }
}

/// `s` at `rate` resampled to the target rate: unchanged at the target rate,
/// empty for empty input or a zero rate.
pub open spec fn resampled(s: Seq<i16>, rate: int) -> Seq<i16> {
    if rate == TARGET_RATE as int {
        s
    } else if s.len() == 0 || rate <= 0 {
        Seq::empty()
    } else {
        Seq::new(resampled_len(s.len() as int, rate) as nat, |i: int| resampled_at(s, rate, i))
    }
}

proof fn lemma_div_trunc_bounds(a: int, d: int, lo: int, hi: int)
    requires
        d > 0,
        lo <= 0 <= hi,
        lo * d <= a <= hi * d,
    ensures
        lo <= div_trunc(a, d) <= hi,
{
    if a >= 0 {
        assert(a / d <= hi) by (nonlinear_arith)
            requires d > 0, a >= 0, a <= hi * d;
        assert(a / d >= 0) by (nonlinear_arith)
            requires d > 0, a >= 0;
    } else {
        assert((-lo) * d == -(lo * d)) by (nonlinear_arith);
        assert((-a) / d <= -lo) by (nonlinear_arith)
            requires d > 0, -a >= 0, -a <= (-lo) * d;
        assert((-a) / d >= 0) by (nonlinear_arith)
            requires d > 0, -a >= 0;
    }
}

/// Resampling audio that is already at the target rate leaves it unchanged,
/// empty audio included.
pub proof fn lemma_resample_identity(s: Seq<i16>)
    ensures
        resampled(s, TARGET_RATE as int) == s,
{
}

/// For every positive rate the resampled length is
/// `ceil(len * 16000 / rate)`.
pub proof fn lemma_resample_length(s: Seq<i16>, rate: int)
    requires
        rate > 0,
    ensures
        resampled(s, rate).len() == (s.len() * TARGET_RATE as int + rate - 1) / rate,
{
    let n = s.len() as int;
    if rate == TARGET_RATE as int {
        assert((n * 16000 + 16000 - 1) / 16000 == n);
    } else if n == 0 {
        assert((rate - 1) / rate == 0) by (nonlinear_arith)
            requires rate > 0;
    }
}

/// Mono conversion of one channel is the identity.
pub proof fn lemma_mono_single_channel(s: Seq<i16>)
    ensures
        mono_of(s, 1) == s,
{
    let m = mono_of(s, 1);
    assert(m.len() == s.len());
    assert forall|k: int| 0 <= k < s.len() implies m[k] == s[k] by {
        assert(sum_range(s, k, k + 1) == sum_range(s, k, k) + s[k] as int);
    }
    assert(m =~= s);
}

/// Stereo audio whose two channels are equal becomes mono with the same
/// amplitude: frame `k` is the left sample of frame `k`.
pub proof fn lemma_mono_equal_stereo(s: Seq<i16>)
    requires
        s.len() % 2 == 0,
        forall|k: int| 0 <= k < s.len() / 2 ==> s[2 * k] == #[trigger] s[2 * k + 1],
    ensures
        mono_of(s, 2).len() == s.len() / 2,
        forall|k: int| 0 <= k < s.len() / 2 ==> #[trigger] mono_of(s, 2)[k] == s[2 * k],
{
    let m = mono_of(s, 2);
    assert forall|k: int| 0 <= k < s.len() / 2 implies #[trigger] mono_of(s, 2)[k] == s[2 * k] by {
        assert(s[2 * k] == s[2 * k + 1]);
        assert(sum_range(s, 2 * k, 2 * k + 2) == sum_range(s, 2 * k, 2 * k + 1) + s[2 * k + 1] as int);
        assert(sum_range(s, 2 * k, 2 * k + 1) == sum_range(s, 2 * k, 2 * k) + s[2 * k] as int);
        assert((k + 1) * 2 == 2 * k + 2);
        assert(k * 2 == 2 * k);
    }
}

/// Averages one frame `s[lo..hi]` over `c` channels.
fn frame_average(s: &Vec<i16>, lo: usize, hi: usize, c: usize) -> (r: i16)
    requires
        lo <= hi <= s@.len(),
        hi - lo <= c,
        1 <= c <= u16::MAX,
    ensures
        r as int == div_trunc(sum_range(s@, lo as int, hi as int), c as int),
{
    let mut acc: i64 = 0;
    let mut j: usize = lo;
    while j < hi
        invariant
            lo <= j <= hi <= s@.len(),
            hi - lo <= c <= u16::MAX,
            acc as int == sum_range(s@, lo as int, j as int),
            -32768 * (j - lo) <= acc <= 32767 * (j - lo),
        decreases hi - j,
    {
        acc = acc + s[j] as i64;
        j = j + 1;
    }
    proof {
        lemma_div_trunc_bounds(acc as int, c as int, -32768, 32767);
    }
    if acc >= 0 {
        (acc / c as i64) as i16
    } else {
        (-((-acc) / c as i64)) as i16
    }
}

/// Averages interleaved samples of `channels` channels frame by frame; a trailing
/// partial frame is still divided by the full channel count. Zero channels give
/// an empty result.
pub fn convert_to_mono(samples: &Vec<i16>, channels: usize) -> (r: Vec<i16>)
    requires
        channels <= u16::MAX,
    ensures
        r@ == mono_of(samples@, channels as int),
{
    let mut out: Vec<i16> = Vec::new();
    if channels == 0 {
        return out;
    }
    let n = samples.len();
    proof {
        let ni = n as int;
        let c = channels as int;
        assert(ni % c != 0 ==> ni / c < ni) by (nonlinear_arith)
            requires c >= 1, ni >= 0;
    }
    let frames: usize = if n % channels == 0 { n / channels } else { n / channels + 1 };
    let ghost c = channels as int;
    proof {
        let ni = n as int;
        let f = frames as int;
        assert(f == (ni + c - 1) / c) by (nonlinear_arith)
            requires
                c >= 1,
                ni >= 0,
                f == (if ni % c == 0 { ni / c } else { ni / c + 1 });
    }
    let mut k: usize = 0;
    while k < frames
        invariant
            n == samples@.len(),
            1 <= c == channels <= u16::MAX,
            frames == frame_count(n as int, c),
            k <= frames,
            out@.len() == k,
            forall|j: int| 0 <= j < k ==> out@[j] == mono_frame(samples@, c, j),
        decreases frames - k,
    {
        proof {
            let ki = k as int;
            let ni = n as int;
            let f = frames as int;
            assert(ki * c < ni && (ki + 1) * c == ki * c + c) by (nonlinear_arith)
                requires ki < f, f == (ni + c - 1) / c, c >= 1;
        }
        let lo: usize = k * channels;
        let hi: usize = if n - lo >= channels { lo + channels } else { n };
        let v = frame_average(samples, lo, hi, channels);
        out.push(v);
        k = k + 1;
    }
    proof {
        assert(out@ =~= mono_of(samples@, c));
    }
    out
}

/// Interpolates between `a` and `b` at `frac / 16000`.
fn interpolate(a: i16, b: i16, frac: usize) -> (r: i16)
    requires
        frac < TARGET_RATE,
    ensures
        r as int == lerp(a, b, frac as int),
{
    let f = frac as i64;
    proof {
        let ai = a as int;
        let bi = b as int;
        let fi = f as int;
        assert(-32768 * 16000 <= ai * (16000 - fi) + bi * fi <= 32767 * 16000
            && -32768 * 16000 <= ai * (16000 - fi) <= 32768 * 16000
            && -32768 * 16000 <= bi * fi <= 32768 * 16000) by (nonlinear_arith)
            requires -32768 <= ai <= 32767, -32768 <= bi <= 32767, 0 <= fi < 16000;
    }
    let num: i64 = a as i64 * (16000 - f) + b as i64 * f;
    proof {
        lemma_div_trunc_bounds(num as int, 16000, -32768, 32767);
    }
    if num >= 0 {
        (num / 16000) as i16
    } else {
        (-((-num) / 16000)) as i16
    }
}

/// Resamples mono audio at `source_rate` to 16 kHz by linear interpolation.
/// It never fails: audio at the target rate comes back unchanged, and empty
/// audio or a zero rate give empty audio.
pub fn resample_to_16khz(samples: &Vec<i16>, source_rate: u32) -> (r: Result<Vec<i16>, String>)
    requires
        samples@.len() * TARGET_RATE <= usize::MAX,
    ensures
        r matches Ok(v) && v@ == resampled(samples@, source_rate as int),
{
    if source_rate == TARGET_RATE {
        return Ok(samples.clone());
    }
    let n = samples.len();
    if n == 0 || source_rate == 0 {
        return Ok(Vec::new());
    }
    let rate = source_rate as usize;
    let total: usize = n * 16000;
    let out_len: usize = if total % rate == 0 { total / rate } else { total / rate + 1 };
    proof {
        let t = total as int;
        let ri = rate as int;
        let o = out_len as int;
        assert(o == (t + ri - 1) / ri && (o - 1) * ri < t) by (nonlinear_arith)
            requires
                ri >= 1,
                t >= 1,
                o == (if t % ri == 0 { t / ri } else { t / ri + 1 });
    }
    let mut out: Vec<i16> = Vec::with_capacity(out_len);
    let mut i: usize = 0;
    while i < out_len
        invariant
            n == samples@.len() >= 1,
            rate == source_rate as usize >= 1,
            rate != TARGET_RATE,
            total == n * 16000,
            out_len == resampled_len(n as int, rate as int),
            (out_len - 1) * rate < total,
            i <= out_len,
            out@.len() == i,
            forall|j: int| 0 <= j < i ==> out@[j] == resampled_at(samples@, rate as int, j),
        decreases out_len - i,
    {
        proof {
            let ii = i as int;
            let ri = rate as int;
            let o = out_len as int;
            assert(ii * ri <= (o - 1) * ri) by (nonlinear_arith)
                requires ii <= o - 1, ri >= 1;
        }
        let pos: usize = i * rate;
        let idx: usize = pos / 16000;
        let frac: usize = pos % 16000;
        let v: i16 = if idx + 1 < n {
            interpolate(samples[idx], samples[idx + 1], frac)
        } else if idx < n {
            samples[idx]
        } else {
            0
        };
        out.push(v);
        i = i + 1;
    }
    proof {
        assert(out@ =~= resampled(samples@, source_rate as int));
    }
    Ok(out)
}

/// `v` limited to the range of a 16-bit sample.
pub open spec fn clamp16(v: int) -> i16 {
    if v > 32767 {
        32767i16
    } else if v < -32768 {
        -32768i16
    } else {
        v as i16
    }
}

/// Sample `i` of two mono streams mixed: their sum, limited to the sample
/// range; a stream that has ended contributes nothing.
pub open spec fn mixed_at(a: Seq<i16>, b: Seq<i16>, i: int) -> i16 {
    let x = if i < a.len() { a[i] as int } else { 0 };
    let y = if i < b.len() { b[i] as int } else { 0 };
    clamp16(x + y)
}

/// Two mono 16 kHz streams mixed, as long as the longer one.
pub open spec fn mixed(a: Seq<i16>, b: Seq<i16>) -> Seq<i16> {
    let n = if a.len() >= b.len() { a.len() } else { b.len() };
    Seq::new(n, |i: int| mixed_at(a, b, i))
}

/// Mixes two mono 16 kHz streams by summing corresponding samples.
pub fn mix_sources(a: &Vec<i16>, b: &Vec<i16>) -> (r: Vec<i16>)
    ensures
        r@ == mixed(a@, b@),
{
    let n = if a.len() >= b.len() { a.len() } else { b.len() };
    let mut out: Vec<i16> = Vec::with_capacity(n);
    let mut i: usize = 0;
    while i < n
        invariant
            n == (if a@.len() >= b@.len() { a@.len() } else { b@.len() }),
            i <= n,
            out@.len() == i,
            forall|j: int| 0 <= j < i ==> out@[j] == mixed_at(a@, b@, j),
        decreases n - i,
    {
        let x: i32 = if i < a.len() { a[i] as i32 } else { 0 };
        let y: i32 = if i < b.len() { b[i] as i32 } else { 0 };
        let s = x + y;
        let v: i16 = if s > 32767 {
            32767
        } else if s < -32768 {
            -32768
        } else {
            s as i16
        };
        out.push(v);
        i = i + 1;
    }
    proof {
        assert(out@ =~= mixed(a@, b@));
    }
    out
}

/// Source kind of an audio device.
#[derive(Clone, Copy, Debug, PartialEq, Eq, Structural)]
pub enum AudioSourceType {
    /// Microphone or other input device.
    Input,
    /// System audio (monitor or loopback).
    System,
    /// Input and system audio mixed.
    Mixed,
}

impl Default for AudioSourceType {
    fn default() -> (r: Self)
        ensures
            r == AudioSourceType::Input,
    {
        AudioSourceType::Input
    }
}

/// An audio device as the platform reports it.
#[derive(Clone, Debug)]
pub struct AudioDevice {
    pub id: String,
    pub name: String,
    pub source_type: AudioSourceType,
}

/// Recorded audio before conversion to 16 kHz mono.
#[derive(Clone, Debug)]
pub struct RawRecordedAudio {
    pub samples: Vec<i16>,
    pub sample_rate: u32,
    pub channels: u16,
}

/// Most samples a recording holds: ten minutes at 48 kHz stereo.
pub const MAX_RECORDING_SAMPLES: usize = 48000 * 60 * 10 * 2;

/// Mono version of raw audio: frames averaged when there are several channels.
pub open spec fn raw_mono(samples: Seq<i16>, channels: int) -> Seq<i16> {
    if channels > 1 {
        mono_of(samples, channels)
    } else {
        samples
    }
}

/// Converts recorded audio to 16 kHz mono for transcription.
pub fn process_recorded_audio(raw: RawRecordedAudio) -> (r: Result<Vec<i16>, String>)
    requires
        raw.samples@.len() * TARGET_RATE <= usize::MAX,
    ensures
        r matches Ok(v) && v@ == resampled(raw_mono(raw.samples@, raw.channels as int), raw.sample_rate as int),
{
    let mono = if raw.channels > 1 {
        convert_to_mono(&raw.samples, raw.channels as usize)
    } else {
        raw.samples
    };
    proof {
        if raw.channels > 1 {
            let n = raw.samples@.len() as int;
            let c = raw.channels as int;
            assert((n + c - 1) / c <= n) by (nonlinear_arith)
                requires c >= 2, n >= 0;
        }
    }
    resample_to_16khz(&mono, raw.sample_rate)
}

/// The recording buffer after `s` arrives: what fits below the cap is
/// appended, the rest dropped.
pub open spec fn capped_append(buf: Seq<i16>, s: Seq<i16>) -> Seq<i16> {
    let room = MAX_RECORDING_SAMPLES as int - buf.len();
    if room <= 0 {
        buf
    } else if s.len() <= room {
        buf + s
    } else {
        buf + s.take(room)
    }
}

/// However much arrives, the recording buffer holds what it held plus what
/// fits, up to the cap and never past it.
pub proof fn lemma_recording_cap(buf: Seq<i16>, s: Seq<i16>)
    requires
        buf.len() <= MAX_RECORDING_SAMPLES,
    ensures
        capped_append(buf, s).len() == (if buf.len() + s.len() <= MAX_RECORDING_SAMPLES as int {
            buf.len() + s.len() as int
        } else {
            MAX_RECORDING_SAMPLES as int
        }),
        capped_append(buf, s).len() <= MAX_RECORDING_SAMPLES,
        capped_append(buf, s).subrange(0, buf.len() as int) == buf,
{
    assert(capped_append(buf, s).subrange(0, buf.len() as int) =~= buf);
}

/// State of the audio stream, owned by the capture side.
#[derive(Clone, Debug)]
pub struct AudioStreamState {
    pub recording_samples: Vec<i16>,
    pub sample_rate: u32,
    pub channels: u16,
    pub is_recording: bool,
    pub is_monitoring: bool,
    pub is_processing_enabled: bool,
    pub speech_processor: Option<SilenceDetector>,
    pub stream_active: bool,
    pub source_type: AudioSourceType,
}

impl AudioStreamState {
    /// The recording buffer stays within its cap.
    pub open spec fn wf(&self) -> bool {
        self.recording_samples@.len() <= MAX_RECORDING_SAMPLES
    }
}

/// Audio stream state of one capture session.
pub struct RecordingState {
    state: AudioStreamState,
}

impl View for RecordingState {
    type V = AudioStreamState;

    closed spec fn view(&self) -> AudioStreamState {
        self.state
    }
}

impl RecordingState {
    /// Idle state: nothing recorded, monitored or processed.
    pub fn new() -> (r: Self)
        ensures
            r@.recording_samples@.len() == 0,
            r@.sample_rate == 0,
            r@.channels == 0,
            !r@.is_recording,
            !r@.is_monitoring,
            !r@.is_processing_enabled,
            r@.speech_processor.is_none(),
            !r@.stream_active,
            r@.source_type == AudioSourceType::Input,
            r@.wf(),
    {
        RecordingState {
            state: AudioStreamState {
                recording_samples: Vec::new(),
                sample_rate: 0,
                channels: 0,
                is_recording: false,
                is_monitoring: false,
                is_processing_enabled: false,
                speech_processor: None,
                stream_active: false,
                source_type: AudioSourceType::Input,
            },
        }
    }

    pub fn is_recording(&self) -> (r: bool)
        ensures
            r == self@.is_recording,
    {
        self.state.is_recording
    }

    pub fn is_monitoring(&self) -> (r: bool)
        ensures
            r == self@.is_monitoring,
    {
        self.state.is_monitoring
    }

    pub fn is_processing_enabled(&self) -> (r: bool)
        ensures
            r == self@.is_processing_enabled,
    {
        self.state.is_processing_enabled
    }

    /// Turns speech processing on or off; turning it on starts a fresh detector.
    pub fn set_processing_enabled(&mut self, enabled: bool)
        ensures
            final(self)@ == (AudioStreamState {
                is_processing_enabled: enabled,
                speech_processor: if enabled {
                    Some(SilenceDetector {
                        threshold_ratio: crate::processor::DEFAULT_THRESHOLD_RATIO,
                        is_silent: true,
                        initialized: false,
                    })
                } else {
                    old(self)@.speech_processor
                },
                ..old(self)@
            }),
    {
        self.state.is_processing_enabled = enabled;
        if enabled {
            self.state.speech_processor = Some(SilenceDetector::new());
        }
    }

    /// Turns monitoring of the incoming audio on or off.
    pub fn set_monitoring(&mut self, monitoring: bool)
        ensures
            final(self)@ == (AudioStreamState { is_monitoring: monitoring, ..old(self)@ }),
    {
        self.state.is_monitoring = monitoring;
    }

    /// Starts a new capture: records its format, empties the recording buffer
    /// and marks the stream active.
    pub fn init_for_capture(&mut self, sample_rate: u32, channels: u16, source_type: AudioSourceType)
        ensures
            final(self)@ == (AudioStreamState {
                recording_samples: final(self)@.recording_samples,
                sample_rate: sample_rate,
                channels: channels,
                source_type: source_type,
                stream_active: true,
                ..old(self)@
            }),
            final(self)@.recording_samples@.len() == 0,
    {
        self.state.recording_samples = Vec::new();
        self.state.sample_rate = sample_rate;
        self.state.channels = channels;
        self.state.source_type = source_type;
        self.state.stream_active = true;
    }

    /// Marks the stream stopped.
    pub fn mark_capture_stopped(&mut self)
        ensures
            final(self)@ == (AudioStreamState { stream_active: false, ..old(self)@ }),
    {
        self.state.stream_active = false;
    }

    /// Starts a recording with an empty buffer.
    pub fn start_recording(&mut self)
        ensures
            final(self)@ == (AudioStreamState {
                is_recording: true,
                recording_samples: final(self)@.recording_samples,
                ..old(self)@
            }),
            final(self)@.recording_samples@.len() == 0,
    {
        self.state.recording_samples = Vec::new();
        self.state.is_recording = true;
    }

    /// Ends the recording and hands over what it holds, with its format.
    pub fn stop_recording(&mut self) -> (r: RawRecordedAudio)
        ensures
            r.samples@ == old(self)@.recording_samples@,
            r.sample_rate == old(self)@.sample_rate,
            r.channels == old(self)@.channels,
            final(self)@ == (AudioStreamState {
                is_recording: false,
                recording_samples: final(self)@.recording_samples,
                ..old(self)@
            }),
            final(self)@.recording_samples@.len() == 0,
    {
        let samples = self.state.recording_samples.clone();
        self.state.recording_samples = Vec::new();
        self.state.is_recording = false;
        RawRecordedAudio { samples, sample_rate: self.state.sample_rate, channels: self.state.channels }
    }

    /// Handles one batch of interleaved samples: records what fits below the
    /// cap while recording, and runs the speech detector on the mono signal
    /// while monitoring with processing on. Returns the detector's report.
    pub fn process_samples(&mut self, samples: &Vec<i16>, channels: usize) -> (r: Option<bool>)
        requires
            old(self)@.wf(),
            channels <= u16::MAX,
        ensures
            final(self)@.wf(),
            final(self)@.recording_samples@ == (if old(self)@.is_recording {
                capped_append(old(self)@.recording_samples@, samples@)
            } else {
                old(self)@.recording_samples@
            }),
            ({
                let mono = if channels > 1 { mono_of(samples@, channels as int) } else { samples@ };
                let runs = old(self)@.is_monitoring && old(self)@.is_processing_enabled
                    && old(self)@.speech_processor.is_some();
                if runs {
                    let d = old(self)@.speech_processor.unwrap();
                    let now = is_silent_batch(mono, d.threshold_ratio as int);
                    &&& r == (if emits(d.initialized, d.is_silent, now) { Some(now) } else { None })
                    &&& final(self)@.speech_processor == Some(SilenceDetector {
                        is_silent: now,
                        initialized: true,
                        ..d
                    })
                } else {
                    &&& r.is_none()
                    &&& final(self)@.speech_processor == old(self)@.speech_processor
                }
            }),
            final(self)@ == (AudioStreamState {
                recording_samples: final(self)@.recording_samples,
                speech_processor: final(self)@.speech_processor,
                ..old(self)@
            }),
    {
        if self.state.is_recording {
            let len = self.state.recording_samples.len();
            let room: usize = if len < MAX_RECORDING_SAMPLES { MAX_RECORDING_SAMPLES - len } else { 0 };
            let count: usize = if samples.len() < room { samples.len() } else { room };
            let ghost before = self.state.recording_samples@;
            let ghost st = self.state;
            let mut i: usize = 0;
            while i < count
                invariant
                    self.state == (AudioStreamState { recording_samples: self.state.recording_samples, ..st }),
                    count <= samples@.len(),
                    before.len() + count <= MAX_RECORDING_SAMPLES,
                    i <= count,
                    self.state.recording_samples@ == before + samples@.take(i as int),
                decreases count - i,
            {
                self.state.recording_samples.push(samples[i]);
                i = i + 1;
                proof {
                    assert(self.state.recording_samples@ =~= before + samples@.take(i as int));
                }
            }
            proof {
                assert(samples@.take(samples@.len() as int) =~= samples@);
                if room == 0 {
                    assert(before + samples@.take(0) =~= before);
                }
            }
        }
        let mono = if channels > 1 {
            convert_to_mono(samples, channels)
        } else {
            samples.clone()
        };
        if self.state.is_monitoring && self.state.is_processing_enabled {
            if let Some(d) = self.state.speech_processor {
                let mut detector = d;
                let report = detector.process(&mono);
                self.state.speech_processor = Some(detector);
                return report;
            }
        }
        None
    }

    /// The stream state.
    pub fn get_state(&self) -> (r: &AudioStreamState)
        ensures
            *r == self@,
    {
        &self.state
    }
}

} // verus!
