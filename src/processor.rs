//! Energy-based speech activity detection.
use vstd::prelude::*;

verus! {

/// Power of a full-scale sample: `32768 * 32768`.
pub const FULL_SCALE_POWER: u128 = 1073741824;

/// Ratio of full-scale power to threshold power for a -40 dB threshold.
pub const DEFAULT_THRESHOLD_RATIO: u32 = 10000;

/// Sum of the squares of `s[0..hi]`.
pub open spec fn sum_squares(s: Seq<i16>, hi: int) -> int
    decreases hi,
{
    if hi <= 0 {
        0
    } else {
        sum_squares(s, hi - 1) + s[hi - 1] as int * s[hi - 1] as int
    }
}

/// A batch is silent when its RMS level lies below the threshold, that is
/// when its mean power is below full-scale power divided by `ratio`. An empty
/// batch has zero level, which is minus infinity in decibels: silent.
pub open spec fn is_silent_batch(s: Seq<i16>, ratio: int) -> bool {
    s.len() == 0 || sum_squares(s, s.len() as int) * ratio < s.len() * FULL_SCALE_POWER
}

/// Whether a classification `now` is reported, given whether one was made
/// before and what it was.
pub open spec fn emits(initialized: bool, prev_silent: bool, now: bool) -> bool {
    !initialized || now != prev_silent
}

/// Number of reports made over classifications `c`, starting from the given
/// detector state.
pub open spec fn emissions(initialized: bool, prev_silent: bool, c: Seq<bool>) -> nat
    decreases c.len(),
{
    if c.len() == 0 {
        0
    } else {
        (if emits(initialized, prev_silent, c[0]) { 1nat } else { 0nat })
            + emissions(true, c[0], c.drop_first())
    }
}

/// Number of places where consecutive classifications differ.
pub open spec fn crossings(c: Seq<bool>) -> nat
    decreases c.len(),
{
    if c.len() <= 1 {
        0
    } else {
        (if c[0] != c[1] { 1nat } else { 0nat }) + crossings(c.drop_first())
    }
}

proof fn lemma_emissions_after_first(c: Seq<bool>)
    requires
        c.len() >= 1,
    ensures
        emissions(true, c[0], c) == crossings(c),
    decreases c.len(),
{
    let rest = c.drop_first();
    assert(emissions(true, c[0], c) == emissions(true, c[0], rest));
    if c.len() > 1 {
        lemma_emissions_after_first(rest);
        assert(rest[0] == c[1]);
        assert(emissions(true, rest[0], rest) == emissions(true, rest[0], rest.drop_first()));
        assert(emissions(true, c[0], rest) == (if c[0] != c[1] { 1nat } else { 0nat })
            + emissions(true, rest[0], rest.drop_first()));
    }
}

/// A fresh detector reports once for its first batch and then once per change
/// of classification, never more: over classifications `c` it reports
/// `crossings(c) + 1` times.
pub proof fn lemma_detector_reports_crossings_plus_one(prev_silent: bool, c: Seq<bool>)
    requires
        c.len() >= 1,
    ensures
        emissions(false, prev_silent, c) == crossings(c) + 1,
{
    lemma_emissions_after_first(c);
    let rest = c.drop_first();
    if c.len() > 1 {
        lemma_emissions_after_first(rest);
    }
}

/// Detects transitions between silence and sound.
#[derive(Clone, Copy, Debug)]
pub struct SilenceDetector {
    /// Full-scale power over threshold power (10000 is -40 dB).
    pub threshold_ratio: u32,
    /// Classification of the latest batch.
    pub is_silent: bool,
    /// Whether a batch has been classified yet.
    pub initialized: bool,
}

/// What a detector reports for a batch: the classification, on the first
/// batch and whenever it differs from the previous one.
pub open spec fn detector_report(d: SilenceDetector, samples: Seq<i16>) -> Option<bool> {
    let now = is_silent_batch(samples, d.threshold_ratio as int);
    if emits(d.initialized, d.is_silent, now) {
        Some(now)
    } else {
        None
    }
}

/// A detector after it classified a batch: same threshold, initialized, and
/// holding the batch's classification.
pub open spec fn detector_after(d: SilenceDetector, samples: Seq<i16>) -> SilenceDetector {
    SilenceDetector {
        is_silent: is_silent_batch(samples, d.threshold_ratio as int),
        initialized: true,
        ..d
    }
}

/// Capability shared by the processors that run on each audio batch.
pub trait AudioProcessor: Sized {
    /// What processing `samples` reports.
    spec fn reported(&self, samples: Seq<i16>) -> Option<bool>;

    /// The processor after it processed `samples`.
    spec fn processed(&self, samples: Seq<i16>) -> Self;

    /// Processes one batch of mono samples; returns the reported classification
    /// (`Some(true)` for silence), if any.
    fn process(&mut self, samples: &Vec<i16>) -> (r: Option<bool>)
        ensures
            r == old(self).reported(samples@),
            *final(self) == old(self).processed(samples@);

    /// The processor's name.
    fn name(&self) -> &'static str;
}

impl SilenceDetector {
    /// A detector with the -40 dB threshold that has classified nothing yet.
    pub fn new() -> (r: Self)
        ensures
            r.threshold_ratio == DEFAULT_THRESHOLD_RATIO,
            r.is_silent,
            !r.initialized,
    {
        SilenceDetector { threshold_ratio: DEFAULT_THRESHOLD_RATIO, is_silent: true, initialized: false }
    }

    /// Sum of the squares of the samples.
    fn calculate_power(samples: &Vec<i16>) -> (r: u128)
        ensures
            r as int == sum_squares(samples@, samples@.len() as int),
            r <= samples@.len() * FULL_SCALE_POWER,
    {
        let mut acc: u128 = 0;
        let mut j: usize = 0;
        while j < samples.len()
            invariant
                j <= samples@.len(),
                acc as int == sum_squares(samples@, j as int),
                acc <= j * FULL_SCALE_POWER,
            decreases samples@.len() - j,
        {
            let v = samples[j] as i32;
            proof {
                assert(0 <= v * v <= 1073741824) by (nonlinear_arith)
                    requires -32768 <= v <= 32767;
            }
            let sq = v * v;
            acc = acc + sq as u128;
            j = j + 1;
        }
        acc
    }

    /// Whether `samples` lies below the threshold.
    fn is_below_threshold(&self, samples: &Vec<i16>) -> (r: bool)
        ensures
            r == is_silent_batch(samples@, self.threshold_ratio as int),
    {
        let n = samples.len();
        if n == 0 {
            return true;
        }
        let power = Self::calculate_power(samples);
        let ratio = self.threshold_ratio as u128;
        proof {
            let p = power as int;
            let ni = n as int;
            let ri = ratio as int;
            assert(p * ri <= ni * 1073741824 * 4294967295 && ni * 1073741824 <= 18446744073709551615 * 1073741824)
                by (nonlinear_arith)
                requires 0 <= p <= ni * 1073741824, 0 <= ri <= 4294967295, 0 <= ni <= 18446744073709551615;
            assert(ni * 1073741824 * 4294967295 <= 18446744073709551615 * 1073741824 * 4294967295)
                by (nonlinear_arith)
                requires 0 <= ni <= 18446744073709551615;
        }
        power * ratio < n as u128 * FULL_SCALE_POWER
    }
}

impl Default for SilenceDetector {
    fn default() -> (r: Self)
        ensures
            r.threshold_ratio == DEFAULT_THRESHOLD_RATIO,
            r.is_silent,
            !r.initialized,
    {
        Self::new()
    }
}

impl AudioProcessor for SilenceDetector {
    open spec fn reported(&self, samples: Seq<i16>) -> Option<bool> {
        detector_report(*self, samples)
    }

    open spec fn processed(&self, samples: Seq<i16>) -> Self {
        detector_after(*self, samples)
    }

    /// Classifies one batch and reports the classification on the first batch
    /// and whenever it differs from the previous one.
    fn process(&mut self, samples: &Vec<i16>) -> (r: Option<bool>) {
        let now_silent = self.is_below_threshold(samples);
        let report = !self.initialized || now_silent != self.is_silent;
        self.initialized = true;
        self.is_silent = now_silent;
        if report {
            Some(now_silent)
        } else {
            None
        }
    }

    fn name(&self) -> &'static str {
        "SilenceDetector"
    }
}

} // verus!
