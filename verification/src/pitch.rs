//! YIN-style pitch detection in integer arithmetic.
//!
//! The detector estimates the fundamental frequency of one analysis window
//! of audio samples. Samples are integers (a full-scale signal spans about
//! +/-32768, but any amplitude up to +/-2^20 is accepted); frequencies are
//! in micro-hertz; the normalized difference scores are carried in
//! millionths so that the classical 0.1 threshold is the integer 100000.
//!
//! The stages follow the classical algorithm: a squared-difference function
//! over candidate lags, its cumulative mean normalization, an absolute
//! threshold search that descends into the first dip (with a global-minimum
//! fallback), and parabolic refinement of the chosen lag. Every stage is
//! proved to return exactly the value of its specification function, and
//! `detect` is proved equal to the composition `spec_detect`.

use vstd::prelude::*;

verus! {

/// Score scale: 1.0 of the classical algorithm is 1000000 here.
pub const SCORE_ONE: u64 = 1000000;

/// Pitch detection result.
#[derive(Debug, Clone, Copy)]
pub struct PitchResult {
    /// Detected frequency in micro-hertz (always positive).
    pub frequency: u64,
    /// Confidence score in thousandths (0 to 1000, higher is better).
    pub confidence: u32,
}

/// Squared-difference function: sum over the first `w` positions of the
/// squared difference between the signal and itself shifted by `tau`.
pub open spec fn spec_diff(s: Seq<i32>, tau: int, w: int) -> int
    decreases w,
{
    if w <= 0 {
        0
    } else {
        spec_diff(s, tau, w - 1) + (s[w - 1] - s[w - 1 + tau]) * (s[w - 1] - s[w - 1 + tau])
    }
}

/// The difference values for all lags 0..=tau_max (zero at lag 0).
pub open spec fn spec_diff_seq(s: Seq<i32>, tau_max: int, w: int) -> Seq<int> {
    Seq::new((tau_max + 1) as nat, |t: int| if t == 0 { 0int } else { spec_diff(s, t, w) })
}

/// Running sum of the difference values over lags 1..=tau.
pub open spec fn spec_runsum(d: Seq<int>, tau: int) -> int
    decreases tau,
{
    if tau <= 0 {
        0
    } else {
        spec_runsum(d, tau - 1) + d[tau]
    }
}

/// Cumulative mean normalized difference at lag `tau`, in millionths:
/// `d(tau) * tau / mean-so-far`, i.e. `d(tau) * tau * SCORE_ONE / runsum`,
/// and one (the scale) at lag 0 or when the running sum vanishes.
pub open spec fn spec_cmnd_at(d: Seq<int>, tau: int) -> int {
    if tau <= 0 {
        SCORE_ONE as int
    } else if spec_runsum(d, tau) > 0 {
        d[tau] * tau * (SCORE_ONE as int) / spec_runsum(d, tau)
    } else {
        SCORE_ONE as int
    }
}

/// The normalized scores for all lags 0..=tau_max.
pub open spec fn spec_cmnd_seq(d: Seq<int>) -> Seq<int> {
    Seq::new(d.len(), |t: int| spec_cmnd_at(d, t))
}

/// A sequence of `u64` read as mathematical integers.
pub open spec fn seq_int(s: Seq<u64>) -> Seq<int> {
    s.map_values(|v: u64| v as int)
}

/// First lag in `[t, tau_max)` whose score is below the threshold.
pub open spec fn spec_first_crossing(c: Seq<int>, t: int, tau_max: int, thr: int) -> Option<int>
    decreases tau_max - t,
{
    if t >= tau_max {
        None
    } else if c[t] < thr {
        Some(t)
    } else {
        spec_first_crossing(c, t + 1, tau_max, thr)
    }
}

/// Local minimum of the dip entered at a threshold crossing: scan upward
/// from `t`, tracking the best lag seen, and stop when the score rises more
/// than 10000 millionths (0.01) above the best.
pub open spec fn spec_dip_min(c: Seq<int>, t: int, tau_max: int, best_tau: int, best_val: int) -> int
    decreases tau_max - t,
{
    if t >= tau_max {
        best_tau
    } else if c[t] < best_val {
        spec_dip_min(c, t + 1, tau_max, t, c[t])
    } else if c[t] > best_val + 10000 {
        best_tau
    } else {
        spec_dip_min(c, t + 1, tau_max, best_tau, best_val)
    }
}

/// Global minimum score over `[t, tau_max)`, carrying the best lag and
/// value seen so far; earliest lag wins ties.
pub open spec fn spec_global_min(c: Seq<int>, t: int, tau_max: int, best_tau: int, best_val: int) -> (
    int,
    int,
)
    decreases tau_max - t,
{
    if t >= tau_max {
        (best_tau, best_val)
    } else if c[t] < best_val {
        spec_global_min(c, t + 1, tau_max, t, c[t])
    } else {
        spec_global_min(c, t + 1, tau_max, best_tau, best_val)
    }
}

/// The lag chosen by the threshold search: the dip minimum after the first
/// crossing, or the global minimum if it is acceptable (below half the
/// scale), or nothing.
pub open spec fn spec_chosen_tau(c: Seq<int>, tau_min: int, tau_max: int, thr: int) -> Option<int> {
    match spec_first_crossing(c, tau_min, tau_max, thr) {
        Some(cross) => Some(spec_dip_min(c, cross + 1, tau_max, cross, c[cross])),
        None => {
            let gm = spec_global_min(c, tau_min + 1, tau_max, tau_min, c[tau_min]);
            if gm.1 < 500000 {
                Some(gm.0)
            } else {
                None
            }
        },
    }
}

/// Division truncated toward zero, as the machine division of signed
/// integers behaves: the quotient of the magnitudes, negated when the signs
/// differ.
pub open spec fn spec_tdiv(a: int, b: int) -> int {
    let q = (vstd::math::abs(a) as int) / (vstd::math::abs(b) as int);
    if (a < 0) != (b < 0) {
        -q
    } else {
        q
    }
}

/// Parabolic refinement of the chosen lag, in millionths of a sample: the
/// vertex of the parabola through the scores at the three neighboring lags,
/// clamped to one sample, or the lag itself at a boundary or when the
/// parabola is degenerate.
pub open spec fn spec_refined(c: Seq<int>, tau: int) -> int {
    if tau <= 0 || tau >= c.len() - 1 {
        tau * (SCORE_ONE as int)
    } else {
        let s0 = c[tau - 1];
        let s1 = c[tau];
        let s2 = c[tau + 1];
        let den = 2 * (s0 - 2 * s1 + s2);
        if den == 0 {
            tau * (SCORE_ONE as int)
        } else {
            let delta = spec_tdiv((s0 - s2) * (SCORE_ONE as int), den);
            let clamped = if delta < -(SCORE_ONE as int) {
                -(SCORE_ONE as int)
            } else if delta > SCORE_ONE as int {
                SCORE_ONE as int
            } else {
                delta
            };
            tau * (SCORE_ONE as int) + clamped
        }
    }
}

/// The smaller of two integers.
pub open spec fn spec_min(a: int, b: int) -> int {
    if a <= b {
        a
    } else {
        b
    }
}

/// The whole detection pipeline on one window of samples, for a detector
/// configured with the given sample rate (Hz), threshold (thousandths),
/// and frequency range (micro-hertz). `None` is "no detection": too few
/// samples, a degenerate lag range, no acceptable dip, or a refined period
/// whose frequency leaves the machine word. `Some((f, conf))` is the
/// frequency in micro-hertz and the confidence in thousandths.
pub open spec fn spec_detect(
    sr: int,
    thr_milli: int,
    fmin: int,
    fmax: int,
    s: Seq<i32>,
) -> Option<(int, int)> {
    if s.len() < 2 || fmin <= 0 || fmax <= 0 {
        None
    } else {
        let tau_min = sr * 1000000 / fmax;
        let half = s.len() as int / 2;
        let tau_max = spec_min(sr * 1000000 / fmin, half);
        if tau_max <= tau_min || tau_max >= half {
            None
        } else {
            let w = s.len() - tau_max;
            let c = spec_cmnd_seq(spec_diff_seq(s, tau_max, w));
            match spec_chosen_tau(c, tau_min, tau_max, thr_milli * 1000) {
                None => None,
                Some(tau) => {
                    let refined = spec_refined(c, tau);
                    if refined <= 0 {
                        None
                    } else {
                        let freq = sr * 1000000 * (SCORE_ONE as int) / refined;
                        let conf = ((SCORE_ONE as int) - spec_min(c[tau], SCORE_ONE as int))
                            / 1000;
                        if freq <= 0 || freq > u64::MAX {
                            None
                        } else {
                            Some((freq, conf))
                        }
                    }
                },
            }
        }
    }
}

/// YIN-based pitch detector.
pub struct PitchDetector {
    /// Sample rate in Hz.
    sample_rate: u32,
    /// Detection threshold in thousandths (default 100, i.e. 0.1).
    threshold_milli: u32,
    /// Lowest frequency searched, in micro-hertz.
    min_frequency_micro: u64,
    /// Highest frequency searched, in micro-hertz.
    max_frequency_micro: u64,
}

impl PitchDetector {
    /// Sample rate, for specification purposes.
    pub closed spec fn spec_sample_rate(&self) -> int {
        self.sample_rate as int
    }

    /// Threshold in thousandths, for specification purposes.
    pub closed spec fn spec_threshold(&self) -> int {
        self.threshold_milli as int
    }

    /// Lower end of the search range in micro-hertz, for specification
    /// purposes.
    pub closed spec fn spec_min_frequency(&self) -> int {
        self.min_frequency_micro as int
    }

    /// Upper end of the search range in micro-hertz, for specification
    /// purposes.
    pub closed spec fn spec_max_frequency(&self) -> int {
        self.max_frequency_micro as int
    }

    /// Create a new pitch detector with the default threshold (0.1) and
    /// the full piano range (A0 to C8).
    pub fn new(sample_rate: u32) -> (r: PitchDetector)
        ensures
            r.spec_sample_rate() == sample_rate,
            r.spec_threshold() == 100,
            r.spec_min_frequency() == 27500000,
            r.spec_max_frequency() == 4186000000,
    {
        PitchDetector {
            sample_rate,
            threshold_milli: 100,
            min_frequency_micro: 27500000,
            max_frequency_micro: 4186000000,
        }
    }

    /// Set the detection threshold, in thousandths of the score scale.
    pub fn with_threshold(self, threshold_milli: u32) -> (r: PitchDetector)
        ensures
            r.spec_sample_rate() == self.spec_sample_rate(),
            r.spec_threshold() == threshold_milli,
            r.spec_min_frequency() == self.spec_min_frequency(),
            r.spec_max_frequency() == self.spec_max_frequency(),
    {
        PitchDetector { threshold_milli, ..self }
    }

    /// Set the frequency search range, in micro-hertz.
    pub fn with_frequency_range(self, min_micro: u64, max_micro: u64) -> (r: PitchDetector)
        ensures
            r.spec_sample_rate() == self.spec_sample_rate(),
            r.spec_threshold() == self.spec_threshold(),
            r.spec_min_frequency() == min_micro,
            r.spec_max_frequency() == max_micro,
    {
        PitchDetector { min_frequency_micro: min_micro, max_frequency_micro: max_micro, ..self }
    }

    /// Squared-difference function over all candidate lags up to `max_tau`,
    /// summed over the window that stays valid for the largest lag.
    fn difference_function(&self, samples: &Vec<i32>, max_tau: usize) -> (r: Vec<u64>)
        requires
            1 <= max_tau < samples@.len(),
            samples@.len() <= 0x100000,
            forall|i: int|
                0 <= i < samples@.len() ==> -0x100000 <= #[trigger] samples@[i] <= 0x100000,
        ensures
            r@.len() == max_tau + 1,
            forall|t: int|
                0 <= t <= max_tau ==> #[trigger] r@[t] as int == spec_diff_seq(
                    samples@,
                    max_tau as int,
                    samples@.len() - max_tau,
                )[t],
            forall|t: int| 0 <= t <= max_tau ==> #[trigger] r@[t] <= 0x4000000000000000,
    {
        let w: usize = samples.len() - max_tau;
        let mut diff: Vec<u64> = Vec::new();
        diff.push(0);
        let mut tau: usize = 1;
        while tau <= max_tau
            invariant
                1 <= tau <= max_tau + 1,
                samples@.len() >= 2,
                1 <= max_tau < samples@.len() <= 0x100000,
                w == samples@.len() - max_tau,
                diff@.len() == tau,
                forall|i: int|
                    0 <= i < samples@.len() ==> -0x100000 <= #[trigger] samples@[i] <= 0x100000,
                forall|t: int|
                    0 <= t < tau ==> #[trigger] diff@[t] as int == spec_diff_seq(
                        samples@,
                        max_tau as int,
                        w as int,
                    )[t],
                forall|t: int| 0 <= t < tau ==> #[trigger] diff@[t] <= 0x4000000000000000,
            decreases max_tau + 1 - tau,
        {
            let mut sum: u64 = 0;
            let mut j: usize = 0;
            while j < w
                invariant
                    0 <= j <= w,
                    1 <= tau <= max_tau < samples@.len() <= 0x100000,
                    w == samples@.len() - max_tau,
                    forall|i: int|
                        0 <= i < samples@.len() ==> -0x100000 <= #[trigger] samples@[i]
                            <= 0x100000,
                    sum as int == spec_diff(samples@, tau as int, j as int),
                    sum <= j * 0x40000000000,
                decreases w - j,
            {
                let a: i32 = samples[j];
                let b: i32 = samples[j + tau];
                let delta: i64 = (a as i64) - (b as i64);
                proof {
                    assert(delta * delta <= 0x40000000000) by (nonlinear_arith)
                        requires
                            -0x200000 <= delta <= 0x200000;
                    assert(delta * delta >= 0) by (nonlinear_arith);
                }
                let sq: u64 = (delta * delta) as u64;
                proof {
                    assert(j * 0x40000000000 + 0x40000000000 == (j + 1) * 0x40000000000)
                        by (nonlinear_arith);
                    assert((j + 1) * 0x40000000000 <= 0x100000 * 0x40000000000) by (
                    nonlinear_arith)
                        requires
                            j + 1 <= 0x100000;
                }
                sum = sum + sq;
                j = j + 1;
            }
            diff.push(sum);
            tau = tau + 1;
        }
        diff
    }

    /// Cumulative mean normalized difference: each lag's difference value
    /// scaled by the lag and divided by the running mean, in millionths.
    fn cumulative_mean_normalized_difference(&self, diff: &Vec<u64>) -> (r: Vec<u64>)
        requires
            1 <= diff@.len() <= 0x100001,
            forall|t: int| 0 <= t < diff@.len() ==> #[trigger] diff@[t] <= 0x4000000000000000,
        ensures
            r@.len() == diff@.len(),
            forall|t: int|
                0 <= t < r@.len() ==> #[trigger] r@[t] as int == spec_cmnd_at(seq_int(diff@), t),
            forall|t: int| 0 <= t < r@.len() ==> #[trigger] r@[t] <= 0x4000000000000000,
    {
        let ghost d: Seq<int> = seq_int(diff@);
        proof {
            assert(forall|i: int| 0 <= i < d.len() ==> #[trigger] d[i] == diff@[i] as int);
        }
        let mut cmnd: Vec<u64> = Vec::new();
        cmnd.push(SCORE_ONE);
        let mut run: u128 = 0;
        let mut tau: usize = 1;
        while tau < diff.len()
            invariant
                1 <= tau <= diff@.len() <= 0x100001,
                d == seq_int(diff@),
                forall|i: int| 0 <= i < d.len() ==> #[trigger] d[i] == diff@[i] as int,
                forall|t: int| 0 <= t < diff@.len() ==> #[trigger] diff@[t] <= 0x4000000000000000,
                cmnd@.len() == tau,
                run == spec_runsum(d, tau - 1),
                run <= (tau - 1) * 0x4000000000000000,
                forall|t: int|
                    0 <= t < tau ==> #[trigger] cmnd@[t] as int == spec_cmnd_at(d, t),
                forall|t: int| 0 <= t < tau ==> #[trigger] cmnd@[t] <= 0x4000000000000000,
            decreases diff@.len() - tau,
        {
            let dv: u64 = diff[tau];
            proof {
                assert((tau - 1) * 0x4000000000000000 + 0x4000000000000000 == tau
                    * 0x4000000000000000) by (nonlinear_arith);
                assert(tau * 0x4000000000000000 <= 0x100001 * 0x4000000000000000) by (
                nonlinear_arith)
                    requires
                        tau <= 0x100001;
            }
            run = run + (dv as u128);
            let c: u64 = if run > 0 {
                proof {
                    lemma_runsum_nonneg(d, tau as int - 1);
                    assert(dv as int <= run as int);
                    assert((dv as int) * (tau as int) * 1000000 <= (run as int) * (tau as int)
                        * 1000000) by (nonlinear_arith)
                        requires
                            0 <= dv as int <= run as int,
                            tau >= 1;
                    vstd::arithmetic::div_mod::lemma_div_is_ordered(
                        (dv as int) * (tau as int) * 1000000,
                        (run as int) * (tau as int) * 1000000,
                        run as int,
                    );
                    assert((run as int) * (tau as int) * 1000000 / (run as int) == (tau as int)
                        * 1000000) by {
                        vstd::arithmetic::div_mod::lemma_div_by_multiple(
                            (tau as int) * 1000000,
                            run as int,
                        );
                        assert((run as int) * (tau as int) * 1000000 == ((tau as int) * 1000000)
                            * (run as int)) by (nonlinear_arith);
                    }
                    vstd::arithmetic::div_mod::lemma_div_pos_is_pos(
                        (dv as int) * (tau as int) * 1000000,
                        run as int,
                    );
                    assert((dv as int) * (tau as int) * 1000000 >= 0) by (nonlinear_arith)
                        requires
                            dv >= 0,
                            tau >= 1;
                    assert((tau as int) * 1000000 <= 0x100001 * 1000000) by (nonlinear_arith)
                        requires
                            tau <= 0x100001;
                    assert((dv as int) * (tau as int) <= 0x4000000000000000 * 0x100001) by (nonlinear_arith)
                        requires
                            0 <= dv <= 0x4000000000000000,
                            0 <= tau <= 0x100001;
                    assert((dv as int) * (tau as int) * 1000000 <= 0x4000000000000000 * 0x100001
                        * 1000000) by (nonlinear_arith)
                        requires
                            0 <= (dv as int) * (tau as int) <= 0x4000000000000000 * 0x100001;
                }
                (((dv as u128) * (tau as u128) * 1000000) / run) as u64
            } else {
                SCORE_ONE
            };
            cmnd.push(c);
            tau = tau + 1;
        }
        cmnd
    }
}

/// Scan for the first lag below the threshold.
fn find_first_crossing(cmnd: &Vec<u64>, tau_min: usize, tau_max: usize, thr: u64) -> (r: Option<
    usize,
>)
    requires
        tau_min <= tau_max <= cmnd@.len(),
    ensures
        match r {
            Some(t) => tau_min <= t < tau_max && Some(t as int) == spec_first_crossing(
                seq_int(cmnd@),
                tau_min as int,
                tau_max as int,
                thr as int,
            ),
            None => spec_first_crossing(
                seq_int(cmnd@),
                tau_min as int,
                tau_max as int,
                thr as int,
            ) is None,
        },
{
    let ghost c: Seq<int> = seq_int(cmnd@);
    let mut t: usize = tau_min;
    while t < tau_max
        invariant
            tau_min <= t <= tau_max <= cmnd@.len(),
            c == seq_int(cmnd@),
            spec_first_crossing(c, tau_min as int, tau_max as int, thr as int)
                == spec_first_crossing(c, t as int, tau_max as int, thr as int),
        decreases tau_max - t,
    {
        if cmnd[t] < thr {
            return Some(t);
        }
        t = t + 1;
    }
    None
}

/// Descend through the dip entered at a crossing: keep the smallest score
/// until the curve rises clearly out of the dip.
fn dip_min(cmnd: &Vec<u64>, start: usize, tau_max: usize, bt0: usize, bv0: u64) -> (r: usize)
    requires
        start <= tau_max <= cmnd@.len(),
        bt0 < tau_max,
        bv0 <= 0x4000000000000000,
    ensures
        r as int == spec_dip_min(seq_int(cmnd@), start as int, tau_max as int, bt0 as int, bv0 as int),
        r < tau_max,
{
    let ghost c: Seq<int> = seq_int(cmnd@);
    let mut t: usize = start;
    let mut bt: usize = bt0;
    let mut bv: u64 = bv0;
    while t < tau_max
        invariant
            start <= t <= tau_max <= cmnd@.len(),
            c == seq_int(cmnd@),
            bt < tau_max,
            bv <= 0x4000000000000000,
            spec_dip_min(c, start as int, tau_max as int, bt0 as int, bv0 as int) == spec_dip_min(
                c,
                t as int,
                tau_max as int,
                bt as int,
                bv as int,
            ),
        decreases tau_max - t,
    {
        let v: u64 = cmnd[t];
        if v < bv {
            bv = v;
            bt = t;
        } else if v > bv + 10000 {
            return bt;
        }
        t = t + 1;
    }
    bt
}

/// Smallest score over the whole search range, with the lag where it
/// occurs.
fn global_min(cmnd: &Vec<u64>, start: usize, tau_max: usize, bt0: usize, bv0: u64) -> (r: (
    usize,
    u64,
))
    requires
        start <= tau_max <= cmnd@.len(),
        bt0 < tau_max,
    ensures
        (r.0 as int, r.1 as int) == spec_global_min(
            seq_int(cmnd@),
            start as int,
            tau_max as int,
            bt0 as int,
            bv0 as int,
        ),
        r.0 < tau_max,
{
    let ghost c: Seq<int> = seq_int(cmnd@);
    let mut t: usize = start;
    let mut bt: usize = bt0;
    let mut bv: u64 = bv0;
    while t < tau_max
        invariant
            start <= t <= tau_max <= cmnd@.len(),
            c == seq_int(cmnd@),
            bt < tau_max,
            spec_global_min(c, start as int, tau_max as int, bt0 as int, bv0 as int)
                == spec_global_min(c, t as int, tau_max as int, bt as int, bv as int),
        decreases tau_max - t,
    {
        let v: u64 = cmnd[t];
        if v < bv {
            bv = v;
            bt = t;
        }
        t = t + 1;
    }
    (bt, bv)
}

impl PitchDetector {
    /// Find the lag of the first dip below the threshold, or fall back to
    /// the global minimum when it is acceptably low.
    fn find_threshold_crossing(&self, cmnd: &Vec<u64>, tau_min: usize, tau_max: usize) -> (r:
        Option<usize>)
        requires
            tau_min < tau_max <= cmnd@.len(),
            forall|t: int| 0 <= t < cmnd@.len() ==> #[trigger] cmnd@[t] <= 0x4000000000000000,
        ensures
            match r {
                Some(t) => t < tau_max && Some(t as int) == spec_chosen_tau(
                    seq_int(cmnd@),
                    tau_min as int,
                    tau_max as int,
                    self.spec_threshold() * 1000,
                ),
                None => spec_chosen_tau(
                    seq_int(cmnd@),
                    tau_min as int,
                    tau_max as int,
                    self.spec_threshold() * 1000,
                ) is None,
            },
    {
        let thr: u64 = (self.threshold_milli as u64) * 1000;
        match find_first_crossing(cmnd, tau_min, tau_max, thr) {
            Some(cross) => {
                let v: u64 = cmnd[cross];
                Some(dip_min(cmnd, cross + 1, tau_max, cross, v))
            },
            None => {
                let v0: u64 = cmnd[tau_min];
                let gm = global_min(cmnd, tau_min + 1, tau_max, tau_min, v0);
                if gm.1 < 500000 {
                    Some(gm.0)
                } else {
                    None
                }
            },
        }
    }

    /// Parabolic interpolation around the chosen lag, in millionths of a
    /// sample.
    fn parabolic_interpolation(&self, cmnd: &Vec<u64>, tau: usize) -> (r: u64)
        requires
            1 <= cmnd@.len() <= 0x100001,
            tau < cmnd@.len(),
            forall|t: int| 0 <= t < cmnd@.len() ==> #[trigger] cmnd@[t] <= 0x4000000000000000,
        ensures
            r as int == spec_refined(seq_int(cmnd@), tau as int),
            r <= (tau + 1) * 1000000,
    {
        proof {
            assert((tau as int) * 1000000 + 1000000 == (tau + 1) * 1000000) by (nonlinear_arith);
            assert((tau + 1) * 1000000 <= 0x100001 * 1000000) by (nonlinear_arith)
                requires
                    tau + 1 <= 0x100001;
        }
        if tau == 0 || tau >= cmnd.len() - 1 {
            return (tau as u64) * 1000000;
        }
        let s0: i128 = cmnd[tau - 1] as i128;
        let s1: i128 = cmnd[tau] as i128;
        let s2: i128 = cmnd[tau + 1] as i128;
        let den: i128 = 2 * (s0 - 2 * s1 + s2);
        if den == 0 {
            return (tau as u64) * 1000000;
        }
        let num: i128 = (s0 - s2) * 1000000;
        let nmag: u128 = if num >= 0 {
            num as u128
        } else {
            (-num) as u128
        };
        let dmag: u128 = if den >= 0 {
            den as u128
        } else {
            (-den) as u128
        };
        let qmag: u128 = nmag / dmag;
        let negative: bool = (num < 0) != (den < 0);
        proof {
            vstd::arithmetic::div_mod::lemma_div_pos_is_pos(nmag as int, dmag as int);
            vstd::arithmetic::div_mod::lemma_div_is_ordered_by_denominator(
                nmag as int,
                1,
                dmag as int,
            );
        }
        let delta: i128 = if negative {
            if qmag > 1000000 {
                -1000000
            } else {
                -(qmag as i128)
            }
        } else {
            if qmag > 1000000 {
                1000000
            } else {
                qmag as i128
            }
        };
        let refined: i128 = (tau as i128) * 1000000 + delta;
        refined as u64
    }

    /// Detect pitch from one window of audio samples.
    ///
    /// `None` is "no detection": fewer than two samples, a degenerate
    /// frequency range, or no acceptably periodic dip. The sample bounds in
    /// the precondition keep every intermediate sum exact in machine
    /// integers: a window of at most 2^20 samples, each within +/-2^20.
    pub fn detect(&self, samples: &Vec<i32>) -> (r: Option<PitchResult>)
        requires
            samples@.len() <= 0x100000,
            forall|i: int|
                0 <= i < samples@.len() ==> -0x100000 <= #[trigger] samples@[i] <= 0x100000,
        ensures
            match r {
                Some(p) => spec_detect(
                    self.spec_sample_rate(),
                    self.spec_threshold(),
                    self.spec_min_frequency(),
                    self.spec_max_frequency(),
                    samples@,
                ) == Some((p.frequency as int, p.confidence as int)) && p.frequency > 0
                    && p.confidence <= 1000,
                None => spec_detect(
                    self.spec_sample_rate(),
                    self.spec_threshold(),
                    self.spec_min_frequency(),
                    self.spec_max_frequency(),
                    samples@,
                ) is None,
            },
    {
        if samples.len() < 2 {
            return None;
        }
        if self.min_frequency_micro == 0 || self.max_frequency_micro == 0 {
            return None;
        }
        let sr_micro: u64 = (self.sample_rate as u64) * 1000000;
        let tau_min_u: u64 = sr_micro / self.max_frequency_micro;
        let half: usize = samples.len() / 2;
        let cand: u64 = sr_micro / self.min_frequency_micro;
        let tau_max_u: u64 = if cand <= (half as u64) {
            cand
        } else {
            half as u64
        };
        if tau_max_u <= tau_min_u || tau_max_u >= (half as u64) {
            return None;
        }
        let tau_min: usize = tau_min_u as usize;
        let tau_max: usize = tau_max_u as usize;
        let diff: Vec<u64> = self.difference_function(samples, tau_max);
        let cmnd: Vec<u64> = self.cumulative_mean_normalized_difference(&diff);
        let ghost w: int = samples@.len() - tau_max;
        proof {
            assert(seq_int(diff@) =~= spec_diff_seq(samples@, tau_max as int, w));
            assert(seq_int(cmnd@) =~= spec_cmnd_seq(spec_diff_seq(samples@, tau_max as int, w)));
        }
        let chosen: Option<usize> = self.find_threshold_crossing(&cmnd, tau_min, tau_max);
        match chosen {
            None => None,
            Some(tau) => {
                let refined: u64 = self.parabolic_interpolation(&cmnd, tau);
                if refined == 0 {
                    return None;
                }
                let freq_num: u128 = (sr_micro as u128) * 1000000;
                let freq_wide: u128 = freq_num / (refined as u128);
                let ctau: u64 = cmnd[tau];
                let capped: u64 = if ctau <= SCORE_ONE {
                    ctau
                } else {
                    SCORE_ONE
                };
                let conf: u32 = ((SCORE_ONE - capped) / 1000) as u32;
                if freq_wide == 0 || freq_wide > u64::MAX as u128 {
                    return None;
                }
                Some(PitchResult { frequency: freq_wide as u64, confidence: conf })
            },
        }
    }
}

/// The difference function of an all-zero signal vanishes at every lag
/// whose window stays inside the signal.
proof fn lemma_diff_of_silence(s: Seq<i32>, tau: int, w: int)
    requires
        forall|i: int| 0 <= i < s.len() ==> s[i] == 0,
        0 <= tau,
        w + tau <= s.len(),
    ensures
        spec_diff(s, tau, w) == 0,
    decreases w,
{
    if w > 0 {
        lemma_diff_of_silence(s, tau, w - 1);
        assert(s[w - 1] == 0);
        assert(s[w - 1 + tau] == 0);
        assert((s[w - 1] - s[w - 1 + tau]) * (s[w - 1] - s[w - 1 + tau]) == 0);
    }
}

/// A running sum of zeros is zero.
proof fn lemma_runsum_of_zeros(d: Seq<int>, tau: int)
    requires
        0 <= tau < d.len(),
        forall|i: int| 1 <= i <= tau ==> d[i] == 0,
    ensures
        spec_runsum(d, tau) == 0,
    decreases tau,
{
    if tau > 0 {
        lemma_runsum_of_zeros(d, tau - 1);
    }
}

/// No score below the threshold means no crossing is found.
proof fn lemma_no_crossing(c: Seq<int>, t: int, tau_max: int, thr: int)
    requires
        forall|u: int| t <= u < tau_max ==> c[u] >= thr,
    ensures
        spec_first_crossing(c, t, tau_max, thr) is None,
    decreases tau_max - t,
{
    if t < tau_max {
        lemma_no_crossing(c, t + 1, tau_max, thr);
    }
}

/// A global minimum scan never improves on its starting value when no score
/// is below it.
proof fn lemma_global_min_flat(c: Seq<int>, t: int, tau_max: int, bt: int, bv: int)
    requires
        forall|u: int| t <= u < tau_max ==> c[u] >= bv,
    ensures
        spec_global_min(c, t, tau_max, bt, bv).1 == bv,
    decreases tau_max - t,
{
    if t < tau_max {
        lemma_global_min_flat(c, t + 1, tau_max, bt, bv);
    }
}

/// Silence yields no detection: on a window of all-zero samples, a detector
/// whose threshold does not exceed the score scale reports nothing, for any
/// sample rate, window length, and frequency range.
pub proof fn lemma_silence_no_detection(
    sr: int,
    thr_milli: int,
    fmin: int,
    fmax: int,
    s: Seq<i32>,
)
    requires
        0 <= sr,
        0 <= thr_milli <= 1000,
        forall|i: int| 0 <= i < s.len() ==> s[i] == 0,
    ensures
        spec_detect(sr, thr_milli, fmin, fmax, s) is None,
{
    if s.len() < 2 || fmin <= 0 || fmax <= 0 {
    } else {
        let tau_min = sr * 1000000 / fmax;
        let half = s.len() as int / 2;
        let tau_max = spec_min(sr * 1000000 / fmin, half);
        if tau_max <= tau_min || tau_max >= half {
        } else {
            let w = s.len() - tau_max;
            let d = spec_diff_seq(s, tau_max, w);
            assert forall|i: int| 1 <= i <= tau_max implies d[i] == 0 by {
                lemma_diff_of_silence(s, i, w);
            }
            let c = spec_cmnd_seq(d);
            assert forall|t: int| 0 <= t < c.len() implies c[t] == SCORE_ONE as int by {
                if t > 0 {
                    lemma_runsum_of_zeros(d, t);
                }
            }
            let thr = thr_milli * 1000;
            vstd::arithmetic::div_mod::lemma_div_pos_is_pos(sr * 1000, fmax);
            assert(sr * 1000 >= 0) by (nonlinear_arith)
                requires
                    sr >= 0;
            assert(0 <= tau_min);
            lemma_no_crossing(c, tau_min, tau_max, thr);
            lemma_global_min_flat(c, tau_min + 1, tau_max, tau_min, c[tau_min]);
            assert(spec_chosen_tau(c, tau_min, tau_max, thr) is None);
        }
    }
}

/// Every difference value is a sum of squares, hence nonnegative, and so is
/// every running sum of them.
proof fn lemma_runsum_nonneg(d: Seq<int>, tau: int)
    requires
        tau < d.len(),
        forall|i: int| 0 <= i < d.len() ==> #[trigger] d[i] >= 0,
    ensures
        spec_runsum(d, tau) >= 0,
        1 <= tau < d.len() ==> spec_runsum(d, tau) >= d[tau],
    decreases tau,
{
    if tau > 0 {
        lemma_runsum_nonneg(d, tau - 1);
    }
}

} // verus!
