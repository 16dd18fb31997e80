//! A4 calibration: accumulate observed frequencies and estimate the
//! instrument's true reference pitch.
//!
//! Frequencies are in micro-hertz. Samples outside the plausible A4 band
//! (400 Hz to 480 Hz) are dropped silently: that is an outlier filter, not
//! an error. Calibration is complete once the accepted-sample count reaches
//! the target, and the result is the arithmetic mean of the accepted
//! samples.

use vstd::prelude::*;

verus! {

/// Lower edge of the plausible A4 band, in micro-hertz.
pub const CALIBRATION_BAND_LOW: u64 = 400000000;

/// Upper edge of the plausible A4 band, in micro-hertz.
pub const CALIBRATION_BAND_HIGH: u64 = 480000000;

/// Number of accepted samples that completes calibration.
pub const CALIBRATION_TARGET: usize = 10;

/// Cap on stored samples, so that their sum stays well inside a machine
/// word.
pub const CALIBRATION_MAX_SAMPLES: usize = 0x10000000;

/// Sum of a sequence of accepted samples.
pub open spec fn spec_sum(s: Seq<u64>) -> int
    decreases s.len(),
{
    if s.len() == 0 {
        0
    } else {
        spec_sum(s.drop_last()) + s.last()
    }
}

/// Accumulator for the calibration phase.
#[derive(Debug)]
pub struct Calibrator {
    /// Accepted frequency samples, in micro-hertz.
    samples: Vec<u64>,
    /// Target number of samples.
    target_samples: usize,
    /// Most recent accepted frequency, if any.
    current_freq: Option<u64>,
    /// Whether the calibrator is actively listening.
    listening: bool,
}

impl Calibrator {
    /// Every stored sample lies in the plausible band, and the store is
    /// bounded.
    #[verifier::type_invariant]
    pub closed spec fn wf(&self) -> bool {
        &&& self.samples@.len() <= CALIBRATION_MAX_SAMPLES
        &&& forall|i: int|
            0 <= i < self.samples@.len() ==> CALIBRATION_BAND_LOW <= #[trigger] self.samples@[i]
                <= CALIBRATION_BAND_HIGH
    }

    /// The accepted samples, for specification purposes.
    pub closed spec fn spec_samples(&self) -> Seq<u64> {
        self.samples@
    }

    /// The target count, for specification purposes.
    pub closed spec fn spec_target(&self) -> int {
        self.target_samples as int
    }

    /// The most recent accepted frequency, for specification purposes.
    pub closed spec fn spec_current(&self) -> Option<u64> {
        self.current_freq
    }

    /// Whether the calibrator is listening, for specification purposes.
    pub closed spec fn spec_listening(&self) -> bool {
        self.listening
    }

    /// Create a new calibrator with the default target of ten samples.
    pub fn new() -> (r: Calibrator)
        ensures
            r.spec_samples() == Seq::<u64>::empty(),
            r.spec_target() == CALIBRATION_TARGET,
            r.spec_current() is None,
            r.spec_listening(),
    {
        Calibrator {
            samples: Vec::new(),
            target_samples: CALIBRATION_TARGET,
            current_freq: None,
            listening: true,
        }
    }

    /// Feed one detected frequency (micro-hertz). A frequency in the
    /// plausible A4 band is accepted and stored; anything else is dropped
    /// without any other change.
    pub fn update(&mut self, freq: u64)
        ensures
            final(self).spec_target() == old(self).spec_target(),
            final(self).spec_listening() == old(self).spec_listening(),
            (CALIBRATION_BAND_LOW <= freq <= CALIBRATION_BAND_HIGH && old(
                self,
            ).spec_samples().len() < CALIBRATION_MAX_SAMPLES) ==> {
                &&& final(self).spec_samples() == old(self).spec_samples().push(freq)
                &&& final(self).spec_current() == Some(freq)
            },
            !(CALIBRATION_BAND_LOW <= freq <= CALIBRATION_BAND_HIGH && old(
                self,
            ).spec_samples().len() < CALIBRATION_MAX_SAMPLES) ==> {
                &&& final(self).spec_samples() == old(self).spec_samples()
                &&& final(self).spec_current() == old(self).spec_current()
            },
    {
        proof {
            use_type_invariant(&*self);
        }
        if CALIBRATION_BAND_LOW <= freq && freq <= CALIBRATION_BAND_HIGH
            && self.samples.len() < CALIBRATION_MAX_SAMPLES {
            let mut taken: Vec<u64> = Vec::new();
            core::mem::swap(&mut taken, &mut self.samples);
            taken.push(freq);
            core::mem::swap(&mut taken, &mut self.samples);
            self.current_freq = Some(freq);
        }
    }

    /// Forget the most recent detection (silence).
    pub fn clear(&mut self)
        ensures
            final(self).spec_samples() == old(self).spec_samples(),
            final(self).spec_target() == old(self).spec_target(),
            final(self).spec_current() is None,
            final(self).spec_listening() == old(self).spec_listening(),
    {
        proof {
            use_type_invariant(&*self);
        }
        self.current_freq = None;
    }

    /// Whether enough samples have been accepted.
    pub fn is_complete(&self) -> (r: bool)
        ensures
            r == (self.spec_samples().len() >= self.spec_target()),
    {
        self.samples.len() >= self.target_samples
    }

    /// The calibrated A4 frequency: the arithmetic mean of the accepted
    /// samples (rounded down to the micro-hertz), or nothing if no sample
    /// was accepted. The mean of samples from the plausible band lies in
    /// the band itself.
    pub fn result(&self) -> (r: Option<u64>)
        ensures
            self.spec_samples().len() == 0 ==> r is None,
            self.spec_samples().len() > 0 ==> r == Some(
                (spec_sum(self.spec_samples()) / self.spec_samples().len() as int) as u64,
            ),
            self.spec_samples().len() > 0 ==> CALIBRATION_BAND_LOW <= spec_sum(
                self.spec_samples(),
            ) / self.spec_samples().len() as int <= CALIBRATION_BAND_HIGH,
            r is Some ==> CALIBRATION_BAND_LOW <= r->Some_0 <= CALIBRATION_BAND_HIGH,
    {
        proof {
            use_type_invariant(self);
        }
        if self.samples.len() == 0 {
            return None;
        }
        let n: usize = self.samples.len();
        let mut sum: u64 = 0;
        let mut i: usize = 0;
        while i < n
            invariant
                0 <= i <= n,
                n == self.samples@.len() <= CALIBRATION_MAX_SAMPLES,
                forall|k: int|
                    0 <= k < n ==> CALIBRATION_BAND_LOW <= #[trigger] self.samples@[k]
                        <= CALIBRATION_BAND_HIGH,
                sum == spec_sum(self.samples@.take(i as int)),
                i * CALIBRATION_BAND_LOW <= sum <= i * CALIBRATION_BAND_HIGH,
            decreases n - i,
        {
            proof {
                assert(self.samples@.take(i + 1).drop_last() =~= self.samples@.take(i as int));
                assert(i * CALIBRATION_BAND_HIGH + CALIBRATION_BAND_HIGH == (i + 1)
                    * CALIBRATION_BAND_HIGH) by (nonlinear_arith);
                assert(i * CALIBRATION_BAND_LOW + CALIBRATION_BAND_LOW == (i + 1)
                    * CALIBRATION_BAND_LOW) by (nonlinear_arith);
                assert((i + 1) * CALIBRATION_BAND_HIGH <= 0x10000000 * CALIBRATION_BAND_HIGH) by (
                nonlinear_arith)
                    requires
                        i + 1 <= 0x10000000;
            }
            sum = sum + self.samples[i];
            i = i + 1;
        }
        proof {
            assert(self.samples@.take(n as int) =~= self.samples@);
            vstd::arithmetic::div_mod::lemma_fundamental_div_mod(sum as int, n as int);
            assert(((sum as int) / (n as int)) * (n as int) + (sum as int) % (n as int) == sum
                as int);
            let q = (sum as int) / (n as int);
            assert(q >= CALIBRATION_BAND_LOW) by (nonlinear_arith)
                requires
                    q * (n as int) + (sum as int) % (n as int) == sum as int,
                    0 <= (sum as int) % (n as int) < n as int,
                    sum as int >= (n as int) * CALIBRATION_BAND_LOW,
                    n >= 1;
            assert(q <= CALIBRATION_BAND_HIGH) by (nonlinear_arith)
                requires
                    q * (n as int) + (sum as int) % (n as int) == sum as int,
                    0 <= (sum as int) % (n as int) < n as int,
                    sum as int <= (n as int) * CALIBRATION_BAND_HIGH,
                    n >= 1;
        }
        Some(sum / (n as u64))
    }

    /// How many samples have been accepted so far.
    pub fn sample_count(&self) -> (r: usize)
        ensures
            r == self.spec_samples().len(),
    {
        self.samples.len()
    }

    /// The target number of samples.
    pub fn target(&self) -> (r: usize)
        ensures
            r == self.spec_target(),
    {
        self.target_samples
    }

    /// The most recent accepted frequency, if one is current.
    pub fn current_freq(&self) -> (r: Option<u64>)
        ensures
            r == self.spec_current(),
    {
        self.current_freq
    }

    /// Set the listening state.
    pub fn set_listening(&mut self, listening: bool)
        ensures
            final(self).spec_samples() == old(self).spec_samples(),
            final(self).spec_target() == old(self).spec_target(),
            final(self).spec_current() == old(self).spec_current(),
            final(self).spec_listening() == listening,
    {
        proof {
            use_type_invariant(&*self);
        }
        self.listening = listening;
    }

    /// Discard all accumulated samples and restart the phase.
    pub fn reset(&mut self)
        ensures
            final(self).spec_samples() == Seq::<u64>::empty(),
            final(self).spec_target() == old(self).spec_target(),
            final(self).spec_current() is None,
            final(self).spec_listening(),
    {
        proof {
            use_type_invariant(&*self);
        }
        self.samples = Vec::new();
        self.current_freq = None;
        self.listening = true;
    }
}

impl Default for Calibrator {
    fn default() -> (r: Calibrator)
        ensures
            r.spec_samples() == Seq::<u64>::empty(),
            r.spec_target() == CALIBRATION_TARGET,
            r.spec_current() is None,
            r.spec_listening(),
    {
        Calibrator::new()
    }
}

} // verus!
