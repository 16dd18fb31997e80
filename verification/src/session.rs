//! Tuning session state: the per-note unison workflow, the record of
//! completed notes, and the end-of-session summary.
//!
//! Cents deviations are in milli-cents; the in-tune tolerance is five cents
//! (5000 milli-cents). A note with three strings is confirmed through the
//! four unison sub-steps; a note with one or two strings has a single
//! implicit step. A note is complete only when its terminal step is
//! confirmed while a pitch is detected within tolerance; a skip completes
//! the note unconditionally with a deviation of zero.

use vstd::prelude::*;
use crate::instructions::TuningStep;
use crate::instructions::spec_next_step;

verus! {

/// In-tune tolerance, in milli-cents.
pub const TOLERANCE_MILLICENTS: i64 = 5000;

/// Tuning mode for a session.
#[derive(Debug, Clone, Copy, PartialEq, Eq, Structural)]
pub enum TuningMode {
    /// Calibrate A4 against the instrument first.
    Quick,
    /// Fixed concert pitch, A4 = 440 Hz.
    Concert,
}

/// Record of one finished or skipped note.
#[derive(Debug, Clone)]
pub struct CompletedNote {
    /// Display name of the note (e.g. "A4").
    pub name: String,
    /// Final cents deviation at the moment of confirmation, in
    /// milli-cents; zero for a skipped note.
    pub final_cents: i64,
}

/// Live state for the note currently being tuned.
#[derive(Debug)]
pub struct TuningState {
    /// Display name of the note.
    pub note_name: String,
    /// Position of the note in the tuning order.
    pub note_index: usize,
    /// Total notes to tune.
    pub total_notes: usize,
    /// Target frequency in micro-hertz.
    pub target_freq: u64,
    /// Detected frequency, if a pitch is currently heard, in micro-hertz.
    pub detected_freq: Option<u64>,
    /// Cents deviation from the target, in milli-cents.
    pub cents_deviation: i64,
    /// Number of strings of the note.
    pub string_count: u8,
    /// Current unison sub-step; present only for three-string notes.
    pub tuning_step: Option<TuningStep>,
}

/// Whether a note in this state counts as complete: the live deviation is
/// within tolerance, a pitch is detected, and, for a three-string note, the
/// terminal sub-step has been reached.
pub open spec fn spec_note_complete(t: TuningState) -> bool {
    &&& t.detected_freq is Some
    &&& -TOLERANCE_MILLICENTS <= t.cents_deviation <= TOLERANCE_MILLICENTS
    &&& (t.string_count == 3 ==> t.tuning_step == Some(TuningStep::TuneRight))
}

impl TuningState {
    /// Start tuning one note. Three-string notes begin at the first unison
    /// sub-step; others have no sub-steps.
    pub fn new(
        note_name: String,
        note_index: usize,
        total_notes: usize,
        target_freq: u64,
        string_count: u8,
    ) -> (r: TuningState)
        ensures
            r.note_name == note_name,
            r.note_index == note_index,
            r.total_notes == total_notes,
            r.target_freq == target_freq,
            r.detected_freq is None,
            r.cents_deviation == 0,
            r.string_count == string_count,
            r.tuning_step == if string_count == 3 {
                Some(TuningStep::MuteOuter)
            } else {
                None::<TuningStep>
            },
    {
        let tuning_step: Option<TuningStep> = if string_count == 3 {
            Some(TuningStep::MuteOuter)
        } else {
            None
        };
        TuningState {
            note_name,
            note_index,
            total_notes,
            target_freq,
            detected_freq: None,
            cents_deviation: 0,
            string_count,
            tuning_step,
        }
    }

    /// Record a detected pitch and its deviation.
    pub fn update(&mut self, freq: u64, cents: i64)
        ensures
            *final(self) == (TuningState {
                detected_freq: Some(freq),
                cents_deviation: cents,
                ..*old(self)
            }),
    {
        self.detected_freq = Some(freq);
        self.cents_deviation = cents;
    }

    /// Clear the detected pitch (silence or low confidence).
    pub fn clear(&mut self)
        ensures
            *final(self) == (TuningState {
                detected_freq: None::<u64>,
                cents_deviation: 0,
                ..*old(self)
            }),
    {
        self.detected_freq = None;
        self.cents_deviation = 0;
    }

    /// Current cents deviation, in milli-cents.
    pub fn cents(&self) -> (r: i64)
        ensures
            r == self.cents_deviation,
    {
        self.cents_deviation
    }

    /// Whether this note has three strings.
    pub fn is_trichord(&self) -> (r: bool)
        ensures
            r == (self.string_count == 3),
    {
        self.string_count == 3
    }

    /// Current unison sub-step.
    pub fn tuning_step(&self) -> (r: Option<TuningStep>)
        ensures
            r == self.tuning_step,
    {
        self.tuning_step
    }

    /// Advance to the next unison sub-step. Returns whether a next step
    /// existed; at the terminal step (or for a note without sub-steps)
    /// nothing changes.
    pub fn next_step(&mut self) -> (r: bool)
        ensures
            match old(self).tuning_step {
                Some(step) => match spec_next_step(step) {
                    Some(next) => r && *final(self) == (TuningState {
                        tuning_step: Some(next),
                        ..*old(self)
                    }),
                    None => !r && *final(self) == *old(self),
                },
                None => !r && *final(self) == *old(self),
            },
    {
        match self.tuning_step {
            Some(step) => {
                match step.next() {
                    Some(next) => {
                        self.tuning_step = Some(next);
                        true
                    },
                    None => false,
                }
            },
            None => false,
        }
    }

    /// Whether the note counts as complete right now.
    pub fn is_complete(&self) -> (r: bool)
        ensures
            r == spec_note_complete(*self),
    {
        let within: bool = -TOLERANCE_MILLICENTS <= self.cents_deviation && self.cents_deviation
            <= TOLERANCE_MILLICENTS;
        let detected: bool = self.detected_freq.is_some();
        if self.string_count == 3 {
            detected && within && matches!(self.tuning_step, Some(TuningStep::TuneRight))
        } else {
            detected && within
        }
    }

    /// Display name of the note.
    pub fn note_name(&self) -> (r: &String)
        ensures
            r == self.note_name,
    {
        &self.note_name
    }

    /// Target frequency in micro-hertz.
    pub fn target_freq(&self) -> (r: u64)
        ensures
            r == self.target_freq,
    {
        self.target_freq
    }
}

/// A tuning run: the mode, the reference in effect, the position in the
/// tuning order, and the notes completed so far.
#[derive(Debug)]
pub struct Session {
    /// Tuning mode chosen at the start.
    pub mode: TuningMode,
    /// A4 reference in effect, in micro-hertz.
    pub a4_reference: u64,
    /// Current position in the tuning order.
    pub current_note_index: usize,
    /// Completed notes, in the order they were finished.
    pub completed_notes: Vec<CompletedNote>,
}

impl Session {
    /// Start a session in the given mode with the given A4 reference
    /// (micro-hertz).
    pub fn new(mode: TuningMode, a4_reference: u64) -> (r: Session)
        ensures
            r.mode == mode,
            r.a4_reference == a4_reference,
            r.current_note_index == 0,
            r.completed_notes@ == Seq::<CompletedNote>::empty(),
    {
        Session { mode, a4_reference, current_note_index: 0, completed_notes: Vec::new() }
    }

    /// Append the record of one finished or skipped note. Exactly one
    /// record is added, at the end, and nothing else changes.
    pub fn complete_note(&mut self, name: String, cents: i64)
        ensures
            final(self).mode == old(self).mode,
            final(self).a4_reference == old(self).a4_reference,
            final(self).current_note_index == old(self).current_note_index,
            final(self).completed_notes@.len() == old(self).completed_notes@.len() + 1,
            final(self).completed_notes@.last().name == name,
            final(self).completed_notes@.last().final_cents == cents,
            forall|i: int|
                0 <= i < old(self).completed_notes@.len() ==> final(self).completed_notes@[i]
                    == #[trigger] old(self).completed_notes@[i],
    {
        self.completed_notes.push(CompletedNote { name, final_cents: cents });
    }
}

/// End-of-session summary over the completed notes. The average is of
/// absolute deviations, in milli-cents; the three counts classify each note
/// as in tune (within five cents), marginal (within fifteen), or out of
/// tune.
#[derive(Debug, Clone, Copy, PartialEq, Eq, Structural)]
pub struct SessionSummary {
    /// How many notes were completed.
    pub note_count: usize,
    /// Mean absolute deviation in milli-cents (zero when no notes).
    pub avg_deviation: u64,
    /// Notes within five cents.
    pub notes_in_tune: usize,
    /// Notes over five and within fifteen cents.
    pub notes_warning: usize,
    /// Notes over fifteen cents.
    pub notes_out_of_tune: usize,
}

/// Magnitude of a deviation.
pub open spec fn spec_abs_cents(n: CompletedNote) -> int {
    if n.final_cents < 0 {
        -(n.final_cents as int)
    } else {
        n.final_cents as int
    }
}

/// Sum of absolute deviations.
pub open spec fn spec_sum_abs(s: Seq<CompletedNote>) -> int
    decreases s.len(),
{
    if s.len() == 0 {
        0
    } else {
        spec_sum_abs(s.drop_last()) + spec_abs_cents(s.last())
    }
}

/// Notes whose deviation magnitude lies in `(lo, hi]`.
pub open spec fn spec_count_band(s: Seq<CompletedNote>, lo: int, hi: int) -> int
    decreases s.len(),
{
    if s.len() == 0 {
        0
    } else {
        spec_count_band(s.drop_last(), lo, hi) + if lo < spec_abs_cents(s.last())
            && spec_abs_cents(s.last()) <= hi {
            1int
        } else {
            0int
        }
    }
}

/// Compute the summary of a finished session.
pub fn summarize(notes: &Vec<CompletedNote>) -> (r: SessionSummary)
    ensures
        r.note_count == notes@.len(),
        notes@.len() == 0 ==> r.avg_deviation == 0,
        notes@.len() > 0 ==> r.avg_deviation == spec_sum_abs(notes@) / notes@.len() as int,
        r.notes_in_tune == spec_count_band(notes@, -1, 5000),
        r.notes_warning == spec_count_band(notes@, 5000, 15000),
        r.notes_out_of_tune == spec_count_band(notes@, 15000, 0x8000000000000000),
{
    let n: usize = notes.len();
    let mut sum: u128 = 0;
    let mut in_tune: usize = 0;
    let mut warning: usize = 0;
    let mut out_of_tune: usize = 0;
    let mut i: usize = 0;
    while i < n
        invariant
            0 <= i <= n,
            n == notes@.len(),
            sum == spec_sum_abs(notes@.take(i as int)),
            sum <= i * 0x8000000000000000,
            in_tune == spec_count_band(notes@.take(i as int), -1, 5000),
            warning == spec_count_band(notes@.take(i as int), 5000, 15000),
            out_of_tune == spec_count_band(notes@.take(i as int), 15000, 0x8000000000000000),
            in_tune <= i && warning <= i && out_of_tune <= i,
        decreases n - i,
    {
        let c: i64 = notes[i].final_cents;
        let mag: u64 = if c < 0 {
            (-(c as i128)) as u64
        } else {
            c as u64
        };
        proof {
            assert(notes@.take(i + 1).drop_last() =~= notes@.take(i as int));
            assert(notes@.take(i + 1).last() == notes@[i as int]);
            assert(i * 0x8000000000000000 + 0x8000000000000000 == (i + 1) * 0x8000000000000000)
                by (nonlinear_arith);
            assert((i + 1) * 0x8000000000000000 <= 0x10000000000000000 * 0x8000000000000000) by (
            nonlinear_arith)
                requires
                    i + 1 <= 0x10000000000000000;
        }
        sum = sum + (mag as u128);
        if mag <= 5000 {
            in_tune = in_tune + 1;
        } else if mag <= 15000 {
            warning = warning + 1;
        } else {
            out_of_tune = out_of_tune + 1;
        }
        i = i + 1;
    }
    proof {
        assert(notes@.take(n as int) =~= notes@);
    }
    let avg: u64 = if n == 0 {
        0
    } else {
        proof {
            vstd::arithmetic::div_mod::lemma_fundamental_div_mod(sum as int, n as int);
            let q = (sum as int) / (n as int);
            assert(q <= 0x8000000000000000) by (nonlinear_arith)
                requires
                    q * (n as int) + (sum as int) % (n as int) == sum as int,
                    0 <= (sum as int) % (n as int) < n as int,
                    sum as int <= (n as int) * 0x8000000000000000,
                    n >= 1;
            vstd::arithmetic::div_mod::lemma_div_pos_is_pos(sum as int, n as int);
        }
        (sum / (n as u128)) as u64
    };
    SessionSummary {
        note_count: n,
        avg_deviation: avg,
        notes_in_tune: in_tune,
        notes_warning: warning,
        notes_out_of_tune: out_of_tune,
    }
}

} // verus!
