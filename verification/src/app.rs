//! The tuning workflow state machine.
//!
//! The engine advances through mode selection, an optional calibration
//! phase, the note-by-note tuning phase, and the final summary. It makes
//! every decision of the workflow - which detections to accept, when a note
//! counts as confirmed, when the session is over - as a pure function of
//! its state and the incoming event; feeding it detections and key events,
//! and persisting snapshots of the session, is the caller's business.
//!
//! Frequencies are in micro-hertz, cents in milli-cents, confidences in
//! thousandths. A detection is used for calibration only above confidence
//! 0.8, and for tuning only above 0.6.

use vstd::prelude::*;
use crate::calibration::Calibrator;
use crate::calibration::CALIBRATION_BAND_LOW;
use crate::calibration::CALIBRATION_BAND_HIGH;
use crate::notes::spec_display_name;
use crate::notes::spec_strings;
use crate::order::TuningOrder;
use crate::order::spec_order_index;
use crate::session::CompletedNote;
use crate::session::Session;
use crate::session::SessionSummary;
use crate::session::TuningMode;
use crate::session::TuningState;
use crate::session::spec_note_complete;
use crate::session::summarize;
use crate::stretch::StretchCurve;
use crate::stretch::spec_stretch_millicents;
use crate::temperament::Temperament;
use crate::temperament::A4_DEFAULT_MICROHZ;
use crate::temperament::MIN_A4_MICROHZ;
use crate::temperament::MAX_A4_MICROHZ;
use crate::temperament::spec_cents_from_target;
use crate::temperament::spec_cents_to_frequency;
use crate::temperament::spec_frequency_micro;
use crate::instructions::TuningStep;
use crate::instructions::spec_next_step;

verus! {

/// Confidence gate for calibration detections, in thousandths.
pub const CALIBRATION_CONFIDENCE_MILLI: u32 = 800;

/// Confidence gate for tuning detections, in thousandths.
pub const TUNING_CONFIDENCE_MILLI: u32 = 600;

/// Application screen state.
#[derive(Debug, Clone, Copy, PartialEq, Eq, Structural)]
pub enum AppState {
    /// Mode selection screen.
    ModeSelect,
    /// Calibration (for quick tune).
    Calibration,
    /// Main tuning screen.
    Tuning,
    /// Session complete.
    Complete,
}

/// Event handler result for the caller's loop.
#[derive(Debug, Clone, Copy, PartialEq, Eq, Structural)]
pub enum EventResult {
    /// Continue running.
    Continue,
    /// Quit the application.
    Quit,
}

/// Mode highlighted on the selection screen.
#[derive(Debug, Clone, Copy, PartialEq, Eq, Structural)]
pub enum SelectedMode {
    /// Calibrate against the instrument, then tune.
    QuickTune,
    /// Tune against fixed concert pitch.
    ConcertPitch,
}

/// A key event, reduced to the keys the workflow reacts to.
#[derive(Debug, Clone, Copy, PartialEq, Eq, Structural)]
pub enum InputKey {
    /// Arrow up.
    Up,
    /// Arrow down.
    Down,
    /// Tab.
    Tab,
    /// Enter.
    Enter,
    /// Space bar.
    Space,
    /// The letter R: toggle the reference tone.
    KeyR,
    /// The letter S: skip, or skip calibration.
    KeyS,
    /// The letter Q: quit.
    KeyQ,
    /// Escape.
    Esc,
    /// Any other key.
    Other,
}

/// Tuning target for the note at a position of the tuning order: the
/// tempered frequency of its MIDI note, stretched by the inharmonicity
/// curve.
pub open spec fn spec_target_freq(a4: int, idx: int) -> int {
    spec_cents_to_frequency(
        spec_frequency_micro(a4, spec_order_index(idx) + 21),
        spec_stretch_millicents(spec_order_index(idx) + 21),
    )
}

/// The freshly initialized per-note state for the note at position `idx`.
pub open spec fn spec_fresh_tuning(a4: int, idx: int, t: TuningState) -> bool {
    &&& t.note_name@ == spec_display_name(spec_order_index(idx))
    &&& t.note_index == idx
    &&& t.total_notes == 88
    &&& t.target_freq == spec_target_freq(a4, idx)
    &&& t.detected_freq is None
    &&& t.cents_deviation == 0
    &&& t.string_count == spec_strings(spec_order_index(idx) + 21)
    &&& t.tuning_step == (if spec_strings(spec_order_index(idx) + 21) == 3 {
        Some(TuningStep::MuteOuter)
    } else {
        None::<TuningStep>
    })
    &&& 7812 <= t.target_freq <= 0x100000000000000
}

/// The tuning mode that a highlighted selection denotes.
pub open spec fn spec_mode_of(m: SelectedMode) -> TuningMode {
    match m {
        SelectedMode::QuickTune => TuningMode::Quick,
        SelectedMode::ConcertPitch => TuningMode::Concert,
    }
}

/// The other selectable mode.
pub open spec fn spec_toggle(m: SelectedMode) -> SelectedMode {
    match m {
        SelectedMode::QuickTune => SelectedMode::ConcertPitch,
        SelectedMode::ConcertPitch => SelectedMode::QuickTune,
    }
}

/// Main application engine.
pub struct App {
    /// Current screen state.
    state: AppState,
    /// Current session, present from the start of tuning on.
    session: Option<Session>,
    /// Whether the caller should quit its loop.
    should_quit: bool,
    /// Mode highlighted on the selection screen.
    mode_select: SelectedMode,
    /// Calibration accumulator.
    calibration: Calibrator,
    /// Per-note tuning state, present while tuning.
    tuning: Option<TuningState>,
    /// The order in which notes are visited.
    tuning_order: TuningOrder,
    /// Temperament in effect.
    temperament: Temperament,
    /// Inharmonicity compensation curve.
    stretch: StretchCurve,
    /// Position in the tuning order.
    current_note_idx: usize,
    /// Whether the reference tone is playing.
    playing_reference: bool,
    /// Summary of the finished session, present once complete.
    summary: Option<SessionSummary>,
}

impl App {
    /// Well-formedness: while tuning, the engine has a session, a per-note
    /// state for a real table position, and a valid target; once complete,
    /// it has a summary. Constructors establish it and every transition
    /// preserves it.
    pub closed spec fn wf(&self) -> bool {
        &&& self.state == AppState::Tuning ==> {
            &&& self.session is Some
            &&& self.tuning is Some
            &&& self.current_note_idx < 88
            &&& self.tuning->Some_0.note_index == self.current_note_idx
            &&& self.tuning->Some_0.string_count == spec_strings(
                spec_order_index(self.current_note_idx as int) + 21,
            )
            &&& self.tuning->Some_0.note_name@ == spec_display_name(
                spec_order_index(self.current_note_idx as int),
            )
            &&& 1 <= self.tuning->Some_0.target_freq <= 0x100000000000000
        }
        &&& self.state == AppState::Complete ==> self.summary is Some
    }

    /// Current screen state, for specification purposes.
    pub closed spec fn spec_state(&self) -> AppState {
        self.state
    }

    /// Current session, for specification purposes.
    pub closed spec fn spec_session(&self) -> Option<Session> {
        self.session
    }

    /// Quit flag, for specification purposes.
    pub closed spec fn spec_should_quit(&self) -> bool {
        self.should_quit
    }

    /// Highlighted mode, for specification purposes.
    pub closed spec fn spec_selected(&self) -> SelectedMode {
        self.mode_select
    }

    /// Calibration accumulator, for specification purposes.
    pub closed spec fn spec_calibration(&self) -> Calibrator {
        self.calibration
    }

    /// Per-note state, for specification purposes.
    pub closed spec fn spec_tuning(&self) -> Option<TuningState> {
        self.tuning
    }

    /// A4 reference in effect (micro-hertz), for specification purposes.
    pub closed spec fn spec_a4(&self) -> int {
        self.temperament.spec_a4()
    }

    /// Position in the tuning order, for specification purposes.
    pub closed spec fn spec_current_idx(&self) -> int {
        self.current_note_idx as int
    }

    /// Whether the reference tone is playing, for specification purposes.
    pub closed spec fn spec_playing_reference(&self) -> bool {
        self.playing_reference
    }

    /// Summary of the finished session, for specification purposes.
    pub closed spec fn spec_summary(&self) -> Option<SessionSummary> {
        self.summary
    }

    /// Create a new application engine at the mode selection screen.
    pub fn new() -> (r: App)
        ensures
            r.wf(),
            r.spec_state() == AppState::ModeSelect,
            r.spec_session() is None,
            !r.spec_should_quit(),
            r.spec_selected() == SelectedMode::QuickTune,
            r.spec_tuning() is None,
            r.spec_a4() == A4_DEFAULT_MICROHZ,
            r.spec_current_idx() == 0,
            !r.spec_playing_reference(),
            r.spec_summary() is None,
    {
        App {
            state: AppState::ModeSelect,
            session: None,
            should_quit: false,
            mode_select: SelectedMode::QuickTune,
            calibration: Calibrator::new(),
            tuning: None,
            tuning_order: TuningOrder::new(),
            temperament: Temperament::new(),
            stretch: StretchCurve::new(),
            current_note_idx: 0,
            playing_reference: false,
            summary: None,
        }
    }

    /// Resume an interrupted session: restore the reference and the
    /// position, and continue tuning (or go straight to the summary when
    /// the session was already finished).
    pub fn with_session(session: Session) -> (r: App)
        requires
            MIN_A4_MICROHZ <= session.a4_reference <= MAX_A4_MICROHZ,
        ensures
            r.wf(),
            r.spec_a4() == session.a4_reference,
            session.current_note_index < 88 ==> {
                &&& r.spec_state() == AppState::Tuning
                &&& r.spec_current_idx() == session.current_note_index
                &&& r.spec_session() == Some(session)
                &&& (match r.spec_tuning() {
                    Some(t) => spec_fresh_tuning(r.spec_a4(), session.current_note_index as int, t),
                    None => false,
                })
            },
            session.current_note_index >= 88 ==> r.spec_state() == AppState::Complete,
    {
        let idx: usize = session.current_note_index;
        let temperament = Temperament::with_a4(session.a4_reference);
        let mut app = App {
            state: AppState::ModeSelect,
            session: Some(session),
            should_quit: false,
            mode_select: SelectedMode::QuickTune,
            calibration: Calibrator::new(),
            tuning: None,
            tuning_order: TuningOrder::new(),
            temperament,
            stretch: StretchCurve::new(),
            current_note_idx: idx,
            playing_reference: false,
            summary: None,
        };
        app.setup_current_note();
        if idx < 88 {
            app.state = AppState::Tuning;
        }
        app
    }

    /// Get the current screen state.
    pub fn state(&self) -> (r: AppState)
        ensures
            r == self.spec_state(),
    {
        self.state
    }

    /// Check if the caller should quit its loop.
    pub fn should_quit(&self) -> (r: bool)
        ensures
            r == self.spec_should_quit(),
    {
        self.should_quit
    }

    /// Request quit.
    pub fn quit(&mut self)
        requires
            old(self).wf(),
        ensures
            final(self).wf(),
            final(self).spec_should_quit(),
            final(self).spec_state() == old(self).spec_state(),
            final(self).spec_session() == old(self).spec_session(),
            final(self).spec_tuning() == old(self).spec_tuning(),
            final(self).spec_summary() == old(self).spec_summary(),
    {
        self.should_quit = true;
    }

    /// Get the current session.
    pub fn session(&self) -> (r: Option<&Session>)
        ensures
            (match r {
                Some(s) => self.spec_session() == Some(*s),
                None => self.spec_session() is None,
            }),
    {
        self.session.as_ref()
    }

    /// Check if the reference tone is playing.
    pub fn is_playing_reference(&self) -> (r: bool)
        ensures
            r == self.spec_playing_reference(),
    {
        self.playing_reference
    }

    /// Target frequency for the current note, in micro-hertz.
    pub fn current_target_freq(&self) -> (r: Option<u64>)
        ensures
            (match self.spec_tuning() {
                Some(t) => r == Some(t.target_freq),
                None => r is None,
            }),
    {
        match &self.tuning {
            Some(t) => Some(t.target_freq()),
            None => None,
        }
    }

    /// The mode highlighted on the selection screen.
    pub fn selected_mode(&self) -> (r: SelectedMode)
        ensures
            r == self.spec_selected(),
    {
        self.mode_select
    }

    /// The live state of the note being tuned, while tuning.
    pub fn tuning_state(&self) -> (r: Option<&TuningState>)
        ensures
            (match r {
                Some(t) => self.spec_tuning() == Some(*t),
                None => self.spec_tuning() is None,
            }),
    {
        self.tuning.as_ref()
    }

    /// The calibration accumulator.
    pub fn calibrator(&self) -> (r: &Calibrator)
        ensures
            *r == self.spec_calibration(),
    {
        &self.calibration
    }

    /// Summary of the finished session.
    pub fn summary(&self) -> (r: Option<&SessionSummary>)
        requires
            self.wf(),
        ensures
            (match r {
                Some(s) => self.spec_summary() == Some(*s),
                None => self.spec_summary() is None,
            }),
            self.spec_state() == AppState::Complete ==> r is Some,
    {
        self.summary.as_ref()
    }

    /// Set up the per-note state for the current position, or finish the
    /// session when the order is exhausted.
    fn setup_current_note(&mut self)
        requires
            old(self).spec_state() == AppState::Tuning ==> (old(self).spec_session() is Some
                && old(self).spec_current_idx() < 88),
            old(self).spec_state() == AppState::Complete ==> old(self).spec_summary() is Some,
        ensures
            final(self).wf(),
            final(self).spec_playing_reference() == old(self).spec_playing_reference(),
            final(self).spec_calibration() == old(self).spec_calibration(),
            final(self).spec_selected() == old(self).spec_selected(),
            old(self).spec_current_idx() < 88 ==> {
                &&& final(self).spec_state() == old(self).spec_state()
                &&& (match final(self).spec_tuning() {
                    Some(t) => spec_fresh_tuning(
                        old(self).spec_a4(),
                        old(self).spec_current_idx(),
                        t,
                    ),
                    None => false,
                })
                &&& final(self).spec_session() == old(self).spec_session()
                &&& final(self).spec_current_idx() == old(self).spec_current_idx()
                &&& final(self).spec_a4() == old(self).spec_a4()
                &&& final(self).spec_should_quit() == old(self).spec_should_quit()
                &&& final(self).spec_summary() == old(self).spec_summary()
            },
            old(self).spec_current_idx() >= 88 ==> {
                &&& final(self).spec_state() == AppState::Complete
                &&& final(self).spec_summary() is Some
                &&& final(self).spec_session() == old(self).spec_session()
                &&& final(self).spec_tuning() == old(self).spec_tuning()
                &&& final(self).spec_current_idx() == old(self).spec_current_idx()
                &&& final(self).spec_a4() == old(self).spec_a4()
                &&& final(self).spec_should_quit() == old(self).spec_should_quit()
            },
    {
        if self.current_note_idx >= 88 {
            self.finish_session();
            return;
        }
        let note_opt = self.tuning_order.note_at(self.current_note_idx);
        match note_opt {
            Some(note) => {
                let base: u64 = self.temperament.frequency(note.midi);
                let target: u64 = self.stretch.apply(base, note.midi);
                let name: String = note.display_name();
                self.tuning = Some(
                    TuningState::new(name, self.current_note_idx, 88, target, note.strings),
                );
            },
            None => {},
        }
    }

    /// Compute the summary and move to the final screen.
    fn finish_session(&mut self)
        ensures
            final(self).wf(),
            final(self).spec_state() == AppState::Complete,
            final(self).spec_playing_reference() == old(self).spec_playing_reference(),
            final(self).spec_calibration() == old(self).spec_calibration(),
            final(self).spec_selected() == old(self).spec_selected(),
            final(self).spec_summary() is Some,
            final(self).spec_session() == old(self).spec_session(),
            final(self).spec_tuning() == old(self).spec_tuning(),
            final(self).spec_current_idx() == old(self).spec_current_idx(),
            final(self).spec_a4() == old(self).spec_a4(),
            final(self).spec_should_quit() == old(self).spec_should_quit(),
            (match final(self).spec_summary() {
                Some(sm) => sm.note_count == (match old(self).spec_session() {
                    Some(s) => s.completed_notes@.len() as int,
                    None => 0,
                }),
                None => false,
            }),
    {
        let s: SessionSummary = match &self.session {
            Some(session) => summarize(&session.completed_notes),
            None => {
                let empty: Vec<CompletedNote> = Vec::new();
                summarize(&empty)
            },
        };
        self.summary = Some(s);
        self.state = AppState::Complete;
    }

    /// Start tuning with a fresh session in the mode that the selection
    /// denotes, at the reference currently in effect.
    fn start_tuning(&mut self)
        requires
            old(self).wf(),
            old(self).spec_state() == AppState::ModeSelect || old(self).spec_state()
                == AppState::Calibration,
        ensures
            final(self).wf(),
            spec_tuning_started(
                *final(self),
                spec_mode_of(old(self).spec_selected()),
                old(self).spec_a4(),
            ),
            final(self).spec_selected() == old(self).spec_selected(),
            final(self).spec_should_quit() == old(self).spec_should_quit(),
            final(self).spec_calibration() == old(self).spec_calibration(),
    {
        let mode: TuningMode = match self.mode_select {
            SelectedMode::QuickTune => TuningMode::Quick,
            SelectedMode::ConcertPitch => TuningMode::Concert,
        };
        let a4: u64 = self.temperament.a4();
        self.session = Some(Session::new(mode, a4));
        self.current_note_idx = 0;
        self.setup_current_note();
        self.state = AppState::Tuning;
    }

    /// Start a new tuning session for the highlighted mode: quick tune goes
    /// through calibration first, concert pitch fixes A4 at 440 Hz and
    /// starts tuning at once.
    fn start_session(&mut self)
        requires
            old(self).wf(),
            old(self).spec_state() == AppState::ModeSelect,
        ensures
            final(self).wf(),
            final(self).spec_selected() == old(self).spec_selected(),
            final(self).spec_should_quit() == old(self).spec_should_quit(),
            old(self).spec_selected() == SelectedMode::QuickTune ==> {
                &&& final(self).spec_state() == AppState::Calibration
                &&& final(self).spec_calibration().spec_samples().len() == 0
                &&& final(self).spec_session() == old(self).spec_session()
                &&& final(self).spec_a4() == old(self).spec_a4()
            },
            old(self).spec_selected() == SelectedMode::ConcertPitch ==> spec_tuning_started(
                *final(self),
                TuningMode::Concert,
                A4_DEFAULT_MICROHZ as int,
            ),
    {
        match self.mode_select {
            SelectedMode::QuickTune => {
                self.state = AppState::Calibration;
                self.calibration.reset();
            },
            SelectedMode::ConcertPitch => {
                self.temperament = Temperament::new();
                self.start_tuning();
            },
        }
    }

    /// Move to the next note of the tuning order, or to the summary when
    /// the order is exhausted. The session keeps its records and follows
    /// the position.
    fn advance_to_next_note(&mut self)
        requires
            old(self).wf(),
            old(self).spec_state() == AppState::Tuning,
        ensures
            final(self).wf(),
            final(self).spec_current_idx() == old(self).spec_current_idx() + 1,
            !final(self).spec_playing_reference(),
            final(self).spec_a4() == old(self).spec_a4(),
            final(self).spec_should_quit() == old(self).spec_should_quit(),
            (match (old(self).spec_session(), final(self).spec_session()) {
                (Some(s0), Some(s1)) => {
                    &&& s1.completed_notes@ == s0.completed_notes@
                    &&& s1.mode == s0.mode
                    &&& s1.a4_reference == s0.a4_reference
                    &&& s1.current_note_index == old(self).spec_current_idx() + 1
                },
                _ => false,
            }),
            old(self).spec_current_idx() + 1 < 88 ==> {
                &&& final(self).spec_state() == AppState::Tuning
                &&& (match final(self).spec_tuning() {
                    Some(t) => spec_fresh_tuning(
                        old(self).spec_a4(),
                        old(self).spec_current_idx() + 1,
                        t,
                    ),
                    None => false,
                })
            },
            old(self).spec_current_idx() + 1 >= 88 ==> {
                &&& final(self).spec_state() == AppState::Complete
                &&& (match final(self).spec_summary() {
                    Some(sm) => sm.note_count == old(
                        self,
                    ).spec_session()->Some_0.completed_notes@.len(),
                    None => false,
                })
            },
    {
        let new_idx: usize = self.current_note_idx + 1;
        self.current_note_idx = new_idx;
        self.playing_reference = false;
        let mut tmp: Option<Session> = None;
        core::mem::swap(&mut tmp, &mut self.session);
        let updated: Option<Session> = match tmp {
            Some(mut s) => {
                s.current_note_index = new_idx;
                Some(s)
            },
            None => None,
        };
        self.session = updated;
        if new_idx >= 88 {
            self.finish_session();
        } else {
            self.setup_current_note();
        }
    }

    /// Confirm the current note or sub-step. For a three-string note on a
    /// non-terminal sub-step, this only advances the sub-step. Otherwise the
    /// note is recorded and the session advances - but only when the note is
    /// complete: a pitch is detected and the deviation is within the
    /// five-cent tolerance. An out-of-tolerance confirmation changes
    /// nothing.
    pub fn confirm_note(&mut self)
        requires
            old(self).wf(),
        ensures
            final(self).wf(),
            old(self).spec_state() == AppState::Tuning ==> spec_confirm_effect(
                *old(self),
                *final(self),
            ),
            old(self).spec_state() != AppState::Tuning ==> spec_unchanged(*old(self), *final(self)),
    {
        if !matches!(self.state, AppState::Tuning) {
            return ;
        }
        let mut t_opt: Option<TuningState> = None;
        core::mem::swap(&mut t_opt, &mut self.tuning);
        match t_opt {
            Some(mut t) => {
                if t.is_trichord() && t.next_step() {
                    self.tuning = Some(t);
                    return ;
                }
                if !t.is_complete() {
                    self.tuning = Some(t);
                    return ;
                }
                let name: String = t.note_name().clone();
                let cents: i64 = t.cents();
                self.tuning = Some(t);
                let mut tmp: Option<Session> = None;
                core::mem::swap(&mut tmp, &mut self.session);
                let updated: Option<Session> = match tmp {
                    Some(mut s) => {
                        s.complete_note(name, cents);
                        Some(s)
                    },
                    None => None,
                };
                self.session = updated;
                self.advance_to_next_note();
            },
            None => {
                self.tuning = None;
            },
        }
    }

    /// Skip the current note: record it with a deviation of zero, whatever
    /// the unison progress, and advance.
    pub fn skip_note(&mut self)
        requires
            old(self).wf(),
        ensures
            final(self).wf(),
            old(self).spec_state() == AppState::Tuning ==> spec_recorded_and_advanced(
                *old(self),
                *final(self),
                old(self).spec_tuning()->Some_0.note_name@,
                0,
            ),
            old(self).spec_state() != AppState::Tuning ==> spec_unchanged(*old(self), *final(self)),
    {
        if !matches!(self.state, AppState::Tuning) {
            return ;
        }
        let name: String = match &self.tuning {
            Some(t) => t.note_name().clone(),
            None => String::new(),
        };
        let mut tmp: Option<Session> = None;
        core::mem::swap(&mut tmp, &mut self.session);
        let updated: Option<Session> = match tmp {
            Some(mut s) => {
                s.complete_note(name, 0);
                Some(s)
            },
            None => None,
        };
        self.session = updated;
        self.advance_to_next_note();
    }

    /// Feed one pitch detection: a frequency in micro-hertz and a
    /// confidence in thousandths. During calibration, detections above
    /// confidence 0.8 feed the calibrator, and the session starts when it
    /// completes, at the calibrated reference. During tuning, detections
    /// above confidence 0.6 update the live deviation; weaker ones clear
    /// it. Elsewhere, detections are ignored.
    pub fn update_pitch(&mut self, freq: u64, confidence: u32)
        requires
            old(self).wf(),
            1 <= freq,
        ensures
            final(self).wf(),
            old(self).spec_state() == AppState::Calibration && confidence
                > CALIBRATION_CONFIDENCE_MILLI ==> spec_calibration_fed(
                *old(self),
                *final(self),
                freq as int,
            ),
            old(self).spec_state() == AppState::Tuning && confidence > TUNING_CONFIDENCE_MILLI
                ==> spec_tuning_updated(*old(self), *final(self), freq as int),
            old(self).spec_state() == AppState::Tuning && confidence <= TUNING_CONFIDENCE_MILLI
                ==> spec_tuning_cleared(*old(self), *final(self)),
            old(self).spec_state() == AppState::ModeSelect || old(self).spec_state()
                == AppState::Complete || (old(self).spec_state() == AppState::Calibration
                && confidence <= CALIBRATION_CONFIDENCE_MILLI) ==> spec_unchanged(
                *old(self),
                *final(self),
            ),
    {
        match self.state {
            AppState::Calibration => {
                if confidence > CALIBRATION_CONFIDENCE_MILLI {
                    self.calibration.update(freq);
                    if self.calibration.is_complete() {
                        match self.calibration.result() {
                            Some(a4) => {
                                self.temperament = Temperament::with_a4(a4);
                            },
                            None => {},
                        }
                        self.start_tuning();
                    }
                }
            },
            AppState::Tuning => {
                let mut t_opt: Option<TuningState> = None;
                core::mem::swap(&mut t_opt, &mut self.tuning);
                match t_opt {
                    Some(mut t) => {
                        if confidence > TUNING_CONFIDENCE_MILLI {
                            let cents: i64 = self.temperament.cents_from_target(
                                freq,
                                t.target_freq(),
                            );
                            t.update(freq, cents);
                        } else {
                            t.clear();
                        }
                        self.tuning = Some(t);
                    },
                    None => {
                        self.tuning = None;
                    },
                }
            },
            _ => {},
        }
    }

    /// Report that no pitch is detected (silence).
    pub fn clear_pitch(&mut self)
        requires
            old(self).wf(),
        ensures
            final(self).wf(),
            old(self).spec_state() == AppState::Calibration ==> {
                &&& final(self).spec_calibration().spec_current() is None
                &&& final(self).spec_calibration().spec_samples() == old(
                    self,
                ).spec_calibration().spec_samples()
                &&& final(self).spec_state() == old(self).spec_state()
                &&& final(self).spec_session() == old(self).spec_session()
                &&& final(self).spec_tuning() == old(self).spec_tuning()
            },
            old(self).spec_state() == AppState::Tuning ==> spec_tuning_cleared(
                *old(self),
                *final(self),
            ),
            old(self).spec_state() == AppState::ModeSelect || old(self).spec_state()
                == AppState::Complete ==> spec_unchanged(*old(self), *final(self)),
    {
        match self.state {
            AppState::Calibration => {
                self.calibration.clear();
            },
            AppState::Tuning => {
                let mut t_opt: Option<TuningState> = None;
                core::mem::swap(&mut t_opt, &mut self.tuning);
                match t_opt {
                    Some(mut t) => {
                        t.clear();
                        self.tuning = Some(t);
                    },
                    None => {
                        self.tuning = None;
                    },
                }
            },
            _ => {},
        }
    }

    /// Handle one key event, dispatched on the current screen.
    pub fn handle_key(&mut self, key: InputKey)
        requires
            old(self).wf(),
        ensures
            final(self).wf(),
            old(self).spec_state() == AppState::ModeSelect ==> (match key {
                InputKey::Up | InputKey::Down | InputKey::Tab => {
                    &&& final(self).spec_selected() == spec_toggle(old(self).spec_selected())
                    &&& final(self).spec_state() == old(self).spec_state()
                    &&& final(self).spec_session() == old(self).spec_session()
                    &&& final(self).spec_should_quit() == old(self).spec_should_quit()
                },
                InputKey::Enter => {
                    &&& (old(self).spec_selected() == SelectedMode::QuickTune ==> {
                        &&& final(self).spec_state() == AppState::Calibration
                        &&& final(self).spec_calibration().spec_samples().len() == 0
                    })
                    &&& (old(self).spec_selected() == SelectedMode::ConcertPitch
                        ==> spec_tuning_started(
                        *final(self),
                        TuningMode::Concert,
                        A4_DEFAULT_MICROHZ as int,
                    ))
                },
                InputKey::KeyQ | InputKey::Esc => final(self).spec_should_quit(),
                _ => spec_unchanged(*old(self), *final(self)),
            }),
            old(self).spec_state() == AppState::Calibration ==> (match key {
                InputKey::KeyS => spec_tuning_started(
                    *final(self),
                    spec_mode_of(old(self).spec_selected()),
                    A4_DEFAULT_MICROHZ as int,
                ),
                InputKey::KeyQ | InputKey::Esc => final(self).spec_should_quit(),
                _ => spec_unchanged(*old(self), *final(self)),
            }),
            old(self).spec_state() == AppState::Tuning ==> (match key {
                InputKey::Space => spec_confirm_effect(*old(self), *final(self)),
                InputKey::KeyR => {
                    &&& final(self).spec_playing_reference() != old(self).spec_playing_reference()
                    &&& final(self).spec_state() == old(self).spec_state()
                    &&& final(self).spec_session() == old(self).spec_session()
                    &&& final(self).spec_tuning() == old(self).spec_tuning()
                },
                InputKey::KeyS => spec_recorded_and_advanced(
                    *old(self),
                    *final(self),
                    old(self).spec_tuning()->Some_0.note_name@,
                    0,
                ),
                InputKey::KeyQ | InputKey::Esc => final(self).spec_should_quit(),
                _ => spec_unchanged(*old(self), *final(self)),
            }),
            old(self).spec_state() == AppState::Complete ==> (match key {
                InputKey::Enter => {
                    &&& final(self).spec_state() == AppState::ModeSelect
                    &&& final(self).spec_session() is None
                    &&& final(self).spec_tuning() is None
                    &&& final(self).spec_summary() is None
                    &&& final(self).spec_current_idx() == 0
                    &&& !final(self).spec_playing_reference()
                    &&& final(self).spec_selected() == SelectedMode::QuickTune
                },
                InputKey::KeyQ | InputKey::Esc => final(self).spec_should_quit(),
                _ => spec_unchanged(*old(self), *final(self)),
            }),
    {
        match self.state {
            AppState::ModeSelect => {
                match key {
                    InputKey::Up | InputKey::Down | InputKey::Tab => {
                        self.mode_select = match self.mode_select {
                            SelectedMode::QuickTune => SelectedMode::ConcertPitch,
                            SelectedMode::ConcertPitch => SelectedMode::QuickTune,
                        };
                    },
                    InputKey::Enter => {
                        self.start_session();
                    },
                    InputKey::KeyQ | InputKey::Esc => {
                        self.quit();
                    },
                    _ => {},
                }
            },
            AppState::Calibration => {
                match key {
                    InputKey::KeyS => {
                        self.temperament = Temperament::new();
                        self.start_tuning();
                    },
                    InputKey::KeyQ | InputKey::Esc => {
                        self.quit();
                    },
                    _ => {},
                }
            },
            AppState::Tuning => {
                match key {
                    InputKey::Space => {
                        self.confirm_note();
                    },
                    InputKey::KeyR => {
                        self.playing_reference = !self.playing_reference;
                    },
                    InputKey::KeyS => {
                        self.skip_note();
                    },
                    InputKey::KeyQ | InputKey::Esc => {
                        self.quit();
                    },
                    _ => {},
                }
            },
            AppState::Complete => {
                match key {
                    InputKey::Enter => {
                        self.reset();
                    },
                    InputKey::KeyQ | InputKey::Esc => {
                        self.quit();
                    },
                    _ => {},
                }
            },
        }
    }

    /// Reset to the mode selection screen for a new session.
    fn reset(&mut self)
        ensures
            final(self).wf(),
            final(self).spec_state() == AppState::ModeSelect,
            final(self).spec_session() is None,
            final(self).spec_tuning() is None,
            final(self).spec_summary() is None,
            final(self).spec_current_idx() == 0,
            !final(self).spec_playing_reference(),
            final(self).spec_selected() == SelectedMode::QuickTune,
            final(self).spec_should_quit() == old(self).spec_should_quit(),
    {
        self.state = AppState::ModeSelect;
        self.session = None;
        self.tuning = None;
        self.summary = None;
        self.current_note_idx = 0;
        self.playing_reference = false;
        self.mode_select = SelectedMode::QuickTune;
        self.calibration = Calibrator::new();
    }
}

/// Nothing observable about the engine changed.
pub open spec fn spec_unchanged(pre: App, post: App) -> bool {
    &&& post.spec_state() == pre.spec_state()
    &&& post.spec_session() == pre.spec_session()
    &&& post.spec_should_quit() == pre.spec_should_quit()
    &&& post.spec_selected() == pre.spec_selected()
    &&& post.spec_calibration() == pre.spec_calibration()
    &&& post.spec_tuning() == pre.spec_tuning()
    &&& post.spec_a4() == pre.spec_a4()
    &&& post.spec_current_idx() == pre.spec_current_idx()
    &&& post.spec_playing_reference() == pre.spec_playing_reference()
    &&& post.spec_summary() == pre.spec_summary()
}

/// A fresh session has started in the given mode at the given reference,
/// positioned at the first note of the order.
pub open spec fn spec_tuning_started(post: App, mode: TuningMode, a4: int) -> bool {
    &&& post.spec_state() == AppState::Tuning
    &&& post.spec_current_idx() == 0
    &&& post.spec_a4() == a4
    &&& (match post.spec_session() {
        Some(s) => {
            &&& s.mode == mode
            &&& s.a4_reference == a4
            &&& s.current_note_index == 0
            &&& s.completed_notes@.len() == 0
        },
        None => false,
    })
    &&& (match post.spec_tuning() {
        Some(t) => spec_fresh_tuning(a4, 0, t),
        None => false,
    })
}

/// Exactly one completed-note record was appended, with the given name and
/// deviation, and the engine advanced one position: to the next note, or to
/// the summary after the last one.
pub open spec fn spec_recorded_and_advanced(pre: App, post: App, name: Seq<char>, cents: int) -> bool {
    &&& post.spec_current_idx() == pre.spec_current_idx() + 1
    &&& !post.spec_playing_reference()
    &&& post.spec_a4() == pre.spec_a4()
    &&& post.spec_should_quit() == pre.spec_should_quit()
    &&& (match (pre.spec_session(), post.spec_session()) {
        (Some(s0), Some(s1)) => {
            &&& s1.mode == s0.mode
            &&& s1.a4_reference == s0.a4_reference
            &&& s1.current_note_index == pre.spec_current_idx() + 1
            &&& s1.completed_notes@.len() == s0.completed_notes@.len() + 1
            &&& s1.completed_notes@.last().name@ == name
            &&& s1.completed_notes@.last().final_cents == cents
            &&& (forall|i: int|
                0 <= i < s0.completed_notes@.len() ==> (#[trigger] s1.completed_notes@[i])
                    == s0.completed_notes@[i])
        },
        _ => false,
    })
    &&& (pre.spec_current_idx() + 1 < 88 ==> {
        &&& post.spec_state() == AppState::Tuning
        &&& (match post.spec_tuning() {
            Some(t) => spec_fresh_tuning(pre.spec_a4(), pre.spec_current_idx() + 1, t),
            None => false,
        })
    })
    &&& (pre.spec_current_idx() + 1 >= 88 ==> {
        &&& post.spec_state() == AppState::Complete
        &&& (match post.spec_summary() {
            Some(sm) => sm.note_count == pre.spec_session()->Some_0.completed_notes@.len() + 1,
            None => false,
        })
    })
}

/// The effect of confirming during tuning: a three-string note on a
/// non-terminal sub-step advances the sub-step and nothing more; a complete
/// note is recorded at its live deviation and the engine advances; an
/// incomplete note at its terminal step changes nothing.
pub open spec fn spec_confirm_effect(pre: App, post: App) -> bool {
    match pre.spec_tuning() {
        Some(t) => {
            if t.string_count == 3 && (match t.tuning_step {
                Some(step) => spec_next_step(step) is Some,
                None => false,
            }) {
                &&& post.spec_state() == pre.spec_state()
                &&& post.spec_session() == pre.spec_session()
                &&& post.spec_current_idx() == pre.spec_current_idx()
                &&& post.spec_a4() == pre.spec_a4()
                &&& post.spec_should_quit() == pre.spec_should_quit()
                &&& (match post.spec_tuning() {
                    Some(t1) => t1 == (TuningState {
                        tuning_step: spec_next_step(t.tuning_step->Some_0),
                        ..t
                    }),
                    None => false,
                })
            } else if spec_note_complete(t) {
                spec_recorded_and_advanced(pre, post, t.note_name@, t.cents_deviation as int)
            } else {
                spec_unchanged(pre, post)
            }
        },
        None => spec_unchanged(pre, post),
    }
}

/// A detection was fed to the calibrator: the sample was accepted into the
/// store exactly when it lies in the plausible band, and if that filled the
/// target, tuning started at the calibrated reference (the mean of the
/// accepted samples).
pub open spec fn spec_calibration_fed(pre: App, post: App, freq: int) -> bool {
    let accepted = CALIBRATION_BAND_LOW <= freq <= CALIBRATION_BAND_HIGH
        && pre.spec_calibration().spec_samples().len() < crate::calibration::CALIBRATION_MAX_SAMPLES;
    let samples1 = if accepted {
        pre.spec_calibration().spec_samples().push(freq as u64)
    } else {
        pre.spec_calibration().spec_samples()
    };
    &&& post.spec_calibration().spec_samples() == samples1
    &&& (samples1.len() < pre.spec_calibration().spec_target() ==> {
        &&& post.spec_state() == pre.spec_state()
        &&& post.spec_session() == pre.spec_session()
        &&& post.spec_a4() == pre.spec_a4()
        &&& post.spec_tuning() == pre.spec_tuning()
    })
    &&& (samples1.len() >= pre.spec_calibration().spec_target() && samples1.len() > 0
        ==> spec_tuning_started(
        post,
        spec_mode_of(pre.spec_selected()),
        crate::calibration::spec_sum(samples1) / samples1.len() as int,
    ))
}

/// The live detection was updated with a frequency and its deviation from
/// the current note's target.
pub open spec fn spec_tuning_updated(pre: App, post: App, freq: int) -> bool {
    &&& post.spec_state() == pre.spec_state()
    &&& post.spec_session() == pre.spec_session()
    &&& post.spec_current_idx() == pre.spec_current_idx()
    &&& post.spec_a4() == pre.spec_a4()
    &&& (match (pre.spec_tuning(), post.spec_tuning()) {
        (Some(t0), Some(t1)) => t1 == (TuningState {
            detected_freq: Some(freq as u64),
            cents_deviation: spec_cents_from_target(freq, t0.target_freq as int) as i64,
            ..t0
        }),
        _ => false,
    })
}

/// The live detection was cleared.
pub open spec fn spec_tuning_cleared(pre: App, post: App) -> bool {
    &&& post.spec_state() == pre.spec_state()
    &&& post.spec_session() == pre.spec_session()
    &&& post.spec_current_idx() == pre.spec_current_idx()
    &&& post.spec_a4() == pre.spec_a4()
    &&& (match (pre.spec_tuning(), post.spec_tuning()) {
        (Some(t0), Some(t1)) => t1 == (TuningState {
            detected_freq: None::<u64>,
            cents_deviation: 0,
            ..t0
        }),
        _ => false,
    })
}

} // verus!
