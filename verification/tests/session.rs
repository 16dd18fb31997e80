//! Tests of the calibration accumulator, the tuning order, the unison
//! workflow, the session records, and the application engine.

use piano_tuner::app::App;
use piano_tuner::app::AppState;
use piano_tuner::app::InputKey;
use piano_tuner::app::SelectedMode;
use piano_tuner::calibration::Calibrator;
use piano_tuner::instructions::Instructions;
use piano_tuner::instructions::TuningStep;
use piano_tuner::instructions::textwrap;
use piano_tuner::order::TuningOrder;
use piano_tuner::session::summarize;
use piano_tuner::session::CompletedNote;
use piano_tuner::session::Session;
use piano_tuner::session::TuningMode;
use piano_tuner::session::TuningState;

#[test]
fn test_calibrator_completes_after_ten_accepted() {
    let mut cal = Calibrator::new();
    let samples: [u64; 10] = [
        438000000, 439000000, 440000000, 441000000, 442000000, 438500000, 439500000, 440500000,
        441500000, 440000000,
    ];
    // An outlier is rejected and does not count toward completion.
    cal.update(500000000);
    assert!(!cal.is_complete());
    assert_eq!(cal.sample_count(), 0);

    for (i, &s) in samples.iter().enumerate() {
        assert!(!cal.is_complete(), "complete too early at {}", i);
        cal.update(s);
    }
    assert!(cal.is_complete());
    assert_eq!(cal.sample_count(), 10);

    let sum: u64 = samples.iter().sum();
    let mean = sum / 10;
    assert_eq!(cal.result(), Some(mean));
}

#[test]
fn test_calibrator_empty_and_reset() {
    let mut cal = Calibrator::new();
    assert_eq!(cal.result(), None);
    cal.update(440000000);
    assert_eq!(cal.result(), Some(440000000));
    assert_eq!(cal.current_freq(), Some(440000000));
    cal.clear();
    assert_eq!(cal.current_freq(), None);
    cal.reset();
    assert_eq!(cal.result(), None);
    assert_eq!(cal.sample_count(), 0);
}

#[test]
fn test_tuning_order_bijection() {
    let order = TuningOrder::new();
    let mut seen = [false; 88];
    for i in 0..88usize {
        let note = order.note_at(i).expect("every position maps to a note");
        let idx = (note.midi - 21) as usize;
        assert!(!seen[idx], "note {} visited twice", note.midi);
        seen[idx] = true;
    }
    assert!(seen.iter().all(|&s| s), "every note visited");
    assert!(order.note_at(88).is_none());
}

#[test]
fn test_tuning_step_sequence() {
    assert_eq!(TuningStep::MuteOuter.number(), 1);
    assert_eq!(TuningStep::TuneCenter.number(), 2);
    assert_eq!(TuningStep::TuneLeft.number(), 3);
    assert_eq!(TuningStep::TuneRight.number(), 4);
    assert_eq!(TuningStep::MuteOuter.next(), Some(TuningStep::TuneCenter));
    assert_eq!(TuningStep::TuneCenter.next(), Some(TuningStep::TuneLeft));
    assert_eq!(TuningStep::TuneLeft.next(), Some(TuningStep::TuneRight));
    assert_eq!(TuningStep::TuneRight.next(), None);
    assert_eq!(TuningStep::MuteOuter.title(), "Mute outer strings");
    assert!(TuningStep::TuneLeft.instruction().contains("left"));
}

#[test]
fn test_unison_protocol_three_strings() {
    // A 3-string note walks MuteOuter -> TuneCenter -> TuneLeft -> TuneRight.
    let mut t = TuningState::new("A4".to_string(), 48, 88, 440000000, 3);
    assert!(t.is_trichord());
    assert_eq!(t.tuning_step(), Some(TuningStep::MuteOuter));

    // Not complete without detection, nor before the terminal step.
    t.update(440000000, 0);
    assert!(!t.is_complete(), "not complete before the terminal step");

    assert!(t.next_step());
    assert!(t.next_step());
    assert!(t.next_step());
    assert_eq!(t.tuning_step(), Some(TuningStep::TuneRight));
    assert!(!t.next_step(), "terminal step has no successor");

    // At the terminal step, a deviation beyond 5 cents does not complete.
    t.update(441300000, 5100);
    assert!(!t.is_complete());

    // Within tolerance and detected: complete.
    t.update(440100000, 400);
    assert!(t.is_complete());

    // Without a live detection it is not complete, whatever the deviation.
    t.clear();
    assert!(!t.is_complete());
}

#[test]
fn test_unison_protocol_single_string() {
    let mut t = TuningState::new("A0".to_string(), 0, 88, 27500000, 1);
    assert!(!t.is_trichord());
    assert_eq!(t.tuning_step(), None);
    assert!(!t.next_step());
    t.update(27510000, 600);
    assert!(t.is_complete());
    t.update(27800000, 18000);
    assert!(!t.is_complete());
}

#[test]
fn test_session_records() {
    let mut s = Session::new(TuningMode::Concert, 440000000);
    assert_eq!(s.mode, TuningMode::Concert);
    assert_eq!(s.a4_reference, 440000000);
    assert_eq!(s.current_note_index, 0);
    assert!(s.completed_notes.is_empty());
    s.complete_note("A0".to_string(), -1200);
    s.complete_note("A#0".to_string(), 300);
    assert_eq!(s.completed_notes.len(), 2);
    assert_eq!(s.completed_notes[0].name, "A0");
    assert_eq!(s.completed_notes[0].final_cents, -1200);
    assert_eq!(s.completed_notes[1].name, "A#0");
}

#[test]
fn test_summarize_bands() {
    let notes = vec![
        CompletedNote { name: "A0".to_string(), final_cents: 0 },
        CompletedNote { name: "A#0".to_string(), final_cents: -4000 },
        CompletedNote { name: "B0".to_string(), final_cents: 6000 },
        CompletedNote { name: "C1".to_string(), final_cents: -15000 },
        CompletedNote { name: "C#1".to_string(), final_cents: 16000 },
    ];
    let s = summarize(&notes);
    assert_eq!(s.note_count, 5);
    assert_eq!(s.notes_in_tune, 2);
    assert_eq!(s.notes_warning, 2);
    assert_eq!(s.notes_out_of_tune, 1);
    // mean of |0|, |-4000|, |6000|, |-15000|, |16000| = 41000/5
    assert_eq!(s.avg_deviation, 8200);

    let empty = summarize(&Vec::new());
    assert_eq!(empty.note_count, 0);
    assert_eq!(empty.avg_deviation, 0);
}

#[test]
fn test_app_concert_flow() {
    let mut app = App::new();
    assert_eq!(app.state(), AppState::ModeSelect);
    assert!(!app.should_quit());

    // Select concert pitch and start.
    app.handle_key(InputKey::Down);
    app.handle_key(InputKey::Enter);
    assert_eq!(app.state(), AppState::Tuning);
    let session = app.session().expect("session started");
    assert_eq!(session.mode, TuningMode::Concert);
    assert_eq!(session.a4_reference, 440000000);

    // The first note of the chromatic order is A0 at ~27.5 Hz, stretched
    // flat by the inharmonicity curve.
    let target = app.current_target_freq().expect("target set");
    assert!(target < 27500000, "A0 target should be stretched flat, got {}", target);
    assert!(target > 27000000, "A0 target should stay near 27.5 Hz, got {}", target);
}

#[test]
fn test_app_quick_flow_calibrates() {
    let mut app = App::new();
    // QuickTune is selected by default.
    app.handle_key(InputKey::Enter);
    assert_eq!(app.state(), AppState::Calibration);

    // Nine strong detections inside the band do not complete calibration.
    for i in 0..9u64 {
        app.update_pitch(438000000 + i * 500000, 900);
        assert_eq!(app.state(), AppState::Calibration);
    }
    // An outlier is ignored.
    app.update_pitch(500000000, 900);
    assert_eq!(app.state(), AppState::Calibration);
    // A weak detection is ignored.
    app.update_pitch(440000000, 700);
    assert_eq!(app.state(), AppState::Calibration);

    // The tenth accepted sample completes calibration and starts tuning at
    // the mean of the accepted samples.
    app.update_pitch(442000000, 900);
    assert_eq!(app.state(), AppState::Tuning);
    let session = app.session().expect("session started");
    assert_eq!(session.mode, TuningMode::Quick);
    let expected_mean: u64 =
        ((0..9u64).map(|i| 438000000 + i * 500000).sum::<u64>() + 442000000) / 10;
    assert_eq!(session.a4_reference, expected_mean);
}

#[test]
fn test_app_skip_records_zero_cents() {
    let mut app = App::new();
    app.handle_key(InputKey::Down);
    app.handle_key(InputKey::Enter);
    assert_eq!(app.state(), AppState::Tuning);

    // Make some unison progress and a live off-pitch detection first: a
    // skip ignores both.
    app.update_pitch(27800000, 800);
    app.handle_key(InputKey::KeyS);

    let session = app.session().expect("session");
    assert_eq!(session.completed_notes.len(), 1);
    assert_eq!(session.completed_notes[0].name, "A0");
    assert_eq!(session.completed_notes[0].final_cents, 0);
    assert_eq!(session.current_note_index, 1);
}

#[test]
fn test_app_confirm_trichord_protocol() {
    // Resume a session positioned at a trichord note (index 48 = A4).
    let mut session = Session::new(TuningMode::Concert, 440000000);
    session.current_note_index = 48;
    let mut app = App::with_session(session);
    assert_eq!(app.state(), AppState::Tuning);
    let target = app.current_target_freq().expect("target");

    // Confirming with a deviation beyond 5 cents at the final step does not
    // complete the note.
    app.handle_key(InputKey::Space); // MuteOuter -> TuneCenter
    app.handle_key(InputKey::Space); // TuneCenter -> TuneLeft
    app.handle_key(InputKey::Space); // TuneLeft -> TuneRight
    app.update_pitch(target + target / 100, 800); // ~+17 cents
    app.handle_key(InputKey::Space);
    assert_eq!(
        app.session().unwrap().completed_notes.len(),
        0,
        "an out-of-tolerance confirmation must not complete the note"
    );

    // Confirming within tolerance with a live detection completes it:
    // exactly one record appears.
    app.update_pitch(target + 1, 800);
    app.handle_key(InputKey::Space);
    let session = app.session().expect("session");
    assert_eq!(session.completed_notes.len(), 1);
    assert_eq!(session.completed_notes[0].name, "A4");
    assert_eq!(session.current_note_index, 49);
}

#[test]
fn test_app_confirm_four_steps_one_record() {
    // For a 3-string note, four confirmations in sequence, the last within
    // tolerance with a live detection, produce exactly one completed note.
    let mut session = Session::new(TuningMode::Concert, 440000000);
    session.current_note_index = 48; // A4, three strings
    let mut app = App::with_session(session);
    let target = app.current_target_freq().expect("target");
    app.update_pitch(target, 800);
    app.handle_key(InputKey::Space);
    app.handle_key(InputKey::Space);
    app.handle_key(InputKey::Space);
    assert_eq!(app.session().unwrap().completed_notes.len(), 0);
    app.handle_key(InputKey::Space);
    let session = app.session().expect("session");
    assert_eq!(session.completed_notes.len(), 1);
    assert_eq!(session.completed_notes[0].name, "A4");
}

#[test]
fn test_app_resume_finished_session() {
    let mut session = Session::new(TuningMode::Concert, 440000000);
    session.current_note_index = 88;
    let app = App::with_session(session);
    assert_eq!(app.state(), AppState::Complete);
    assert!(app.summary().is_some());
}

#[test]
fn test_app_confirm_needs_detection() {
    let mut app = App::new();
    app.handle_key(InputKey::Down);
    app.handle_key(InputKey::Enter);
    // A0 has one string: confirmation attempts completion at once, but with
    // no detection nothing happens.
    app.handle_key(InputKey::Space);
    assert_eq!(app.session().unwrap().completed_notes.len(), 0);
    // A weak detection clears the reading; still nothing.
    app.update_pitch(27500000, 500);
    app.handle_key(InputKey::Space);
    assert_eq!(app.session().unwrap().completed_notes.len(), 0);
    // A strong in-tune detection completes it.
    let target = app.current_target_freq().unwrap();
    app.update_pitch(target, 800);
    app.handle_key(InputKey::Space);
    assert_eq!(app.session().unwrap().completed_notes.len(), 1);
}

#[test]
fn test_app_complete_after_all_notes() {
    let mut app = App::new();
    app.handle_key(InputKey::Down);
    app.handle_key(InputKey::Enter);
    for _ in 0..88 {
        assert_eq!(app.state(), AppState::Tuning);
        app.handle_key(InputKey::KeyS);
    }
    assert_eq!(app.state(), AppState::Complete);
    let summary = app.summary().expect("summary at completion");
    assert_eq!(summary.note_count, 88);
    assert_eq!(summary.avg_deviation, 0);
    assert_eq!(summary.notes_in_tune, 88);

    // Enter starts over.
    app.handle_key(InputKey::Enter);
    assert_eq!(app.state(), AppState::ModeSelect);
    assert!(app.session().is_none());
}

#[test]
fn test_app_quit_keys() {
    let mut app = App::new();
    app.handle_key(InputKey::KeyQ);
    assert!(app.should_quit());

    let mut app = App::new();
    app.handle_key(InputKey::Esc);
    assert!(app.should_quit());

    let mut app = App::new();
    app.handle_key(InputKey::Other);
    assert!(!app.should_quit());
}

#[test]
fn test_app_mode_toggle_and_reference() {
    let mut app = App::new();
    app.handle_key(InputKey::Up);
    app.handle_key(InputKey::Tab);
    // Two toggles come back to quick tune; Enter then calibrates.
    app.handle_key(InputKey::Enter);
    assert_eq!(app.state(), AppState::Calibration);
    // Skipping calibration tunes at 440 Hz.
    app.handle_key(InputKey::KeyS);
    assert_eq!(app.state(), AppState::Tuning);
    assert_eq!(app.session().unwrap().a4_reference, 440000000);
    assert_eq!(app.session().unwrap().mode, TuningMode::Quick);

    assert!(!app.is_playing_reference());
    app.handle_key(InputKey::KeyR);
    assert!(app.is_playing_reference());
    app.handle_key(InputKey::KeyR);
    assert!(!app.is_playing_reference());
}

#[test]
fn test_instructions_builders() {
    let i = Instructions::trichord(TuningStep::TuneLeft);
    assert_eq!(i.step, Some(TuningStep::TuneLeft));
    assert_eq!(i.total_steps, 4);
    assert!(i.is_trichord);
    assert!(i.direction_hint.is_none());

    let s = Instructions::simple();
    assert_eq!(s.step, None);
    assert_eq!(s.total_steps, 1);
    assert!(!s.is_trichord);

    // Flat by more than 5 cents: tighten.
    let hinted = Instructions::simple().with_direction_hint(-6000);
    assert!(hinted.direction_hint.as_ref().unwrap().contains("CLOCKWISE"));
    // Sharp by more than 5 cents: loosen.
    let hinted = Instructions::simple().with_direction_hint(7000);
    assert!(hinted.direction_hint.as_ref().unwrap().contains("COUNTER-CLOCKWISE"));
    // Within tolerance: no hint.
    let hinted = Instructions::simple().with_direction_hint(3000);
    assert!(hinted.direction_hint.is_none());
}

#[test]
fn test_textwrap_basic() {
    let lines = textwrap("Tune the center string to the target pitch", 16);
    assert_eq!(
        lines,
        vec!["Tune the center", "string to the", "target pitch"]
    );
    // Every word appears, in order, and spacing is normalized.
    let rejoined = lines.join(" ");
    assert_eq!(rejoined, "Tune the center string to the target pitch");

    assert_eq!(textwrap("", 10), Vec::<String>::new());
    assert_eq!(textwrap("   ", 10), Vec::<String>::new());
    // A word longer than the width stands on its own line.
    assert_eq!(textwrap("extraordinary", 5), vec!["extraordinary"]);
    assert_eq!(textwrap("a  b\tc", 1), vec!["a", "b", "c"]);
}
