//! Tests of the snapshot codec: canonical numbers and the session round
//! trip.

use piano_tuner::session::{CompletedNote, Session, TuningMode};
use piano_tuner::snapshot::{decode_session, encode_session, format_cents, format_u64, parse_u64};

#[test]
fn test_format_and_parse_numbers() {
    assert_eq!(format_u64(0), "0");
    assert_eq!(format_u64(7), "7");
    assert_eq!(format_u64(440000), "440000");
    assert_eq!(format_u64(u64::MAX), u64::MAX.to_string());

    assert_eq!(parse_u64("0"), Some(0));
    assert_eq!(parse_u64("440000"), Some(440000));
    assert_eq!(parse_u64(&u64::MAX.to_string()), Some(u64::MAX));
    // Not canonical or not a number: rejected.
    assert_eq!(parse_u64(""), None);
    assert_eq!(parse_u64("007"), None);
    assert_eq!(parse_u64("4a0"), None);
    // One past the largest representable value: rejected.
    assert_eq!(parse_u64("18446744073709551616"), None);
}

#[test]
fn test_format_cents_signs() {
    assert_eq!(format_cents(0), "0");
    assert_eq!(format_cents(5000), "5000");
    assert_eq!(format_cents(-15712), "-15712");
    assert_eq!(format_cents(i64::MIN), i64::MIN.to_string());
}

#[test]
fn test_session_round_trip() {
    let mut session = Session::new(TuningMode::Quick, 441250000);
    session.current_note_index = 3;
    session.completed_notes.push(CompletedNote { name: "A0".to_string(), final_cents: -1200 });
    session.completed_notes.push(CompletedNote { name: "A#0".to_string(), final_cents: 0 });
    session.completed_notes.push(CompletedNote { name: "B0".to_string(), final_cents: 4999 });

    let text = encode_session(&session);
    assert_eq!(text, "quick\n441250000\n3\n-1200,A0\n0,A#0\n4999,B0\n");

    let decoded = decode_session(&text).expect("own snapshot decodes");
    assert_eq!(decoded.mode, TuningMode::Quick);
    assert_eq!(decoded.a4_reference, 441250000);
    assert_eq!(decoded.current_note_index, 3);
    assert_eq!(decoded.completed_notes.len(), 3);
    assert_eq!(decoded.completed_notes[0].name, "A0");
    assert_eq!(decoded.completed_notes[0].final_cents, -1200);
    assert_eq!(decoded.completed_notes[2].name, "B0");
    assert_eq!(decoded.completed_notes[2].final_cents, 4999);

    // Re-encoding the decoded session reproduces the text exactly.
    assert_eq!(encode_session(&decoded), text);

    let empty = Session::new(TuningMode::Concert, 440000000);
    let text = encode_session(&empty);
    assert_eq!(text, "concert\n440000000\n0\n");
    let decoded = decode_session(&text).expect("empty session decodes");
    assert_eq!(decoded.mode, TuningMode::Concert);
    assert!(decoded.completed_notes.is_empty());
}

#[test]
fn test_decode_is_complete_on_snapshots() {
    // Any session whose names hold no line break decodes from its own
    // snapshot, commas in names included: the name stands last on its line
    // and the separator is the first comma.
    let mut session = Session::new(TuningMode::Quick, 1000000);
    session.current_note_index = 88;
    session.completed_notes.push(CompletedNote { name: "A, sharp".to_string(), final_cents: -5 });
    session.completed_notes.push(CompletedNote { name: "".to_string(), final_cents: 0 });
    let text = encode_session(&session);
    let decoded = decode_session(&text).expect("snapshot decodes");
    assert_eq!(decoded.completed_notes[0].name, "A, sharp");
    assert_eq!(decoded.completed_notes[0].final_cents, -5);
    assert_eq!(decoded.completed_notes[1].name, "");
    assert_eq!(decoded.current_note_index, 88);
    assert_eq!(encode_session(&decoded), text);

    // A name holding a line break breaks the line structure; such a
    // snapshot is refused rather than misread.
    let mut broken = Session::new(TuningMode::Quick, 440000000);
    broken.completed_notes.push(CompletedNote { name: "X\nY".to_string(), final_cents: 1 });
    assert!(decode_session(&encode_session(&broken)).is_none());
}

#[test]
fn test_decode_rejects_corrupt_snapshots() {
    assert!(decode_session("").is_none());
    assert!(decode_session("quick\n").is_none());
    assert!(decode_session("loud\n440000\n0\n").is_none());
    assert!(decode_session("quick\n44x000\n0\n").is_none());
    // A note line without a comma, or with a broken number, is rejected.
    assert!(decode_session("quick\n440000000\n1\nA0\n").is_none());
    assert!(decode_session("quick\n440000000\n1\n--5,A0\n").is_none());
    // A truncated final line is rejected.
    assert!(decode_session("quick\n440000000\n1\n0,A0").is_none());
    // Non-canonical numbers never decode (a snapshot never writes them).
    assert!(decode_session("quick\n0440000\n0\n").is_none());
    assert!(decode_session("quick\n440000000\n1\n-0,A0\n").is_none());
}
