//! Tests of the keyboard geometry and the progress readouts.

use piano_tuner::display::CompactProgress;
use piano_tuner::display::Piano;
use piano_tuner::display::Progress;
use piano_tuner::display::Shortcuts;
use std::collections::HashSet;

#[test]
fn test_black_keys_per_octave() {
    // In each octave from A: A# C# D# F# G# are black.
    let black = [1usize, 4, 6, 9, 11];
    for i in 0..88usize {
        assert_eq!(Piano::is_black_key(i), black.contains(&(i % 12)), "index {}", i);
    }
}

#[test]
fn test_white_key_positions_increase() {
    // Across the 88 keys there are 52 white keys, in strictly increasing
    // columns from 0 to 51.
    let mut expected: usize = 0;
    for i in 0..88usize {
        if !Piano::is_black_key(i) {
            assert_eq!(Piano::white_key_position(i), expected, "white index {}", i);
            expected += 1;
        }
    }
    assert_eq!(expected, 52);
}

#[test]
fn test_black_key_sits_left_of_next_white() {
    // A black key belongs to the gap right of the white key just below it.
    for i in 0..88usize {
        if Piano::is_black_key(i) {
            assert_eq!(
                Piano::black_key_white_position(i),
                Piano::white_key_position(i - 1),
                "black index {}",
                i
            );
        }
    }
}

#[test]
fn test_piano_builders() {
    let p = Piano::new(48);
    assert_eq!(p.current_note, 48);
    assert!(!p.show_progress);

    let mut done = HashSet::new();
    done.insert(0usize);
    done.insert(1usize);
    let p = p.with_progress(done);
    assert!(p.show_progress);
    assert!(p.completed.contains(&0));
    assert!(!p.completed.contains(&2));
}

#[test]
fn test_progress_percent() {
    let p = Progress::new(22, 88, "A2".to_string(), "Bichord".to_string());
    assert_eq!(p.percent(), 25);
    let p = Progress::new(0, 88, "A0".to_string(), "Single".to_string());
    assert_eq!(p.percent(), 0);
    let p = Progress::new(88, 88, "C8".to_string(), "Trichord".to_string());
    assert_eq!(p.percent(), 100);
    let p = Progress::new(1, 0, "A0".to_string(), "Single".to_string());
    assert_eq!(p.percent(), 0);
}

#[test]
fn test_compact_progress_fields() {
    let c = CompactProgress::new("A4".to_string(), 48, 88);
    assert_eq!(c.note_name, "A4");
    assert_eq!(c.current, 48);
    assert_eq!(c.total, 88);
}

#[test]
fn test_shortcuts_format() {
    assert_eq!(Shortcuts::format(Shortcuts::SPACE, "Confirm"), "[Space] Confirm");
    assert_eq!(Shortcuts::format(Shortcuts::QUIT, "Quit"), "[Q] Quit");
    assert_eq!(Shortcuts::SKIP, "[S]");
    assert_eq!(Shortcuts::ENTER, "[Enter]");
}
