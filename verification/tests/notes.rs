use piano_tuner::notes::generate_notes;
use piano_tuner::notes::note_at;
use piano_tuner::notes::Note;
use piano_tuner::notes::NOTE_COUNT;

#[test]
fn test_note_count() {
    assert_eq!(generate_notes().len(), 88);
    assert_eq!(NOTE_COUNT, 88);
}

#[test]
fn test_first_note_a0() {
    let notes = generate_notes();
    let a0 = &notes[0];
    assert_eq!(a0.midi, 21);
    assert_eq!(a0.name, "A");
    assert_eq!(a0.octave, 0);
    assert_eq!(a0.strings, 1);
    assert_eq!(a0.display_name(), "A0");
}

#[test]
fn test_last_note_c8() {
    let notes = generate_notes();
    let c8 = &notes[87];
    assert_eq!(c8.midi, 108);
    assert_eq!(c8.name, "C");
    assert_eq!(c8.octave, 8);
    assert_eq!(c8.strings, 3);
    assert_eq!(c8.display_name(), "C8");
}

#[test]
fn test_middle_c() {
    // Middle C is C4, MIDI 60
    let c4 = Note::from_midi(60).expect("C4 should exist");
    assert_eq!(c4.name, "C");
    assert_eq!(c4.octave, 4);
    assert_eq!(c4.display_name(), "C4");
}

#[test]
fn test_a4_concert_pitch() {
    // A4 is MIDI 69
    let a4 = Note::from_midi(69).expect("A4 should exist");
    assert_eq!(a4.name, "A");
    assert_eq!(a4.octave, 4);
    assert_eq!(a4.display_name(), "A4");
}

#[test]
fn test_string_counts() {
    // Monochord: A0-Bb1 (MIDI 21-34)
    assert_eq!(Note::from_midi(21).unwrap().strings, 1); // A0
    assert_eq!(Note::from_midi(34).unwrap().strings, 1); // Bb1 (A#1)

    // Bichord: B1-G#3 (MIDI 35-56)
    assert_eq!(Note::from_midi(35).unwrap().strings, 2); // B1
    assert_eq!(Note::from_midi(56).unwrap().strings, 2); // G#3

    // Trichord: A3-C8 (MIDI 57-108)
    assert_eq!(Note::from_midi(57).unwrap().strings, 3); // A3
    assert_eq!(Note::from_midi(108).unwrap().strings, 3); // C8
}

#[test]
fn test_from_name() {
    let a4 = Note::from_name("A4").expect("A4 should exist");
    assert_eq!(a4.midi, 69);

    let csharp5 = Note::from_name("C#5").expect("C#5 should exist");
    assert_eq!(csharp5.midi, 73);
}

#[test]
fn test_trichord_detection() {
    assert!(!Note::from_midi(21).unwrap().is_trichord()); // A0 (monochord)
    assert!(!Note::from_midi(35).unwrap().is_trichord()); // B1 (bichord)
    assert!(!Note::from_midi(56).unwrap().is_trichord()); // G#3 (bichord)
    assert!(Note::from_midi(57).unwrap().is_trichord()); // A3 (trichord)
    assert!(Note::from_midi(69).unwrap().is_trichord()); // A4 (trichord)
}

#[test]
fn test_midi_sequence() {
    // Verify MIDI numbers are sequential
    for (i, note) in generate_notes().iter().enumerate() {
        assert_eq!(note.midi as usize, i + 21);
    }
}

#[test]
fn test_chromatic_sequence() {
    // Check that notes follow chromatic order
    let expected_sequence = [
        ("A", 0),
        ("A#", 0),
        ("B", 0),
        ("C", 1),
        ("C#", 1),
        ("D", 1),
        ("D#", 1),
        ("E", 1),
        ("F", 1),
        ("F#", 1),
        ("G", 1),
        ("G#", 1),
        ("A", 1),
        ("A#", 1),
        ("B", 1),
        ("C", 2),
    ];

    let notes = generate_notes();
    for (i, &(name, octave)) in expected_sequence.iter().enumerate() {
        let note = &notes[i];
        assert_eq!(note.name, name, "Note {} should be {}", i, name);
        assert_eq!(
            note.octave, octave,
            "Note {} octave should be {}",
            i, octave
        );
    }
}

#[test]
fn test_note_at_bounds() {
    assert!(note_at(0).is_some());
    assert!(note_at(87).is_some());
    assert!(note_at(88).is_none());
    assert!(Note::from_midi(20).is_none());
    assert!(Note::from_midi(109).is_none());
    assert!(Note::from_name("H9").is_none());
}
