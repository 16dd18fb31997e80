//! The 88 keys of a standard piano, from A0 (MIDI 21) to C8 (MIDI 108).
//!
//! Every note is a pure function of its index in the table, so the catalog
//! needs no stored state: `note_at` builds the requested entry directly and
//! is proved to agree with the specification of the table.

use vstd::prelude::*;

verus! {

/// Number of keys on a standard piano.
pub const NOTE_COUNT: usize = 88;

/// A piano note with its properties.
#[derive(Debug, Clone, Copy, PartialEq, Eq)]
pub struct Note {
    /// MIDI note number (21 = A0, 108 = C8).
    pub midi: u8,
    /// Note name (e.g., "A", "C#").
    pub name: &'static str,
    /// Octave number.
    pub octave: i8,
    /// Number of strings for this note (1, 2, or 3).
    pub strings: u8,
}

/// Chromatic name of the key `i` semitones above A0, as a character sequence.
pub open spec fn spec_note_name(i: int) -> Seq<char> {
    let k = i % 12;
    if k == 0 {
        "A"@
    } else if k == 1 {
        "A#"@
    } else if k == 2 {
        "B"@
    } else if k == 3 {
        "C"@
    } else if k == 4 {
        "C#"@
    } else if k == 5 {
        "D"@
    } else if k == 6 {
        "D#"@
    } else if k == 7 {
        "E"@
    } else if k == 8 {
        "F"@
    } else if k == 9 {
        "F#"@
    } else if k == 10 {
        "G"@
    } else {
        "G#"@
    }
}

/// Octave number of the key `i` semitones above A0. The octave increments at
/// each C, and A0, A#0, B0 sit below C1.
pub open spec fn spec_octave(i: int) -> int {
    if i < 3 {
        0
    } else {
        (i - 3) / 12 + 1
    }
}

/// String count by MIDI number: monochords up to A#1, bichords up to G#3,
/// trichords from A3 on.
pub open spec fn spec_strings(midi: int) -> int {
    if midi <= 34 {
        1
    } else if midi <= 56 {
        2
    } else {
        3
    }
}

/// The note stored at table index `i` (0 = A0, 87 = C8) has exactly these
/// fields.
pub open spec fn is_note_at(n: Note, i: int) -> bool {
    &&& n.midi == i + 21
    &&& n.name@ == spec_note_name(i)
    &&& n.octave == spec_octave(i)
    &&& n.strings == spec_strings(i + 21)
}

impl Note {
    /// Create a new note.
    pub fn new(midi: u8, name: &'static str, octave: i8, strings: u8) -> (r: Note)
        ensures
            r.midi == midi,
            r.name == name,
            r.octave == octave,
            r.strings == strings,
    {
        Note { midi, name, octave, strings }
    }

    /// Get display name (e.g., "A4", "C#5").
    pub fn display_name(&self) -> (r: String)
        ensures
            r@ == self.name@ + spec_octave_digits(self.octave as int),
    {
        let digits: &'static str = octave_digits(self.octave);
        self.name.to_owned().concat(digits)
    }

    /// Check if this is a trichord (3 strings).
    pub fn is_trichord(&self) -> (r: bool)
        ensures
            r == (self.strings == 3),
    {
        self.strings == 3
    }

    /// Get note by MIDI number.
    pub fn from_midi(midi: u8) -> (r: Option<Note>)
        ensures
            (21 <= midi <= 108) ==> (r is Some && is_note_at(r->Some_0, midi - 21)),
            !(21 <= midi <= 108) ==> r is None,
    {
        if midi < 21 || midi > 108 {
            None
        } else {
            note_at((midi - 21) as usize)
        }
    }

    /// Get note by name (e.g., "A4", "C#5"). Scans the table in order and
    /// returns the first note whose display name matches.
    pub fn from_name(name: &str) -> (r: Option<Note>)
        ensures
            match r {
                Some(n) => exists|i: int|
                    0 <= i < 88 && is_note_at(n, i) && spec_display_name(i) == name@,
                None => forall|i: int| 0 <= i < 88 ==> spec_display_name(i) != name@,
            },
    {
        let target: String = name.to_owned();
        let mut i: usize = 0;
        while i < 88
            invariant
                i <= 88,
                target@ == name@,
                forall|j: int| 0 <= j < i ==> spec_display_name(j) != name@,
            decreases 88 - i,
        {
            let n = make_note(i);
            let d = n.display_name();
            if d == target {
                proof {
                    assert(0 <= i < 88 && is_note_at(n, i as int) && spec_display_name(i as int)
                        == name@);
                }
                return Some(n);
            }
            i = i + 1;
        }
        None
    }
}

/// Display name of the note at table index `i`: chromatic name followed by
/// the octave digit.
pub open spec fn spec_display_name(i: int) -> Seq<char> {
    spec_note_name(i) + spec_octave_digits(spec_octave(i))
}

/// Decimal digits of an octave number in 0..=8 (the piano range); empty
/// outside that range, which no table entry reaches.
pub open spec fn spec_octave_digits(o: int) -> Seq<char> {
    if o == 0 {
        "0"@
    } else if o == 1 {
        "1"@
    } else if o == 2 {
        "2"@
    } else if o == 3 {
        "3"@
    } else if o == 4 {
        "4"@
    } else if o == 5 {
        "5"@
    } else if o == 6 {
        "6"@
    } else if o == 7 {
        "7"@
    } else if o == 8 {
        "8"@
    } else {
        ""@
    }
}

/// Octave number rendered as its decimal digit.
fn octave_digits(o: i8) -> (r: &'static str)
    ensures
        r@ == spec_octave_digits(o as int),
{
    if o == 0 {
        "0"
    } else if o == 1 {
        "1"
    } else if o == 2 {
        "2"
    } else if o == 3 {
        "3"
    } else if o == 4 {
        "4"
    } else if o == 5 {
        "5"
    } else if o == 6 {
        "6"
    } else if o == 7 {
        "7"
    } else if o == 8 {
        "8"
    } else {
        ""
    }
}

/// Build the note at table index `i`.
fn make_note(i: usize) -> (n: Note)
    requires
        i < 88,
    ensures
        is_note_at(n, i as int),
{
    let midi: u8 = (i + 21) as u8;
    let octave: i8 = if i < 3 {
        0
    } else {
        (((i - 3) / 12) + 1) as i8
    };
    let k: usize = i % 12;
    let name: &'static str = if k == 0 {
        "A"
    } else if k == 1 {
        "A#"
    } else if k == 2 {
        "B"
    } else if k == 3 {
        "C"
    } else if k == 4 {
        "C#"
    } else if k == 5 {
        "D"
    } else if k == 6 {
        "D#"
    } else if k == 7 {
        "E"
    } else if k == 8 {
        "F"
    } else if k == 9 {
        "F#"
    } else if k == 10 {
        "G"
    } else {
        "G#"
    };
    let strings: u8 = if midi <= 34 {
        1
    } else if midi <= 56 {
        2
    } else {
        3
    };
    Note { midi, name, octave, strings }
}

/// Get a note by index (0 = A0, 87 = C8).
pub fn note_at(index: usize) -> (r: Option<Note>)
    ensures
        index < 88 ==> (r is Some && is_note_at(r->Some_0, index as int)),
        index >= 88 ==> r is None,
{
    if index < 88 {
        Some(make_note(index))
    } else {
        None
    }
}

/// Generate all 88 piano notes, in table order.
pub fn generate_notes() -> (r: Vec<Note>)
    ensures
        r@.len() == 88,
        forall|i: int| 0 <= i < 88 ==> is_note_at(#[trigger] r@[i], i),
{
    let mut notes: Vec<Note> = Vec::new();
    let mut i: usize = 0;
    while i < 88
        invariant
            i <= 88,
            notes@.len() == i,
            forall|j: int| 0 <= j < i ==> is_note_at(#[trigger] notes@[j], j),
        decreases 88 - i,
    {
        let n = make_note(i);
        notes.push(n);
        i = i + 1;
    }
    notes
}

} // verus!
