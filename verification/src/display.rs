//! Keyboard geometry and progress readouts for presenting the session.
//!
//! The piano keyboard math maps note table indices (0 = A0) to white-key
//! columns: a standard keyboard shows 52 white keys, seven per octave
//! starting at A, and each black key sits over the gap to the right of a
//! white key. The renderer that draws these is outside the library; the
//! geometry itself is verified here.

use vstd::prelude::*;
use std::collections::HashSet;

verus! {

/// Whether the note at a table index (0 = A0) is a black key: the five
/// sharps of each octave.
pub open spec fn spec_is_black_key(i: int) -> bool {
    let k = i % 12;
    k == 1 || k == 4 || k == 6 || k == 9 || k == 11
}

/// White-key column of a white note: seven white keys per octave from A,
/// in the order A B C D E F G.
pub open spec fn spec_white_key_position(i: int) -> int {
    let k = i % 12;
    let offset: int = if k == 0 {
        0
    } else if k == 2 {
        1
    } else if k == 3 {
        2
    } else if k == 5 {
        3
    } else if k == 7 {
        4
    } else if k == 8 {
        5
    } else if k == 10 {
        6
    } else {
        0
    };
    (i / 12) * 7 + offset
}

/// White-key column to whose right gap a black note belongs.
pub open spec fn spec_black_key_white_position(i: int) -> int {
    let k = i % 12;
    let offset: int = if k == 1 {
        0
    } else if k == 4 {
        2
    } else if k == 6 {
        3
    } else if k == 9 {
        5
    } else if k == 11 {
        6
    } else {
        0
    };
    (i / 12) * 7 + offset
}

/// Piano keyboard display state: the highlighted note and, optionally, the
/// set of completed notes.
pub struct Piano {
    /// Currently active note index (0-87, where 0 = A0).
    pub current_note: usize,
    /// Set of completed note indices (for progress mode).
    pub completed: HashSet<usize>,
    /// Whether to show progress (completed keys lit).
    pub show_progress: bool,
}

impl Piano {
    /// Create a new piano centered on the given note.
    pub fn new(current_note: usize) -> (r: Piano)
        ensures
            r.current_note == current_note,
            !r.show_progress,
    {
        Piano { current_note, completed: HashSet::new(), show_progress: false }
    }

    /// Enable progress display with the given completed notes.
    pub fn with_progress(self, completed: HashSet<usize>) -> (r: Piano)
        ensures
            r.current_note == self.current_note,
            r.completed == completed,
            r.show_progress,
    {
        Piano { completed, show_progress: true, ..self }
    }

    /// Check if a note index is a black key.
    pub fn is_black_key(note_idx: usize) -> (r: bool)
        ensures
            r == spec_is_black_key(note_idx as int),
    {
        let k: usize = note_idx % 12;
        k == 1 || k == 4 || k == 6 || k == 9 || k == 11
    }

    /// Get the white key column for a white note.
    pub fn white_key_position(note_idx: usize) -> (r: usize)
        requires
            note_idx < 128,
        ensures
            r == spec_white_key_position(note_idx as int),
    {
        let octave: usize = note_idx / 12;
        let k: usize = note_idx % 12;
        let white_offset: usize = if k == 0 {
            0
        } else if k == 2 {
            1
        } else if k == 3 {
            2
        } else if k == 5 {
            3
        } else if k == 7 {
            4
        } else if k == 8 {
            5
        } else if k == 10 {
            6
        } else {
            0
        };
        octave * 7 + white_offset
    }

    /// Get the white key column whose right gap holds a black note.
    pub fn black_key_white_position(note_idx: usize) -> (r: usize)
        requires
            note_idx < 128,
        ensures
            r == spec_black_key_white_position(note_idx as int),
    {
        let octave: usize = note_idx / 12;
        let k: usize = note_idx % 12;
        let white_offset: usize = if k == 1 {
            0
        } else if k == 4 {
            2
        } else if k == 6 {
            3
        } else if k == 9 {
            5
        } else if k == 11 {
            6
        } else {
            0
        };
        octave * 7 + white_offset
    }
}

/// Progress readout for the tuning order: position, total, and the names
/// shown beside the bar.
pub struct Progress {
    /// Zero-based position in the order.
    pub current: usize,
    /// Total number of notes.
    pub total: usize,
    /// Display name of the current note.
    pub note_name: String,
    /// Name of the current phase (single, bichord, trichord).
    pub phase_name: String,
}

impl Progress {
    /// Create a new progress indicator.
    pub fn new(current: usize, total: usize, note_name: String, phase_name: String) -> (r:
        Progress)
        ensures
            r.current == current,
            r.total == total,
            r.note_name == note_name,
            r.phase_name == phase_name,
    {
        Progress { current, total, note_name, phase_name }
    }

    /// Progress in whole percent (0 to 100), zero when there is no total.
    pub fn percent(&self) -> (r: u8)
        ensures
            self.total == 0 ==> r == 0,
            self.total > 0 && self.current <= self.total ==> r == self.current as int * 100
                / self.total as int,
            r <= 100,
    {
        if self.total == 0 {
            return 0;
        }
        let c: usize = if self.current <= self.total {
            self.current
        } else {
            self.total
        };
        proof {
            assert((c as int) * 100 <= (self.total as int) * 100) by (nonlinear_arith)
                requires
                    0 <= c <= self.total;
            vstd::arithmetic::div_mod::lemma_div_is_ordered(
                (c as int) * 100,
                (self.total as int) * 100,
                self.total as int,
            );
            vstd::arithmetic::div_mod::lemma_div_by_multiple(100, self.total as int);
            vstd::arithmetic::div_mod::lemma_div_pos_is_pos((c as int) * 100, self.total as int);
            assert((self.total as int) * 100 == 100 * (self.total as int)) by (nonlinear_arith);
        }
        let v: u128 = (c as u128) * 100 / (self.total as u128);
        v as u8
    }
}

/// Compact progress readout for a header line.
pub struct CompactProgress {
    /// Display name of the current note.
    pub note_name: String,
    /// Zero-based position in the order.
    pub current: usize,
    /// Total number of notes.
    pub total: usize,
}

impl CompactProgress {
    /// Create a compact progress indicator.
    pub fn new(note_name: String, current: usize, total: usize) -> (r: CompactProgress)
        ensures
            r.note_name == note_name,
            r.current == current,
            r.total == total,
    {
        CompactProgress { note_name, current, total }
    }
}

/// Keyboard shortcut hints.
pub struct Shortcuts;

impl Shortcuts {
    /// Space key hint.
    pub const SPACE: &'static str = "[Space]";

    /// S key hint.
    pub const SKIP: &'static str = "[S]";

    /// Q key hint.
    pub const QUIT: &'static str = "[Q]";

    /// B key hint.
    pub const BACK: &'static str = "[B]";

    /// P key hint.
    pub const PIANO: &'static str = "[P]";

    /// Enter key hint.
    pub const ENTER: &'static str = "[Enter]";

    /// R key hint.
    pub const REFERENCE: &'static str = "[R]";

    /// Format a shortcut with its action: the key, a space, the action.
    pub fn format(key: &str, action: &str) -> (r: String)
        ensures
            r@ == key@ + " "@ + action@,
    {
        let mut s: String = key.to_owned();
        s.append(" ");
        s.append(action);
        s
    }
}

} // verus!
