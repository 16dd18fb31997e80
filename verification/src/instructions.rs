//! Coaching steps and instruction text for the tuning workflow.
//!
//! Trichord notes (three strings) are tuned in four sub-steps: mute the
//! outer strings, tune the center string, then tune the left and right
//! strings to unison. Notes with one or two strings have a single implicit
//! step.

use vstd::prelude::*;
use vstd::string::StrSliceExecFns;
use vstd::string::StringExecFns;

verus! {

/// Whitespace for word splitting.
pub open spec fn spec_is_wspace(c: char) -> bool {
    c == ' ' || c == '\t' || c == '\n' || c == '\r'
}

/// Position just past the word starting at `i`: the first whitespace at or
/// after `i`, or the end of the text.
pub open spec fn spec_word_end(s: Seq<char>, i: int) -> int
    decreases s.len() - i,
{
    if i < 0 || i >= s.len() || spec_is_wspace(s[i]) {
        i
    } else {
        spec_word_end(s, i + 1)
    }
}

/// A word runs to at least its own start and at most the end of the text.
pub proof fn lemma_word_end_bounds(s: Seq<char>, i: int)
    requires
        0 <= i <= s.len(),
    ensures
        i <= spec_word_end(s, i) <= s.len(),
    decreases s.len() - i,
{
    if i < s.len() && !spec_is_wspace(s[i]) {
        lemma_word_end_bounds(s, i + 1);
    }
}

/// The whitespace-separated words of the text from position `i` on.
pub open spec fn spec_words_from(s: Seq<char>, i: int) -> Seq<Seq<char>>
    decreases s.len() - i
        when 0 <= i <= s.len()
        via spec_words_from_dec
{
    if i >= s.len() {
        Seq::empty()
    } else if spec_is_wspace(s[i]) {
        spec_words_from(s, i + 1)
    } else {
        seq![s.subrange(i, spec_word_end(s, i))] + spec_words_from(s, spec_word_end(s, i))
    }
}

#[via_fn]
proof fn spec_words_from_dec(s: Seq<char>, i: int) {
    if 0 <= i < s.len() && !spec_is_wspace(s[i]) {
        lemma_word_end_bounds(s, i + 1);
        assert(spec_word_end(s, i) == spec_word_end(s, i + 1));
    }
}

/// The whitespace-separated words of a text.
pub open spec fn spec_words(s: Seq<char>) -> Seq<Seq<char>> {
    spec_words_from(s, 0)
}

/// Greedy wrapping of a word list: each word joins the current line when it
/// fits after a separating space, and otherwise starts a new line. A word
/// longer than the width stands on a line of its own.
pub open spec fn spec_wrap_words(ws: Seq<Seq<char>>, width: int, cur: Seq<char>) -> Seq<Seq<char>>
    decreases ws.len(),
{
    if ws.len() == 0 {
        if cur.len() == 0 {
            Seq::empty()
        } else {
            seq![cur]
        }
    } else if cur.len() == 0 {
        spec_wrap_words(ws.drop_first(), width, ws.first())
    } else if cur.len() + 1 + ws.first().len() <= width {
        spec_wrap_words(ws.drop_first(), width, cur + " "@ + ws.first())
    } else {
        seq![cur] + spec_wrap_words(ws.drop_first(), width, ws.first())
    }
}

/// The lines of a text wrapped to a width, counted in characters.
pub open spec fn spec_textwrap(s: Seq<char>, width: int) -> Seq<Seq<char>> {
    spec_wrap_words(spec_words(s), width, Seq::empty())
}

/// The views of a list of strings.
pub open spec fn spec_views(ws: Seq<String>) -> Seq<Seq<char>> {
    ws.map_values(|w: String| w@)
}

/// Split a text into its whitespace-separated words.
fn split_words(text: &str) -> (r: Vec<String>)
    ensures
        spec_views(r@) == spec_words(text@),
{
    let n: usize = text.unicode_len();
    let mut words: Vec<String> = Vec::new();
    let mut i: usize = 0;
    proof {
        assert(spec_views(words@) =~= Seq::<Seq<char>>::empty());
    }
    while i < n
        invariant
            0 <= i <= n,
            n == text@.len(),
            spec_words(text@) == spec_views(words@) + spec_words_from(text@, i as int),
        decreases n - i,
    {
        let c: char = text.get_char(i);
        if c == ' ' || c == '\t' || c == '\n' || c == '\r' {
            i = i + 1;
        } else {
            let ghost wend: int = spec_word_end(text@, i as int);
            proof {
                lemma_word_end_bounds(text@, i as int);
            }
            let mut j: usize = i + 1;
            proof {
                assert(spec_word_end(text@, i as int) == spec_word_end(text@, i + 1));
            }
            while j < n
                invariant
                    i < j <= n,
                    n == text@.len(),
                    wend == spec_word_end(text@, j as int),
                    wend == spec_word_end(text@, i as int),
                ensures
                    i < j <= n,
                    wend == j as int,
                decreases n - j,
            {
                let c2: char = text.get_char(j);
                if c2 == ' ' || c2 == '\t' || c2 == '\n' || c2 == '\r' {
                    proof {
                        assert(spec_is_wspace(text@[j as int]));
                        assert(spec_word_end(text@, j as int) == j as int);
                    }
                    break ;
                }
                j = j + 1;
            }
            let w: &str = text.substring_char(i, j);
            let ghost words0: Seq<String> = words@;
            words.push(w.to_owned());
            proof {
                assert(spec_views(words@) =~= spec_views(words0) + seq![text@.subrange(
                    i as int,
                    j as int,
                )]);
            }
            i = j;
        }
    }
    proof {
        assert(spec_words(text@) =~= spec_views(words@));
    }
    words
}

/// Wrap a list of words into lines of at most `max_width` characters,
/// greedily.
fn wrap_words(words: &Vec<String>, max_width: usize) -> (r: Vec<String>)
    ensures
        spec_views(r@) == spec_wrap_words(spec_views(words@), max_width as int, Seq::<char>::empty()),
{
    let ghost ws: Seq<Seq<char>> = spec_views(words@);
    let mut lines: Vec<String> = Vec::new();
    let mut cur: String = String::new();
    let mut k: usize = 0;
    proof {
        assert(spec_views(lines@) =~= Seq::<Seq<char>>::empty());
        assert(ws.skip(0) =~= ws);
    }
    while k < words.len()
        invariant
            0 <= k <= words@.len(),
            ws == spec_views(words@),
            spec_wrap_words(ws, max_width as int, Seq::<char>::empty()) == spec_views(lines@)
                + spec_wrap_words(ws.skip(k as int), max_width as int, cur@),
        decreases words@.len() - k,
    {
        let ghost pre: Seq<Seq<char>> = ws.skip(k as int);
        proof {
            assert(pre.first() == ws[k as int]);
            assert(ws[k as int] == words@[k as int]@);
            assert(pre.drop_first() =~= ws.skip(k + 1));
        }
        let w: String = words[k].clone();
        if cur.as_str().is_empty() {
            cur = w;
        } else {
            let cl: usize = cur.as_str().unicode_len();
            let wl: usize = w.as_str().unicode_len();
            if (cl as u128) + 1 + (wl as u128) <= (max_width as u128) {
                cur.append(" ");
                cur.append(w.as_str());
            } else {
                let ghost lines0: Seq<String> = lines@;
                lines.push(cur);
                proof {
                    assert(spec_views(lines@) =~= spec_views(lines0) + seq![lines@.last()@]);
                }
                cur = w;
            }
        }
        k = k + 1;
    }
    proof {
        assert(ws.skip(words@.len() as int) =~= Seq::<Seq<char>>::empty());
    }
    if !cur.as_str().is_empty() {
        let ghost lines0: Seq<String> = lines@;
        lines.push(cur);
        proof {
            assert(spec_views(lines@) =~= spec_views(lines0) + seq![lines@.last()@]);
        }
    }
    proof {
        assert(spec_wrap_words(ws, max_width as int, Seq::<char>::empty()) =~= spec_views(
            lines@,
        ));
    }
    lines
}

/// Wrap a text into lines of at most `max_width` characters: split it into
/// whitespace-separated words and fill lines greedily, separating words on
/// one line with single spaces.
pub fn textwrap(text: &str, max_width: usize) -> (r: Vec<String>)
    ensures
        spec_views(r@) == spec_textwrap(text@, max_width as int),
{
    let words: Vec<String> = split_words(text);
    wrap_words(&words, max_width)
}

/// Step in the tuning process for trichord notes.
#[derive(Debug, Clone, Copy, PartialEq, Eq, Structural)]
pub enum TuningStep {
    /// Mute outer strings.
    MuteOuter,
    /// Tune center string.
    TuneCenter,
    /// Tune left string to unison.
    TuneLeft,
    /// Tune right string to unison.
    TuneRight,
}

/// Step title text.
pub open spec fn spec_step_title(s: TuningStep) -> Seq<char> {
    match s {
        TuningStep::MuteOuter => "Mute outer strings"@,
        TuningStep::TuneCenter => "Tune center string"@,
        TuningStep::TuneLeft => "Tune left string"@,
        TuningStep::TuneRight => "Tune right string"@,
    }
}

/// Step instruction text.
pub open spec fn spec_step_instruction(s: TuningStep) -> Seq<char> {
    match s {
        TuningStep::MuteOuter => "Use felt strip or rubber mutes to mute the outer strings. Only the center string should sound."@,
        TuningStep::TuneCenter => "Tune the center string to the target pitch using the meter above."@,
        TuningStep::TuneLeft => "Unmute the left string. Tune it to match the center string until you hear no beats."@,
        TuningStep::TuneRight => "Unmute the right string. Tune it to match the center string until you hear no beats."@,
    }
}

/// The step that follows `s`, if any: the four steps run in a fixed order
/// and stop after the right string.
pub open spec fn spec_next_step(s: TuningStep) -> Option<TuningStep> {
    match s {
        TuningStep::MuteOuter => Some(TuningStep::TuneCenter),
        TuningStep::TuneCenter => Some(TuningStep::TuneLeft),
        TuningStep::TuneLeft => Some(TuningStep::TuneRight),
        TuningStep::TuneRight => None,
    }
}

impl TuningStep {
    /// Get step number (1-4).
    pub fn number(&self) -> (r: u8)
        ensures
            r == match *self {
                TuningStep::MuteOuter => 1u8,
                TuningStep::TuneCenter => 2u8,
                TuningStep::TuneLeft => 3u8,
                TuningStep::TuneRight => 4u8,
            },
    {
        match self {
            TuningStep::MuteOuter => 1,
            TuningStep::TuneCenter => 2,
            TuningStep::TuneLeft => 3,
            TuningStep::TuneRight => 4,
        }
    }

    /// Get the step title.
    pub fn title(&self) -> (r: &'static str)
        ensures
            r@ == spec_step_title(*self),
    {
        match self {
            TuningStep::MuteOuter => "Mute outer strings",
            TuningStep::TuneCenter => "Tune center string",
            TuningStep::TuneLeft => "Tune left string",
            TuningStep::TuneRight => "Tune right string",
        }
    }

    /// Get instruction text.
    pub fn instruction(&self) -> (r: &'static str)
        ensures
            r@ == spec_step_instruction(*self),
    {
        match self {
            TuningStep::MuteOuter => "Use felt strip or rubber mutes to mute the outer strings. Only the center string should sound.",
            TuningStep::TuneCenter => "Tune the center string to the target pitch using the meter above.",
            TuningStep::TuneLeft => "Unmute the left string. Tune it to match the center string until you hear no beats.",
            TuningStep::TuneRight => "Unmute the right string. Tune it to match the center string until you hear no beats.",
        }
    }

    /// Get the next step.
    pub fn next(&self) -> (r: Option<TuningStep>)
        ensures
            r == spec_next_step(*self),
    {
        match self {
            TuningStep::MuteOuter => Some(TuningStep::TuneCenter),
            TuningStep::TuneCenter => Some(TuningStep::TuneLeft),
            TuningStep::TuneLeft => Some(TuningStep::TuneRight),
            TuningStep::TuneRight => None,
        }
    }
}

/// Instructions panel state for coaching the user. Deviations are measured
/// in milli-cents.
pub struct Instructions {
    /// Current sub-step, present only for trichord notes.
    pub step: Option<TuningStep>,
    /// Total number of sub-steps for the note.
    pub total_steps: u8,
    /// Advice on which way to turn the tuning pin, when clearly off pitch.
    pub direction_hint: Option<String>,
    /// Whether the note has three strings.
    pub is_trichord: bool,
}

/// Hint text shown when the pitch is flat: the pin must be tightened.
pub open spec fn spec_hint_flat() -> Seq<char> {
    "Turn tuning pin CLOCKWISE (tighten) slightly"@
}

/// Hint text shown when the pitch is sharp: the pin must be loosened.
pub open spec fn spec_hint_sharp() -> Seq<char> {
    "Turn tuning pin COUNTER-CLOCKWISE (loosen) slightly"@
}

impl Instructions {
    /// Create instructions for a trichord note.
    pub fn trichord(step: TuningStep) -> (r: Instructions)
        ensures
            r.step == Some(step),
            r.total_steps == 4,
            r.direction_hint is None,
            r.is_trichord,
    {
        Instructions { step: Some(step), total_steps: 4, direction_hint: None, is_trichord: true }
    }

    /// Create instructions for a non-trichord note (1-2 strings).
    pub fn simple() -> (r: Instructions)
        ensures
            r.step is None,
            r.total_steps == 1,
            r.direction_hint is None,
            !r.is_trichord,
    {
        Instructions { step: None, total_steps: 1, direction_hint: None, is_trichord: false }
    }

    /// Set a direction hint from a cents deviation (milli-cents): advice is
    /// given only when the deviation exceeds the 5-cent tolerance.
    pub fn with_direction_hint(self, cents: i64) -> (r: Instructions)
        ensures
            r.step == self.step,
            r.total_steps == self.total_steps,
            r.is_trichord == self.is_trichord,
            cents < -5000 ==> (r.direction_hint is Some
                && r.direction_hint->Some_0@ == spec_hint_flat()),
            cents > 5000 ==> (r.direction_hint is Some
                && r.direction_hint->Some_0@ == spec_hint_sharp()),
            -5000 <= cents <= 5000 ==> r.direction_hint == self.direction_hint,
    {
        if cents < -5000 {
            let hint: String = "Turn tuning pin CLOCKWISE (tighten) slightly".to_owned();
            Instructions { direction_hint: Some(hint), ..self }
        } else if cents > 5000 {
            let hint: String = "Turn tuning pin COUNTER-CLOCKWISE (loosen) slightly".to_owned();
            Instructions { direction_hint: Some(hint), ..self }
        } else {
            self
        }
    }
}

} // verus!
