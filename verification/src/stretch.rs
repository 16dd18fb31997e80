//! Stretch tuning (Railsback-style curve) for piano inharmonicity
//! compensation.
//!
//! Piano strings are inharmonic: their overtones are slightly sharper than
//! integer multiples of the fundamental, so tuners set the bass a little
//! flat and the treble a little sharp. The curve here is a smooth parabola
//! on either side of the keyboard's center, expressed in milli-cents.

use vstd::prelude::*;

verus! {

/// Stretch offset in milli-cents for a MIDI note: zero outside the piano
/// range, otherwise `20000 * d^2 / 44^2` milli-cents away from equal
/// temperament, flat below the center at MIDI 60 and sharp above it.
pub open spec fn spec_stretch_millicents(midi: int) -> int {
    if midi < 21 || midi > 108 {
        0
    } else if midi >= 60 {
        20000 * (midi - 60) * (midi - 60) / 1936
    } else {
        -(20000 * (60 - midi) * (60 - midi) / 1936)
    }
}

/// Stretch tuning curve over the 88 keys.
///
/// Holds one offset per key, each proved equal to
/// `spec_stretch_millicents` of the key's MIDI number.
#[derive(Debug)]
pub struct StretchCurve {
    /// Stretch values in milli-cents for each of the 88 keys.
    /// Index 0 = A0 (MIDI 21), index 87 = C8 (MIDI 108).
    offsets: Vec<i64>,
}

impl StretchCurve {
    /// The stored table matches the specification curve.
    #[verifier::type_invariant]
    pub closed spec fn wf(&self) -> bool {
        &&& self.offsets@.len() == 88
        &&& forall|i: int|
            0 <= i < 88 ==> #[trigger] self.offsets@[i] == spec_stretch_millicents(i + 21)
    }

    /// Create a new stretch curve with the default Railsback-inspired
    /// values.
    pub fn new() -> (r: StretchCurve)
    {
        StretchCurve { offsets: generate_railsback_curve() }
    }

    /// Get the stretch offset in milli-cents for a given MIDI note.
    /// Positive values = tune sharp, negative = tune flat; notes outside
    /// the piano range get no stretch.
    pub fn offset_cents(&self, midi_note: u8) -> (r: i64)
        ensures
            r == spec_stretch_millicents(midi_note as int),
    {
        proof {
            use_type_invariant(self);
        }
        if midi_note < 21 || midi_note > 108 {
            0
        } else {
            self.offsets[(midi_note - 21) as usize]
        }
    }

    /// Apply stretch to a base frequency in micro-hertz: scale it by the
    /// ratio that the note's stretch offset denotes.
    pub fn apply(&self, base_frequency: u64, midi_note: u8) -> (r: u64)
        requires
            1 <= base_frequency <= 0x100000000000000,
        ensures
            r == crate::temperament::spec_cents_to_frequency(
                base_frequency as int,
                spec_stretch_millicents(midi_note as int),
            ),
            base_frequency as int / 2 <= r <= 2 * base_frequency,
    {
        let cents_offset: i64 = self.offset_cents(midi_note);
        proof {
            lemma_stretch_small(midi_note as int);
        }
        let temperament = crate::temperament::Temperament::new();
        temperament.cents_to_frequency(base_frequency, cents_offset)
    }

    /// Get the stretch offset for a note by table index (0-87).
    pub fn offset_cents_by_index(&self, index: usize) -> (r: i64)
        ensures
            index < 88 ==> r == spec_stretch_millicents(index + 21),
            index >= 88 ==> r == 0,
    {
        proof {
            use_type_invariant(self);
        }
        if index < 88 {
            self.offsets[index]
        } else {
            0
        }
    }
}

impl Default for StretchCurve {
    fn default() -> (r: StretchCurve) {
        StretchCurve::new()
    }
}

/// Stretch for a single note, in milli-cents.
fn calculate_stretch(midi: u8) -> (r: i64)
    requires
        21 <= midi <= 108,
    ensures
        r == spec_stretch_millicents(midi as int),
{
    if midi >= 60 {
        let d: u64 = (midi - 60) as u64;
        proof {
            assert(20000 * d * d <= 46080000) by (nonlinear_arith)
                requires d <= 48;
        }
        ((20000 * d * d) / 1936) as i64
    } else {
        let d: u64 = (60 - midi) as u64;
        proof {
            assert(20000 * d * d <= 46080000) by (nonlinear_arith)
                requires d <= 48;
        }
        let mag: u64 = (20000 * d * d) / 1936;
        -(mag as i64)
    }
}

/// Build the full 88-entry curve.
fn generate_railsback_curve() -> (r: Vec<i64>)
    ensures
        r@.len() == 88,
        forall|i: int| 0 <= i < 88 ==> #[trigger] r@[i] == spec_stretch_millicents(i + 21),
{
    let mut offsets: Vec<i64> = Vec::new();
    let mut i: usize = 0;
    while i < 88
        invariant
            i <= 88,
            offsets@.len() == i,
            forall|j: int| 0 <= j < i ==> #[trigger] offsets@[j] == spec_stretch_millicents(j + 21),
        decreases 88 - i,
    {
        let v: i64 = calculate_stretch((i + 21) as u8);
        offsets.push(v);
        i = i + 1;
    }
    offsets
}

/// The curve stays within a quarter tone of equal temperament everywhere.
proof fn lemma_stretch_small(midi: int)
    ensures
        -25000 <= spec_stretch_millicents(midi) <= 25000,
{
    if 21 <= midi <= 108 {
        if midi >= 60 {
            let d = midi - 60;
            assert(20000 * d * d <= 46080000) by (nonlinear_arith)
                requires
                    0 <= d <= 48;
            vstd::arithmetic::div_mod::lemma_div_is_ordered(20000 * d * d, 46080000, 1936);
            vstd::arithmetic::div_mod::lemma_div_pos_is_pos(20000 * d * d, 1936);
            assert(20000 * d * d >= 0) by (nonlinear_arith)
                requires
                    d >= 0;
        } else {
            let d = 60 - midi;
            assert(20000 * d * d <= 46080000) by (nonlinear_arith)
                requires
                    0 <= d <= 48;
            vstd::arithmetic::div_mod::lemma_div_is_ordered(20000 * d * d, 46080000, 1936);
            vstd::arithmetic::div_mod::lemma_div_pos_is_pos(20000 * d * d, 1936);
            assert(20000 * d * d >= 0) by (nonlinear_arith)
                requires
                    d >= 0;
        }
    }
}

/// The stretch curve never decreases from bass to treble: a lower key is
/// never tuned sharper than a higher one.
pub proof fn lemma_stretch_monotonic(a: int, b: int)
    requires
        21 <= a <= b <= 108,
    ensures
        spec_stretch_millicents(a) <= spec_stretch_millicents(b),
{
    if a >= 60 {
        let da = a - 60;
        let db = b - 60;
        assert(20000 * da * da <= 20000 * db * db) by (nonlinear_arith)
            requires 0 <= da <= db;
        vstd::arithmetic::div_mod::lemma_div_is_ordered(
            20000 * da * da,
            20000 * db * db,
            1936,
        );
    } else if b < 60 {
        let da = 60 - a;
        let db = 60 - b;
        assert(20000 * db * db <= 20000 * da * da) by (nonlinear_arith)
            requires 0 <= db <= da;
        vstd::arithmetic::div_mod::lemma_div_is_ordered(
            20000 * db * db,
            20000 * da * da,
            1936,
        );
    } else {
        let da = 60 - a;
        let db = b - 60;
        assert(0 <= 20000 * db * db) by (nonlinear_arith)
            requires 0 <= db;
        assert(0 <= 20000 * da * da) by (nonlinear_arith)
            requires 0 <= da;
        vstd::arithmetic::div_mod::lemma_div_is_ordered(0, 20000 * db * db, 1936);
        vstd::arithmetic::div_mod::lemma_div_is_ordered(0, 20000 * da * da, 1936);
    }
}

/// The ends of the curve stay within the expected Railsback magnitudes:
/// about -15.7 cents at A0, exactly 0 at middle C, about +23.8 cents at C8.
pub proof fn lemma_stretch_bounds()
    ensures
        spec_stretch_millicents(60) == 0,
        -25000 < spec_stretch_millicents(21) < -10000,
        10000 < spec_stretch_millicents(108) < 25000,
{
    assert(spec_stretch_millicents(21) == -(20000 * 39 * 39 / 1936));
    assert(spec_stretch_millicents(108) == 20000 * 48 * 48 / 1936);
}

} // verus!
