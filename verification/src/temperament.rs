//! Equal temperament calculations in fixed-point integer arithmetic.
//!
//! Frequencies are carried in micro-hertz (1 Hz = 1000000 micro-hertz) and
//! pitch deviations in milli-cents (1 cent = 1000 milli-cents; 100 cents =
//! one semitone). The frequency of a MIDI note is `a4 * 2^((midi-69)/12)`:
//! the factor is decomposed into a whole number of octaves (an exact shift)
//! and one of twelve semitone ratios tabulated in Q16 fixed point, so the
//! octave relation between notes twelve semitones apart is exact by
//! construction. Base-two logarithms and exponentials for cents conversions
//! are computed digit by digit in Q32 fixed point, and each routine is
//! proved to return exactly the value of its specification function.

use vstd::prelude::*;
use vstd::arithmetic::power2::pow2;
use vstd::arithmetic::power2::lemma2_to64;
use vstd::arithmetic::power2::lemma_pow2_adds;
use vstd::arithmetic::div_mod::lemma_div_is_ordered;
use vstd::arithmetic::div_mod::lemma_fundamental_div_mod;

verus! {

/// Default A4 reference: concert pitch, 440 Hz.
pub const A4_DEFAULT_MICROHZ: u64 = 440000000;

/// Lowest accepted A4 reference (1 Hz), so that every note frequency stays
/// a positive number of micro-hertz and the rounded octave ratio stays
/// within one part in ten thousand of two.
pub const MIN_A4_MICROHZ: u64 = 1000000;

/// Highest accepted A4 reference (100 kHz), so that the fixed-point
/// frequency computation cannot overflow.
pub const MAX_A4_MICROHZ: u64 = 100000000000;

/// Ratio of the `j`-th semitone above a reference, `2^(j/12)`, rounded to
/// Q16 fixed point.
pub open spec fn spec_semitone_q16(j: int) -> int {
    if j == 0 {
        65536
    } else if j == 1 {
        69433
    } else if j == 2 {
        73562
    } else if j == 3 {
        77936
    } else if j == 4 {
        82570
    } else if j == 5 {
        87480
    } else if j == 6 {
        92682
    } else if j == 7 {
        98193
    } else if j == 8 {
        104032
    } else if j == 9 {
        110218
    } else if j == 10 {
        116772
    } else {
        123715
    }
}

/// Frequency of a MIDI note in micro-hertz scaled by 2^22, computed from the
/// A4 reference without any rounding beyond the Q16 semitone table: writing
/// `midi + 3 = 12 * q + j`, the value is `a4 * 2^(j/12) * 2^q / 2^6`
/// before the final 2^22 scale, i.e. `a4 * semitone(j) * 2^q` here.
pub open spec fn spec_frequency_scaled(a4: int, midi: int) -> int {
    a4 * spec_semitone_q16((midi + 3) % 12) * pow2(((midi + 3) / 12) as nat)
}

/// Frequency of a MIDI note in micro-hertz, rounded down.
pub open spec fn spec_frequency_micro(a4: int, midi: int) -> int {
    spec_frequency_scaled(a4, midi) / 0x400000
}

/// Semitone ratio lookup.
fn semitone_q16(j: usize) -> (r: u64)
    requires
        j < 12,
    ensures
        r == spec_semitone_q16(j as int),
        65536 <= r <= 123715,
{
    if j == 0 {
        65536
    } else if j == 1 {
        69433
    } else if j == 2 {
        73562
    } else if j == 3 {
        77936
    } else if j == 4 {
        82570
    } else if j == 5 {
        87480
    } else if j == 6 {
        92682
    } else if j == 7 {
        98193
    } else if j == 8 {
        104032
    } else if j == 9 {
        110218
    } else if j == 10 {
        116772
    } else {
        123715
    }
}

/// Small power of two, as a value.
fn pow2_small(e: usize) -> (r: u64)
    requires
        e <= 32,
    ensures
        r == pow2(e as nat),
        r >= 1,
{
    proof {
        lemma2_to64();
    }
    if e == 0 {
        1
    } else if e == 1 {
        2
    } else if e == 2 {
        4
    } else if e == 3 {
        8
    } else if e == 4 {
        16
    } else if e == 5 {
        32
    } else if e == 6 {
        64
    } else if e == 7 {
        128
    } else if e == 8 {
        256
    } else if e == 9 {
        512
    } else if e == 10 {
        1024
    } else if e == 11 {
        2048
    } else if e == 12 {
        4096
    } else if e == 13 {
        8192
    } else if e == 14 {
        16384
    } else if e == 15 {
        32768
    } else if e == 16 {
        65536
    } else if e == 17 {
        131072
    } else if e == 18 {
        262144
    } else if e == 19 {
        524288
    } else if e == 20 {
        1048576
    } else if e == 21 {
        2097152
    } else if e == 22 {
        4194304
    } else if e == 23 {
        8388608
    } else if e == 24 {
        16777216
    } else if e == 25 {
        33554432
    } else if e == 26 {
        67108864
    } else if e == 27 {
        134217728
    } else if e == 28 {
        268435456
    } else if e == 29 {
        536870912
    } else if e == 30 {
        1073741824
    } else if e == 31 {
        2147483648
    } else {
        4294967296
    }
}

/// Equal temperament calculator, parameterized by the A4 reference.
#[derive(Debug, Clone, Copy)]
pub struct Temperament {
    /// Reference frequency for A4, in micro-hertz.
    a4_micro: u64,
}

impl Temperament {
    /// The reference is held within the representable band.
    #[verifier::type_invariant]
    pub closed spec fn wf(&self) -> bool {
        MIN_A4_MICROHZ <= self.a4_micro <= MAX_A4_MICROHZ
    }

    /// The A4 reference in micro-hertz, for specification purposes.
    pub closed spec fn spec_a4(&self) -> int {
        self.a4_micro as int
    }

    /// Create a new temperament with A4 = 440 Hz.
    pub fn new() -> (r: Temperament)
        ensures
            r.spec_a4() == A4_DEFAULT_MICROHZ,
    {
        Temperament { a4_micro: A4_DEFAULT_MICROHZ }
    }

    /// Create a temperament with a custom A4 reference in micro-hertz.
    pub fn with_a4(a4_micro: u64) -> (r: Temperament)
        requires
            MIN_A4_MICROHZ <= a4_micro <= MAX_A4_MICROHZ,
        ensures
            r.spec_a4() == a4_micro,
    {
        Temperament { a4_micro }
    }

    /// Get the A4 reference frequency in micro-hertz.
    pub fn a4(&self) -> (r: u64)
        ensures
            r == self.spec_a4(),
            MIN_A4_MICROHZ <= r <= MAX_A4_MICROHZ,
    {
        proof {
            use_type_invariant(self);
        }
        self.a4_micro
    }

    /// Calculate the frequency for a given MIDI note number, in
    /// micro-hertz: `a4 * 2^((midi - 69) / 12)`, rounded down to the
    /// micro-hertz.
    pub fn frequency(&self, midi_note: u8) -> (r: u64)
        ensures
            r == spec_frequency_micro(self.spec_a4(), midi_note as int),
            15625 <= r <= 6185750000000000,
    {
        proof {
            use_type_invariant(self);
        }
        let t: usize = midi_note as usize + 3;
        let j: usize = t % 12;
        let q: usize = t / 12;
        let ratio: u64 = semitone_q16(j);
        let p: u64 = pow2_small(q);
        proof {
            lemma2_to64();
            assert(q <= 21 && p <= 0x200000) by {
                vstd::arithmetic::power2::lemma_pow2_strictly_increases(q as nat, 22);
            }
            assert(self.a4_micro * ratio <= 12371500000000000) by (nonlinear_arith)
                requires
                    self.a4_micro <= 100000000000,
                    ratio <= 123715,
                    self.a4_micro >= 0,
                    ratio >= 0;
            assert(self.a4_micro * ratio * p <= 25944915968000000000000) by (nonlinear_arith)
                requires
                    self.a4_micro * ratio <= 12371500000000000,
                    p <= 0x200000,
                    self.a4_micro * ratio >= 0,
                    p >= 0;
            assert(self.a4_micro * ratio * p >= 65536000000) by (nonlinear_arith)
                requires
                    self.a4_micro >= 1000000,
                    ratio >= 65536,
                    p >= 1;
        }
        let scaled: u128 = (self.a4_micro as u128) * (ratio as u128) * (p as u128);
        let r: u64 = (scaled / 0x400000) as u64;
        proof {
            lemma_div_is_ordered(65536000000, scaled as int, 0x400000);
            lemma_div_is_ordered(scaled as int, 25944915968000000000000, 0x400000);
            assert(25944915968000000000000int / 0x400000 == 6185750000000000) by {
                vstd::arithmetic::div_mod::lemma_fundamental_div_mod_converse(
                    25944915968000000000000,
                    0x400000,
                    6185750000000000,
                    0,
                );
            }
        }
        r
    }

    /// Calculate the frequency for a note.
    pub fn frequency_for_note(&self, note: &crate::notes::Note) -> (r: u64)
        ensures
            r == spec_frequency_micro(self.spec_a4(), note.midi as int),
            15625 <= r <= 6185750000000000,
    {
        self.frequency(note.midi)
    }

    /// Convert a frequency to cents deviation from a target frequency,
    /// both in micro-hertz, the result in milli-cents. Positive = sharp,
    /// negative = flat, zero exactly at equality.
    pub fn cents_from_target(&self, frequency: u64, target: u64) -> (r: i64)
        requires
            1 <= frequency,
            1 <= target,
        ensures
            r == spec_cents_from_target(frequency as int, target as int),
            -76800000 <= r <= 76800000,
            frequency == target ==> r == 0,
            r > 0 ==> frequency > target,
            r < 0 ==> frequency < target,
    {
        cents_from_target_micro(frequency, target)
    }

    /// Convert a frequency (micro-hertz) to its cents deviation
    /// (milli-cents) from the tempered pitch of a MIDI note.
    pub fn frequency_to_cents(&self, frequency: u64, midi_note: u8) -> (r: i64)
        requires
            1 <= frequency,
        ensures
            r == spec_cents_from_target(
                frequency as int,
                spec_frequency_micro(self.spec_a4(), midi_note as int),
            ),
            -76800000 <= r <= 76800000,
    {
        let target: u64 = self.frequency(midi_note);
        cents_from_target_micro(frequency, target)
    }

    /// Convert a cents offset (milli-cents) to a frequency ratio in Q32
    /// fixed point (`0x100000000` = ratio one).
    pub fn cents_to_ratio(cents: i64) -> (r: u64)
        requires
            -6000000 <= cents <= 6000000,
        ensures
            r == spec_ratio_q32(cents as int),
            0x8000000 <= r <= 274877906240,
            cents >= -1200000 ==> r >= 0x80000000,
            cents < 1200000 ==> r <= 8589934570,
    {
        proof {
            lemma2_to64();
        }
        let dr = div_floor_cents(cents);
        let oct: i64 = dr.0;
        let rem: i64 = dr.1;
        let fr_num: u64 = (rem as u64) * 0x100000000;
        let frac: u64 = fr_num / 1200000;
        proof {
            lemma_fundamental_div_mod(fr_num as int, 1200000);
            assert(frac < 0x100000000) by (nonlinear_arith)
                requires
                    fr_num as int == (frac as int) * 1200000 + (fr_num as int) % 1200000,
                    0 <= (fr_num as int) % 1200000 < 1200000,
                    fr_num < 1200000 * 0x100000000;
        }
        let acc: u64 = exp2_frac_q32(frac);
        proof {
            if cents >= -1200000 {
                lemma_div_is_ordered(-1200000, cents as int, 1200000);
            }
            if cents < 1200000 {
                lemma_div_is_ordered(cents as int, 1199999, 1200000);
            }
            assert((-1200000) / 1200000 == -1) by {
                vstd::arithmetic::div_mod::lemma_fundamental_div_mod_converse(
                    -1200000,
                    1200000,
                    -1,
                    0,
                );
            }
            assert(1199999int / 1200000 == 0) by {
                vstd::arithmetic::div_mod::lemma_fundamental_div_mod_converse(
                    1199999,
                    1200000,
                    0,
                    1199999,
                );
            }
        }
        if oct >= 0 {
            let p: u64 = pow2_small(oct as usize);
            proof {
                assert(p <= 32) by {
                    lemma2_to64();
                    if oct > 5 {
                        assert(false);
                    }
                }
                if cents < 1200000 {
                    assert(oct == 0);
                    assert(p == 1) by {
                        lemma2_to64();
                    }
                    assert(acc * 1 == acc) by (nonlinear_arith);
                }
                assert(acc * p >= acc * 1) by (nonlinear_arith)
                    requires
                        acc >= 0,
                        p >= 1;
                assert(acc * 1 == acc) by (nonlinear_arith);
                assert(acc * p <= 8589934570 * 32) by (nonlinear_arith)
                    requires
                        0 <= acc <= 8589934570,
                        0 <= p <= 32;
                assert(acc * p >= acc) by (nonlinear_arith)
                    requires
                        acc >= 0,
                        p >= 1;
            }
            acc * p
        } else {
            let s: i64 = -oct;
            let p: u64 = pow2_small(s as usize);
            proof {
                assert(p >= 1);
                if cents >= -1200000 {
                    assert(oct == -1);
                    assert(p == 2) by {
                        lemma2_to64();
                    }
                    lemma_div_is_ordered(0x100000000 as int, acc as int, 2);
                }
                vstd::arithmetic::div_mod::lemma_div_is_ordered_by_denominator(
                    acc as int,
                    1,
                    p as int,
                );
                vstd::arithmetic::div_mod::lemma_div_basics(1);
                lemma_div_is_ordered(0x100000000 as int, acc as int, p as int);
                assert(0x100000000 as int / (p as int) >= 0x8000000) by {
                    lemma2_to64();
                    assert(p <= 32) by {
                        if s > 5 {
                            assert(false);
                        }
                    }
                    vstd::arithmetic::div_mod::lemma_div_is_ordered_by_denominator(0x100000000, p as int, 32);
                }
                lemma_div_is_ordered(acc as int, 8589934570, p as int);
                vstd::arithmetic::div_mod::lemma_div_basics(p as int);
            }
            acc / p
        }
    }

    /// Convert a cents offset to a frequency: the target (micro-hertz)
    /// scaled by `2^(cents / 1200000)`, rounded down.
    pub fn cents_to_frequency(&self, target: u64, cents: i64) -> (r: u64)
        requires
            1 <= target <= 0x100000000000000,
            -6000000 <= cents <= 6000000,
        ensures
            r == spec_cents_to_frequency(target as int, cents as int),
            r <= 0x4000000000000000,
            cents >= -1200000 ==> r >= target as int / 2,
            cents < 1200000 ==> r <= 2 * target,
    {
        let ratio: u64 = Self::cents_to_ratio(cents);
        proof {
            let t = target as int;
            let ri = ratio as int;
            assert(t * ri <= 0x100000000000000 * 274877906240) by (nonlinear_arith)
                requires
                    0 <= t <= 0x100000000000000,
                    0 <= ri <= 274877906240;
            lemma_div_is_ordered(t * ri, (0x100000000000000 * 274877906240) as int, 0x100000000);
            if cents >= -1200000 {
                assert(t * ri >= t * 0x80000000) by (nonlinear_arith)
                    requires
                        t >= 0,
                        ri >= 0x80000000;
                lemma_div_is_ordered(t * 0x80000000, t * ri, 0x100000000);
                assert(t * 0x80000000 / 0x100000000 == t / 2) by {
                    lemma_fundamental_div_mod(t, 2);
                    vstd::arithmetic::div_mod::lemma_fundamental_div_mod_converse(
                        t * 0x80000000,
                        0x100000000,
                        t / 2,
                        (t % 2) * 0x80000000,
                    );
                    assert(t * 0x80000000 == (t / 2) * 0x100000000 + (t % 2) * 0x80000000) by (
                    nonlinear_arith)
                        requires
                            t == 2 * (t / 2) + t % 2;
                }
            }
            if cents < 1200000 {
                assert(t * ri <= t * 8589934570) by (nonlinear_arith)
                    requires
                        t >= 0,
                        ri <= 8589934570;
                lemma_div_is_ordered(t * ri, t * 8589934570, 0x100000000);
                assert(t * 8589934570 / 0x100000000 <= 2 * t) by {
                    assert(t * 8589934570 <= (2 * t) * 0x100000000) by (nonlinear_arith)
                        requires
                            t >= 0;
                    lemma_div_is_ordered(t * 8589934570, (2 * t) * 0x100000000, 0x100000000);
                    vstd::arithmetic::div_mod::lemma_div_by_multiple(2 * t, 0x100000000);
                }
            }
        }
        (((target as u128) * (ratio as u128)) / 0x100000000) as u64
    }

    /// Find the nearest MIDI note for a frequency in micro-hertz. Returns
    /// the MIDI number (clamped to 0..=255) and the cents deviation
    /// (milli-cents) of the frequency from that note's tempered pitch.
    pub fn nearest_note(&self, frequency: u64) -> (r: (u8, i64))
        requires
            1 <= frequency,
        ensures
            r.0 == spec_nearest_midi(self.spec_a4(), frequency as int),
            r.1 == spec_cents_from_target(
                frequency as int,
                spec_frequency_micro(self.spec_a4(), r.0 as int),
            ),
    {
        proof {
            use_type_invariant(self);
        }
        let a4v: u64 = self.a4_micro;
        let num: i128 = if frequency >= a4v {
            let l: u64 = pos_log2_q32(frequency, a4v);
            69i128 * 0x100000000 + 12 * (l as i128) + 0x80000000
        } else {
            let l: u64 = pos_log2_q32(a4v, frequency);
            69i128 * 0x100000000 - 12 * (l as i128) + 0x80000000
        };
        let rounded: i128 = if num >= 0 {
            num / 0x100000000
        } else {
            let m: i128 = -num;
            let qc: i128 = (m + 0xFFFFFFFF) / 0x100000000;
            proof {
                lemma_fundamental_div_mod(m + 0xFFFFFFFF, 0x100000000);
                vstd::arithmetic::div_mod::lemma_fundamental_div_mod_converse(
                    num as int,
                    0x100000000,
                    -(qc as int),
                    (qc as int) * 0x100000000 - (m as int),
                );
            }
            -qc
        };
        let midi: u8 = if rounded < 0 {
            0
        } else if rounded > 255 {
            255
        } else {
            rounded as u8
        };
        let target: u64 = self.frequency(midi);
        let cents: i64 = cents_from_target_micro(frequency, target);
        (midi, cents)
    }
}

/// Signed `log2(f / a4)` in Q32 fixed point.
pub open spec fn spec_signed_log2_q32(a4: int, f: int) -> int {
    if f >= a4 {
        spec_pos_log2_q32(f, a4)
    } else {
        -spec_pos_log2_q32(a4, f)
    }
}

/// The nearest MIDI note to a frequency: `69 + 12 * log2(f / a4)` rounded
/// to the nearest integer, clamped into the MIDI range.
pub open spec fn spec_nearest_midi(a4: int, f: int) -> int {
    let rounded = (69 * 0x100000000 + 12 * spec_signed_log2_q32(a4, f) + 0x80000000)
        / 0x100000000;
    if rounded < 0 {
        0
    } else if rounded > 255 {
        255
    } else {
        rounded
    }
}

impl Default for Temperament {
    fn default() -> (r: Temperament)
        ensures
            r.spec_a4() == A4_DEFAULT_MICROHZ,
    {
        Temperament::new()
    }
}

/// Largest `e` with `t * 2^e <= f`, for `f >= t >= 1`: the whole-octave
/// part of `log2(f / t)`.
pub open spec fn spec_log2_floor(f: int, t: int) -> int
    decreases f - t,
{
    if t >= 1 && f >= t {
        if f < 2 * t {
            0
        } else {
            1 + spec_log2_floor(f, 2 * t)
        }
    } else {
        0
    }
}

/// Fractional binary digits of `log2` of a Q32 mantissa in `[1, 2)`,
/// extracted by `n` rounds of squaring: the classical digit-by-digit
/// logarithm. The result is the `n`-bit fraction, most significant bit
/// first.
pub open spec fn spec_log2_bits(x: int, n: nat) -> int
    decreases n,
{
    if n == 0 {
        0
    } else {
        let y = x * x / 0x100000000;
        if y >= 0x200000000 {
            pow2((n - 1) as nat) + spec_log2_bits(y / 2, (n - 1) as nat)
        } else {
            spec_log2_bits(y, (n - 1) as nat)
        }
    }
}

/// The Q32 mantissa of `f / t`: the ratio normalized into `[1, 2)` by the
/// whole-octave part, in Q32 fixed point.
pub open spec fn spec_mant_q32(f: int, t: int) -> int {
    f * 0x100000000 / (t * pow2(spec_log2_floor(f, t) as nat))
}

/// `log2(f / t)` in Q32 fixed point, for `f >= t >= 1`: whole octaves plus
/// 32 fractional digits.
pub open spec fn spec_pos_log2_q32(f: int, t: int) -> int {
    spec_log2_floor(f, t) * 0x100000000 + spec_log2_bits(spec_mant_q32(f, t), 32)
}

/// Cents deviation of a frequency from a target, in milli-cents:
/// `1200 * log2(f / t)` cents, computed in Q32 and rounded toward zero.
/// Positive = sharp, negative = flat.
pub open spec fn spec_cents_from_target(f: int, t: int) -> int {
    if f >= t {
        1200000 * spec_pos_log2_q32(f, t) / 0x100000000
    } else {
        -(1200000 * spec_pos_log2_q32(t, f) / 0x100000000)
    }
}

/// `log2(f / t)` in Q32 fixed point, for `1 <= t <= f`.
fn pos_log2_q32(f: u64, t: u64) -> (r: u64)
    requires
        1 <= t <= f,
    ensures
        r == spec_pos_log2_q32(f as int, t as int),
        r < 64 * 0x100000000,
{
    proof {
        lemma2_to64();
        vstd::arithmetic::power2::lemma2_to64_rest();
    }
    let mut e: u64 = 0;
    let mut tt: u64 = t;
    while tt <= f / 2
        invariant
            1 <= tt <= f,
            t >= 1,
            tt == t * pow2(e as nat),
            spec_log2_floor(f as int, t as int) == e + spec_log2_floor(f as int, tt as int),
            e <= 63,
        decreases f - tt,
    {
        proof {
            lemma_pow2_adds(e as nat, 1);
            lemma2_to64();
            lemma_fundamental_div_mod(f as int, 2);
            assert(2 * (tt as int) <= f as int);
            assert(t * pow2((e + 1) as nat) == 2 * (t * pow2(e as nat))) by (nonlinear_arith)
                requires
                    pow2((e + 1) as nat) == 2 * pow2(e as nat);
            if e >= 63 {
                vstd::arithmetic::power2::lemma2_to64_rest();
                assert(t * pow2(63) >= pow2(63)) by (nonlinear_arith)
                    requires
                        t >= 1,
                        pow2(63) > 0;
                assert(false);
            }
        }
        tt = 2 * tt;
        e = e + 1;
    }
    proof {
        lemma_fundamental_div_mod(f as int, 2);
        assert(f < 2 * (tt as int));
        assert(spec_log2_floor(f as int, tt as int) == 0);
        assert(spec_log2_floor(f as int, t as int) == e);
    }
    let x0: u128 = ((f as u128) * 0x100000000) / (tt as u128);
    proof {
        let fi = (f as u128 * 0x100000000) as int;
        lemma_fundamental_div_mod(fi, tt as int);
        assert(x0 >= 0x100000000) by (nonlinear_arith)
            requires
                fi == (x0 as int) * (tt as int) + fi % (tt as int),
                0 <= fi % (tt as int) < tt as int,
                fi >= (tt as int) * 0x100000000,
                tt >= 1,
                x0 as int == fi / (tt as int);
        assert(x0 < 0x200000000) by (nonlinear_arith)
            requires
                fi == (x0 as int) * (tt as int) + fi % (tt as int),
                0 <= fi % (tt as int) < tt as int,
                fi < (tt as int) * 0x200000000,
                tt >= 1;
        assert(x0 as int == spec_mant_q32(f as int, t as int));
    }
    let ghost x0i: int = x0 as int;
    let mut x: u128 = x0;
    let mut frac: u64 = 0;
    let mut k: usize = 0;
    while k < 32
        invariant
            k <= 32,
            0x100000000 <= x < 0x200000000,
            frac < pow2(k as nat),
            spec_log2_bits(x0i, 32) == frac * pow2((32 - k) as nat) + spec_log2_bits(
                x as int,
                (32 - k) as nat,
            ),
        decreases 32 - k,
    {
        proof {
            lemma2_to64();
            assert(x * x < 0x40000000000000000) by (nonlinear_arith)
                requires
                    x < 0x200000000;
        }
        let y: u128 = (x * x) / 0x100000000;
        proof {
            let xi = x as int;
            lemma_fundamental_div_mod(xi * xi, 0x100000000);
            assert(y >= 0x100000000) by (nonlinear_arith)
                requires
                    xi * xi == (y as int) * 0x100000000 + (xi * xi) % 0x100000000,
                    0 <= (xi * xi) % 0x100000000 < 0x100000000,
                    xi >= 0x100000000;
            assert(y < 0x400000000) by (nonlinear_arith)
                requires
                    xi * xi == (y as int) * 0x100000000 + (xi * xi) % 0x100000000,
                    0 <= (xi * xi) % 0x100000000 < 0x100000000,
                    0 <= xi < 0x200000000;
        }
        let ghost m: nat = (32 - k) as nat;
        let ghost frac0: int = frac as int;
        let ghost x_old: int = x as int;
        if y >= 0x200000000 {
            x = y / 2;
            frac = 2 * frac + 1;
        } else {
            x = y;
            frac = 2 * frac;
        }
        k = k + 1;
        proof {
            vstd::arithmetic::power2::lemma_pow2_unfold(m);
            assert(pow2(m) == 2 * pow2((m - 1) as nat));
            let p1 = pow2((m - 1) as nat) as int;
            if y >= 0x200000000 {
                assert(spec_log2_bits(x_old, m) == p1 + spec_log2_bits(x as int, (m - 1) as nat));
                assert((2 * frac0 + 1) * p1 == frac0 * (2 * p1) + p1) by (nonlinear_arith);
            } else {
                assert(spec_log2_bits(x_old, m) == spec_log2_bits(x as int, (m - 1) as nat));
                assert((2 * frac0) * p1 == frac0 * (2 * p1)) by (nonlinear_arith);
            }
        }
    }
    proof {
        lemma2_to64();
        assert(pow2(0) == 1);
        assert(frac * pow2(0) == frac) by (nonlinear_arith)
            requires
                pow2(0) == 1;
        assert(spec_log2_bits(x0i, 32) == frac);
        assert(frac < 0x100000000);
    }
    e * 0x100000000 + frac
}

/// The `i`-th constant of the digit-by-digit Q32 exponential,
/// `2^(2^-i)` rounded to Q32, for `i` in 1..=32.
pub open spec fn spec_exp2_const(i: int) -> int {
    if i == 1 {
        6074001000
    } else if i == 2 {
        5107605667
    } else if i == 3 {
        4683695048
    } else if i == 4 {
        4485121744
    } else if i == 5 {
        4389014833
    } else if i == 6 {
        4341736423
    } else if i == 7 {
        4318288544
    } else if i == 8 {
        4306612134
    } else if i == 9 {
        4300785774
    } else if i == 10 {
        4297875550
    } else if i == 11 {
        4296421177
    } else if i == 12 {
        4295694175
    } else if i == 13 {
        4295330720
    } else if i == 14 {
        4295149004
    } else if i == 15 {
        4295058149
    } else if i == 16 {
        4295012722
    } else if i == 17 {
        4294990009
    } else if i == 18 {
        4294978653
    } else if i == 19 {
        4294972974
    } else if i == 20 {
        4294970135
    } else if i == 21 {
        4294968716
    } else if i == 22 {
        4294968006
    } else if i == 23 {
        4294967651
    } else if i == 24 {
        4294967473
    } else if i == 25 {
        4294967385
    } else if i == 26 {
        4294967340
    } else if i == 27 {
        4294967318
    } else if i == 28 {
        4294967307
    } else if i == 29 {
        4294967302
    } else if i == 30 {
        4294967299
    } else if i == 31 {
        4294967297
    } else {
        4294967297
    }
}

/// Upper bound on the exponential accumulator before processing digit `i`:
/// the running product of the constants, rounded down at each step. The
/// final bound stays below 2^33.
pub open spec fn spec_exp2_bound(i: int) -> int {
    if i <= 1 {
        4294967296
    } else if i == 2 {
        6074001000
    } else if i == 3 {
        7223245205
    } else if i == 4 {
        7877004751
    } else if i == 5 {
        8225749546
    } else if i == 6 {
        8405870005
    } else if i == 7 {
        8497403927
    } else if i == 8 {
        8543543990
    } else if i == 9 {
        8566707888
    } else if i == 10 {
        8578313378
    } else if i == 11 {
        8584122016
    } else if i == 12 {
        8587027810
    } else if i == 13 {
        8588481076
    } else if i == 14 {
        8589207801
    } else if i == 15 {
        8589571186
    } else if i == 16 {
        8589752884
    } else if i == 17 {
        8589843734
    } else if i == 18 {
        8589889159
    } else if i == 19 {
        8589911872
    } else if i == 20 {
        8589923227
    } else if i == 21 {
        8589928904
    } else if i == 22 {
        8589931743
    } else if i == 23 {
        8589933162
    } else if i == 24 {
        8589933871
    } else if i == 25 {
        8589934224
    } else if i == 26 {
        8589934401
    } else if i == 27 {
        8589934488
    } else if i == 28 {
        8589934531
    } else if i == 29 {
        8589934552
    } else if i == 30 {
        8589934563
    } else if i == 31 {
        8589934568
    } else if i == 32 {
        8589934569
    } else {
        8589934570
    }
}

/// Exponential constant lookup.
fn exp2_const(i: usize) -> (r: u64)
    requires
        1 <= i <= 32,
    ensures
        r == spec_exp2_const(i as int),
        0x100000000 <= r <= 6074001000,
{
    if i == 1 {
        6074001000
    } else if i == 2 {
        5107605667
    } else if i == 3 {
        4683695048
    } else if i == 4 {
        4485121744
    } else if i == 5 {
        4389014833
    } else if i == 6 {
        4341736423
    } else if i == 7 {
        4318288544
    } else if i == 8 {
        4306612134
    } else if i == 9 {
        4300785774
    } else if i == 10 {
        4297875550
    } else if i == 11 {
        4296421177
    } else if i == 12 {
        4295694175
    } else if i == 13 {
        4295330720
    } else if i == 14 {
        4295149004
    } else if i == 15 {
        4295058149
    } else if i == 16 {
        4295012722
    } else if i == 17 {
        4294990009
    } else if i == 18 {
        4294978653
    } else if i == 19 {
        4294972974
    } else if i == 20 {
        4294970135
    } else if i == 21 {
        4294968716
    } else if i == 22 {
        4294968006
    } else if i == 23 {
        4294967651
    } else if i == 24 {
        4294967473
    } else if i == 25 {
        4294967385
    } else if i == 26 {
        4294967340
    } else if i == 27 {
        4294967318
    } else if i == 28 {
        4294967307
    } else if i == 29 {
        4294967302
    } else if i == 30 {
        4294967299
    } else if i == 31 {
        4294967297
    } else {
        4294967297
    }
}

/// One step of the accumulator bound is preserved by one multiplication.
proof fn lemma_exp2_bound_step(i: int)
    requires
        1 <= i <= 32,
    ensures
        spec_exp2_bound(i) * spec_exp2_const(i) / 0x100000000 <= spec_exp2_bound(i + 1),
{
}

/// The Q32 exponential of the fractional digits `frac` (Q32, most
/// significant digit first), from digit `i` on, starting at accumulator
/// `acc`: multiply by `2^(2^-i)` for every set digit.
pub open spec fn spec_exp2_from(acc: int, frac: int, i: int) -> int
    decreases 33 - i,
{
    if i < 1 || i >= 33 {
        acc
    } else {
        spec_exp2_from(
            if frac / (pow2((32 - i) as nat) as int) % 2 == 1 {
                acc * spec_exp2_const(i) / 0x100000000
            } else {
                acc
            },
            frac,
            i + 1,
        )
    }
}

/// `2^(frac / 2^32)` in Q32 fixed point, for a fraction in `[0, 1)`.
pub open spec fn spec_exp2_frac_q32(frac: int) -> int {
    spec_exp2_from(0x100000000, frac, 1)
}

/// `2^(cents / 1200000)` in Q32 fixed point: the frequency ratio that a
/// cents offset denotes. The offset is split into whole octaves (an exact
/// shift) and a fractional part evaluated digit by digit.
pub open spec fn spec_ratio_q32(cents: int) -> int {
    let oct = cents / 1200000;
    let rem = cents % 1200000;
    let acc = spec_exp2_frac_q32(rem * 0x100000000 / 1200000);
    if oct >= 0 {
        acc * pow2(oct as nat)
    } else {
        acc / (pow2((-oct) as nat) as int)
    }
}

/// A target frequency in micro-hertz moved by a cents offset:
/// `target * 2^(cents / 1200000)`, rounded down.
pub open spec fn spec_cents_to_frequency(target: int, cents: int) -> int {
    target * spec_ratio_q32(cents) / 0x100000000
}

/// The Q32 exponential of a Q32 fraction.
fn exp2_frac_q32(frac: u64) -> (r: u64)
    requires
        frac < 0x100000000,
    ensures
        r == spec_exp2_frac_q32(frac as int),
        0x100000000 <= r <= 8589934570,
{
    let mut acc: u64 = 0x100000000;
    let mut i: usize = 1;
    while i <= 32
        invariant
            1 <= i <= 33,
            frac < 0x100000000,
            0x100000000 <= acc,
            acc <= spec_exp2_bound(i as int),
            spec_exp2_frac_q32(frac as int) == spec_exp2_from(acc as int, frac as int, i as int),
        decreases 33 - i,
    {
        let p: u64 = pow2_small(32 - i);
        let b: u64 = (frac / p) % 2;
        let ghost acc0: int = acc as int;
        if b == 1 {
            let k: u64 = exp2_const(i);
            proof {
                lemma_exp2_bound_step(i as int);
                let ai = acc as int;
                let ki = k as int;
                assert(ai * ki <= spec_exp2_bound(i as int) * ki) by (nonlinear_arith)
                    requires
                        0 <= ai <= spec_exp2_bound(i as int),
                        ki >= 0;
                assert(spec_exp2_bound(i as int) * ki == spec_exp2_bound(i as int)
                    * spec_exp2_const(i as int));
                lemma_div_is_ordered(
                    ai * ki,
                    spec_exp2_bound(i as int) * spec_exp2_const(i as int),
                    0x100000000,
                );
                assert(ai * ki >= ai * 0x100000000) by (nonlinear_arith)
                    requires
                        ai >= 0,
                        ki >= 0x100000000;
                lemma_div_is_ordered(ai * 0x100000000, ai * ki, 0x100000000);
                vstd::arithmetic::div_mod::lemma_div_by_multiple(ai, 0x100000000);
            }
            acc = (((acc as u128) * (k as u128)) / 0x100000000) as u64;
        }
        i = i + 1;
        proof {
            assert(spec_exp2_from(acc0, frac as int, i - 1) == spec_exp2_from(
                acc as int,
                frac as int,
                i as int,
            ));
        }
    }
    acc
}

/// Floor division of a possibly negative numerator by 1200000, with the
/// Euclidean remainder: the octave decomposition of a cents offset.
fn div_floor_cents(cents: i64) -> (r: (i64, i64))
    requires
        -6000000 <= cents <= 6000000,
    ensures
        r.0 == cents as int / 1200000,
        r.1 == cents as int % 1200000,
        -5 <= r.0 <= 5,
        0 <= r.1 < 1200000,
{
    if cents >= 0 {
        let q: i64 = cents / 1200000;
        let m: i64 = cents % 1200000;
        (q, m)
    } else {
        let neg: i64 = -cents;
        let mq: i64 = neg / 1200000;
        let mr: i64 = neg % 1200000;
        if mr == 0 {
            proof {
                vstd::arithmetic::div_mod::lemma_fundamental_div_mod_converse(
                    cents as int,
                    1200000,
                    -(mq as int),
                    0,
                );
            }
            (-mq, 0)
        } else {
            proof {
                vstd::arithmetic::div_mod::lemma_fundamental_div_mod_converse(
                    cents as int,
                    1200000,
                    -(mq as int) - 1,
                    1200000 - mr as int,
                );
            }
            (-mq - 1, 1200000 - mr)
        }
    }
}

/// Convert a frequency to cents deviation from a target frequency, both in
/// micro-hertz, the result in milli-cents. Positive = sharp, negative =
/// flat, zero exactly at equality.
fn cents_from_target_micro(frequency: u64, target: u64) -> (r: i64)
    requires
        1 <= frequency,
        1 <= target,
    ensures
        r == spec_cents_from_target(frequency as int, target as int),
        -76800000 <= r <= 76800000,
        frequency == target ==> r == 0,
        r > 0 ==> frequency > target,
        r < 0 ==> frequency < target,
{
    proof {
        if frequency == target {
            lemma_cents_round_trip_at_zero(target as int);
        }
    }
    if frequency >= target {
        let l: u64 = pos_log2_q32(frequency, target);
        proof {
            assert(1200000 * (l as int) <= 1200000 * 64 * 0x100000000) by (nonlinear_arith)
                requires
                    l < 64 * 0x100000000;
            lemma_div_is_ordered(1200000 * (l as int), (1200000 * 64 * 0x100000000) as int, 0x100000000);
            assert(1200000 * 64 * 0x100000000 / 0x100000000 == 76800000) by {
                vstd::arithmetic::div_mod::lemma_div_by_multiple(76800000, 0x100000000);
            }
            vstd::arithmetic::div_mod::lemma_div_pos_is_pos(1200000 * (l as int), 0x100000000);
        }
        let c: u128 = (1200000u128 * (l as u128)) / 0x100000000;
        c as i64
    } else {
        let l: u64 = pos_log2_q32(target, frequency);
        proof {
            assert(1200000 * (l as int) <= 1200000 * 64 * 0x100000000) by (nonlinear_arith)
                requires
                    l < 64 * 0x100000000;
            lemma_div_is_ordered(1200000 * (l as int), (1200000 * 64 * 0x100000000) as int, 0x100000000);
            assert(1200000 * 64 * 0x100000000 / 0x100000000 == 76800000) by {
                vstd::arithmetic::div_mod::lemma_div_by_multiple(76800000, 0x100000000);
            }
            vstd::arithmetic::div_mod::lemma_div_pos_is_pos(1200000 * (l as int), 0x100000000);
        }
        let c: u128 = (1200000u128 * (l as u128)) / 0x100000000;
        -(c as i64)
    }
}

/// A4 itself is reproduced exactly: the frequency of MIDI 69 is the
/// configured reference, with no rounding at all.
pub proof fn lemma_frequency_a4_exact(a4: int)
    requires
        MIN_A4_MICROHZ <= a4 <= MAX_A4_MICROHZ,
    ensures
        spec_frequency_micro(a4, 69) == a4,
{
    lemma2_to64();
    assert((69 + 3) % 12 == 0 && (69 + 3) / 12 == 6);
    assert(spec_frequency_scaled(a4, 69) == a4 * 65536 * 64);
    assert(a4 * 65536 * 64 == a4 * 0x400000) by (nonlinear_arith);
    assert(a4 * 0x400000 / 0x400000 == a4) by {
        lemma_fundamental_div_mod(a4 * 0x400000, 0x400000);
        vstd::arithmetic::div_mod::lemma_div_by_multiple(a4, 0x400000);
    }
}

/// The octave relation is exact in the scaled representation: notes twelve
/// semitones apart have frequencies in ratio exactly two.
#[verifier::rlimit(30)]
pub proof fn lemma_octave_exact(a4: int, midi: int)
    requires
        0 <= midi,
    ensures
        spec_frequency_scaled(a4, midi + 12) == 2 * spec_frequency_scaled(a4, midi),
{
    let t = midi + 3;
    assert((t + 12) % 12 == t % 12);
    assert((t + 12) / 12 == t / 12 + 1);
    let q = (t / 12) as nat;
    lemma_pow2_adds(q, 1);
    lemma2_to64();
    assert(pow2(q + 1) == 2 * pow2(q));
    assert(a4 * spec_semitone_q16(t % 12) * (2 * pow2(q)) == 2 * (a4 * spec_semitone_q16(t % 12)
        * pow2(q))) by (nonlinear_arith);
}

/// In micro-hertz, after rounding, an octave is exactly a doubling up to
/// one micro-hertz: `frequency(midi + 12)` is `2 * frequency(midi)` or one
/// more.
pub proof fn lemma_octave_rounded(a4: int, midi: int)
    requires
        0 <= midi,
        MIN_A4_MICROHZ <= a4 <= MAX_A4_MICROHZ,
    ensures
        2 * spec_frequency_micro(a4, midi) <= spec_frequency_micro(a4, midi + 12) <= 2
            * spec_frequency_micro(a4, midi) + 1,
{
    lemma_octave_exact(a4, midi);
    let x = spec_frequency_scaled(a4, midi);
    let d = 0x400000;
    let q = x / d;
    let r = x % d;
    lemma_fundamental_div_mod(x, d);
    assert(spec_semitone_q16((midi + 3) % 12) >= 65536);
    assert(x >= 0) by (nonlinear_arith)
        requires
            x == a4 * spec_semitone_q16((midi + 3) % 12) * pow2(((midi + 3) / 12) as nat),
            a4 >= 0,
            spec_semitone_q16((midi + 3) % 12) >= 0,
            pow2(((midi + 3) / 12) as nat) >= 0;
    assert(2 * x == (2 * q) * d + 2 * r);
    if r < 0x200000 {
        assert(2 * x / d == 2 * q) by {
            vstd::arithmetic::div_mod::lemma_fundamental_div_mod_converse(
                2 * x,
                d,
                2 * q,
                2 * r,
            );
        }
    } else {
        assert(2 * x == (2 * q + 1) * d + (2 * r - d)) by (nonlinear_arith)
            requires
                2 * x == (2 * q) * d + 2 * r,
                d == 0x400000;
        assert(2 * x / d == 2 * q + 1) by {
            vstd::arithmetic::div_mod::lemma_fundamental_div_mod_converse(
                2 * x,
                d,
                2 * q + 1,
                2 * r - d,
            );
        }
    }
}

/// Every note frequency is at least a sixty-fourth of the reference, so
/// one micro-hertz of rounding is a relative error below one part in ten
/// thousand everywhere.
proof fn lemma_frequency_lower(a4: int, midi: int)
    requires
        MIN_A4_MICROHZ <= a4 <= MAX_A4_MICROHZ,
        0 <= midi,
    ensures
        spec_frequency_micro(a4, midi) >= 15625,
{
    let j = (midi + 3) % 12;
    let q = ((midi + 3) / 12) as nat;
    assert(spec_semitone_q16(j) >= 65536);
    vstd::arithmetic::power2::lemma_pow2_pos(q);
    assert(spec_frequency_scaled(a4, midi) >= 65536000000) by (nonlinear_arith)
        requires
            spec_frequency_scaled(a4, midi) == a4 * spec_semitone_q16(j) * pow2(q),
            a4 >= 1000000,
            spec_semitone_q16(j) >= 65536,
            pow2(q) >= 1;
    lemma_div_is_ordered(65536000000, spec_frequency_scaled(a4, midi), 0x400000);
}

/// The rounded octave ratio stays within one part in ten thousand of two,
/// for every admitted reference: the excess of `frequency(midi + 12)` over
/// an exact doubling is at most one micro-hertz, and every frequency is
/// more than ten thousand micro-hertz, so the relative error is below
/// 1/10000.
pub proof fn lemma_octave_ratio(a4: int, midi: int)
    requires
        MIN_A4_MICROHZ <= a4 <= MAX_A4_MICROHZ,
        21 <= midi <= 96,
    ensures
        2 * spec_frequency_micro(a4, midi) <= spec_frequency_micro(a4, midi + 12) <= 2
            * spec_frequency_micro(a4, midi) + 1,
        10000 * (spec_frequency_micro(a4, midi + 12) - 2 * spec_frequency_micro(a4, midi))
            < spec_frequency_micro(a4, midi),
{
    lemma_octave_rounded(a4, midi);
    lemma_frequency_lower(a4, midi);
}

/// Changing the reference rescales every note by exactly the same ratio in
/// the scaled representation.
pub proof fn lemma_rescaling_exact(a: int, b: int, midi: int)
    ensures
        spec_frequency_scaled(a, midi) * b == spec_frequency_scaled(b, midi) * a,
{
    let r = spec_semitone_q16((midi + 3) % 12);
    let p = pow2(((midi + 3) / 12) as nat) as int;
    assert((a * r * p) * b == (b * r * p) * a) by (nonlinear_arith);
}

/// In micro-hertz, after rounding, two references still rescale every note
/// by the same ratio up to one unit: `a * frequency_b` and
/// `b * frequency_a` differ by less than either reference. Together with
/// `lemma_frequency_lower`, the rounded ratio `frequency_b / frequency_a`
/// is within one part in ten thousand of `b / a`.
pub proof fn lemma_rescaling_rounded(a: int, b: int, midi: int)
    requires
        MIN_A4_MICROHZ <= a <= MAX_A4_MICROHZ,
        MIN_A4_MICROHZ <= b <= MAX_A4_MICROHZ,
        0 <= midi,
    ensures
        a * spec_frequency_micro(b, midi) < b * spec_frequency_micro(a, midi) + b,
        b * spec_frequency_micro(a, midi) < a * spec_frequency_micro(b, midi) + a,
        spec_frequency_micro(a, midi) >= 15625,
        spec_frequency_micro(b, midi) >= 15625,
{
    lemma_rescaling_exact(a, b, midi);
    lemma_frequency_lower(a, midi);
    lemma_frequency_lower(b, midi);
    let sa = spec_frequency_scaled(a, midi);
    let sb = spec_frequency_scaled(b, midi);
    let fa = spec_frequency_micro(a, midi);
    let fb = spec_frequency_micro(b, midi);
    lemma_fundamental_div_mod(sa, 0x400000);
    lemma_fundamental_div_mod(sb, 0x400000);
    let ra = sa % 0x400000;
    let rb = sb % 0x400000;
    assert(sa >= 65536000000 && sb >= 65536000000) by {
        lemma_frequency_lower(a, midi);
        let j = (midi + 3) % 12;
        let q = ((midi + 3) / 12) as nat;
        vstd::arithmetic::power2::lemma_pow2_pos(q);
        assert(sa >= 65536000000) by (nonlinear_arith)
            requires
                sa == a * spec_semitone_q16(j) * pow2(q),
                a >= 1000000,
                spec_semitone_q16(j) >= 65536,
                pow2(q) >= 1;
        assert(sb >= 65536000000) by (nonlinear_arith)
            requires
                sb == b * spec_semitone_q16(j) * pow2(q),
                b >= 1000000,
                spec_semitone_q16(j) >= 65536,
                pow2(q) >= 1;
    }
    assert(a * fb * 0x400000 - b * fa * 0x400000 == b * ra - a * rb) by (nonlinear_arith)
        requires
            sa == 0x400000 * fa + ra,
            sb == 0x400000 * fb + rb,
            sa * b == sb * a;
    assert(b * ra - a * rb < b * 0x400000) by (nonlinear_arith)
        requires
            0 <= ra < 0x400000,
            0 <= rb,
            a >= 0,
            b >= 1;
    assert(a * rb - b * ra < a * 0x400000) by (nonlinear_arith)
        requires
            0 <= rb < 0x400000,
            0 <= ra,
            a >= 1,
            b >= 0;
    assert(a * fb < b * fa + b) by (nonlinear_arith)
        requires
            a * fb * 0x400000 - b * fa * 0x400000 == b * ra - a * rb,
            b * ra - a * rb < b * 0x400000;
    assert(b * fa < a * fb + a) by (nonlinear_arith)
        requires
            a * fb * 0x400000 - b * fa * 0x400000 == b * ra - a * rb,
            a * rb - b * ra < a * 0x400000;
}

/// The fractional logarithm of an exact mantissa of one is zero: squaring
/// `1.0` never crosses the renormalization threshold.
proof fn lemma_log2_bits_of_one(n: nat)
    ensures
        spec_log2_bits(0x100000000, n) == 0,
    decreases n,
{
    if n > 0 {
        assert(0x100000000int * 0x100000000 / 0x100000000 == 0x100000000) by {
            vstd::arithmetic::div_mod::lemma_div_by_multiple(0x100000000, 0x100000000);
        }
        lemma_log2_bits_of_one((n - 1) as nat);
    }
}

/// The exponential of a zero fraction multiplies by nothing.
proof fn lemma_exp2_of_zero_frac(acc: int, i: int)
    ensures
        spec_exp2_from(acc, 0, i) == acc,
    decreases 33 - i,
{
    if 1 <= i < 33 {
        vstd::arithmetic::power2::lemma_pow2_pos((32 - i) as nat);
        vstd::arithmetic::div_mod::lemma_div_basics(pow2((32 - i) as nat) as int);
        lemma_exp2_of_zero_frac(acc, i + 1);
    }
}

/// Round trip at zero offset, exactly: moving a target by zero cents
/// returns the target itself, and the cents deviation of a frequency from
/// itself is zero.
pub proof fn lemma_cents_round_trip_at_zero(t: int)
    requires
        1 <= t,
    ensures
        spec_cents_to_frequency(t, 0) == t,
        spec_cents_from_target(t, t) == 0,
{
    lemma2_to64();
    vstd::arithmetic::div_mod::lemma_div_basics(1200000);
    assert(0int / 1200000 == 0 && 0int % 1200000 == 0) by {
        vstd::arithmetic::div_mod::lemma_fundamental_div_mod_converse(0, 1200000, 0, 0);
    }
    vstd::arithmetic::div_mod::lemma_div_basics(0x100000000 as int);
    assert(0int * 0x100000000 == 0);
    lemma_exp2_of_zero_frac(0x100000000, 1);
    assert(spec_exp2_frac_q32(0) == 0x100000000);
    assert(spec_ratio_q32(0) == 0x100000000 * pow2(0));
    assert(0x100000000int * pow2(0) == 0x100000000) by (nonlinear_arith)
        requires
            pow2(0) == 1;
    assert(t * 0x100000000 / 0x100000000 == t) by {
        vstd::arithmetic::div_mod::lemma_div_by_multiple(t, 0x100000000);
    }
    assert(spec_cents_to_frequency(t, 0) == t);
    assert(spec_log2_floor(t, t) == 0);
    assert(t * pow2(0) == t) by (nonlinear_arith)
        requires
            pow2(0) == 1;
    assert(spec_mant_q32(t, t) == t * 0x100000000 / t);
    assert(t * 0x100000000 / t == 0x100000000) by {
        vstd::arithmetic::div_mod::lemma_div_multiples_vanish(0x100000000, t);
        assert(t * 0x100000000 == 0x100000000 * t) by (nonlinear_arith);
    }
    lemma_log2_bits_of_one(32);
    assert(spec_pos_log2_q32(t, t) == 0);
    assert(spec_cents_from_target(t, t) == 1200000 * 0 / 0x100000000);
    vstd::arithmetic::div_mod::lemma_div_basics(0x100000000 as int);
}

} // verus!
