//! Tests of the stretch curve. Offsets are in milli-cents: -10 cents is
//! -10000.

use piano_tuner::stretch::StretchCurve;

#[test]
fn test_bass_is_flat() {
    let curve = StretchCurve::new();

    // A0 should be significantly flat
    let a0 = curve.offset_cents(21);
    assert!(a0 < -10000, "A0 should be flat, got {} milli-cents", a0);

    // C2 should be moderately flat
    let c2 = curve.offset_cents(36);
    assert!(c2 < 0, "C2 should be flat, got {} milli-cents", c2);
}

#[test]
fn test_treble_is_sharp() {
    let curve = StretchCurve::new();

    // C8 should be significantly sharp
    let c8 = curve.offset_cents(108);
    assert!(c8 > 10000, "C8 should be sharp, got {} milli-cents", c8);

    // C7 should be moderately sharp
    let c7 = curve.offset_cents(96);
    assert!(c7 > 0, "C7 should be sharp, got {} milli-cents", c7);
}

#[test]
fn test_middle_is_near_zero() {
    let curve = StretchCurve::new();

    // A4 should be close to 0
    let a4 = curve.offset_cents(69);
    assert!(a4.abs() < 3000, "A4 should be near 0 milli-cents, got {}", a4);

    // C4 should be close to 0
    let c4 = curve.offset_cents(60);
    assert!(c4.abs() < 3000, "C4 should be near 0 milli-cents, got {}", c4);
}

#[test]
fn test_curve_is_monotonic() {
    let curve = StretchCurve::new();

    // The entire curve should be monotonically increasing
    let mut prev = curve.offset_cents(21);
    for midi in 22..=108u8 {
        let current = curve.offset_cents(midi);
        assert!(
            current >= prev,
            "Curve should be monotonic: MIDI {} ({}) < MIDI {} ({})",
            midi,
            current,
            midi - 1,
            prev
        );
        prev = current;
    }
}

#[test]
fn test_apply_stretch() {
    let curve = StretchCurve::new();

    // A4 at 440 Hz with minimal stretch should stay near 440 Hz
    let stretched = curve.apply(440000000, 69);
    let deviation = (stretched as i64 - 440000000).abs();
    assert!(
        deviation < 1000000,
        "A4 stretch should be minimal, got {} micro-hertz deviation",
        deviation
    );

    // A0 at 27.5 Hz with negative stretch should be slightly lower
    let base: u64 = 27500000;
    let stretched = curve.apply(base, 21);
    assert!(
        stretched < base,
        "A0 should be stretched flat: {} < {}",
        stretched,
        base
    );

    // C8 at 4186 Hz with positive stretch should be slightly higher
    let base: u64 = 4186000000;
    let stretched = curve.apply(base, 108);
    assert!(
        stretched > base,
        "C8 should be stretched sharp: {} > {}",
        stretched,
        base
    );
}

#[test]
fn test_apply_direction_over_band() {
    // At micro-hertz resolution, the stretch moves every piano target in
    // the right direction at the default reference: flat below the center,
    // unchanged at the center, sharp above it.
    let curve = StretchCurve::new();
    let temp = piano_tuner::temperament::Temperament::new();
    for midi in 21..=108u8 {
        let base = temp.frequency(midi);
        let stretched = curve.apply(base, midi);
        if midi < 60 {
            assert!(stretched < base, "MIDI {} should move flat", midi);
        } else if midi == 60 {
            assert_eq!(stretched, base, "MIDI 60 is the fixed point");
        } else {
            assert!(stretched > base, "MIDI {} should move sharp", midi);
        }
    }
}

#[test]
fn test_bounds_checking() {
    let curve = StretchCurve::new();

    // Out of range should return 0
    assert_eq!(curve.offset_cents(20), 0);
    assert_eq!(curve.offset_cents(109), 0);
}

#[test]
fn test_stretch_magnitudes() {
    let curve = StretchCurve::new();

    // Verify approximate magnitudes match expectations
    let a0 = curve.offset_cents(21);
    assert!(
        a0 >= -25000 && a0 <= -10000,
        "A0 stretch {} out of expected range",
        a0
    );

    let c8 = curve.offset_cents(108);
    assert!(
        c8 >= 10000 && c8 <= 25000,
        "C8 stretch {} out of expected range",
        c8
    );
}

#[test]
fn test_offset_by_index_matches_midi() {
    let curve = StretchCurve::new();
    for i in 0..88usize {
        assert_eq!(curve.offset_cents_by_index(i), curve.offset_cents((i + 21) as u8));
    }
    assert_eq!(curve.offset_cents_by_index(88), 0);
}
