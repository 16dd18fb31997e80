//! Tests of the fixed-point temperament. Frequencies are in micro-hertz and
//! cents in milli-cents, so 440 Hz is 440000000 and a millionth of a hertz
//! is the resolution.

use piano_tuner::temperament::Temperament;
use piano_tuner::temperament::A4_DEFAULT_MICROHZ;
use piano_tuner::temperament::MAX_A4_MICROHZ;
use piano_tuner::temperament::MIN_A4_MICROHZ;

/// Reference frequencies in micro-hertz for all 88 keys at A4 = 440 Hz.
fn reference_frequencies() -> Vec<(u8, u64)> {
    let hz: [(u8, f64); 88] = [
        (21, 27.5),
        (22, 29.135),
        (23, 30.868),
        (24, 32.703),
        (25, 34.648),
        (26, 36.708),
        (27, 38.891),
        (28, 41.203),
        (29, 43.654),
        (30, 46.249),
        (31, 48.999),
        (32, 51.913),
        (33, 55.0),
        (34, 58.270),
        (35, 61.735),
        (36, 65.406),
        (37, 69.296),
        (38, 73.416),
        (39, 77.782),
        (40, 82.407),
        (41, 87.307),
        (42, 92.499),
        (43, 97.999),
        (44, 103.826),
        (45, 110.0),
        (46, 116.541),
        (47, 123.471),
        (48, 130.813),
        (49, 138.591),
        (50, 146.832),
        (51, 155.563),
        (52, 164.814),
        (53, 174.614),
        (54, 184.997),
        (55, 195.998),
        (56, 207.652),
        (57, 220.0),
        (58, 233.082),
        (59, 246.942),
        (60, 261.626),
        (61, 277.183),
        (62, 293.665),
        (63, 311.127),
        (64, 329.628),
        (65, 349.228),
        (66, 369.994),
        (67, 391.995),
        (68, 415.305),
        (69, 440.0),
        (70, 466.164),
        (71, 493.883),
        (72, 523.251),
        (73, 554.365),
        (74, 587.330),
        (75, 622.254),
        (76, 659.255),
        (77, 698.456),
        (78, 739.989),
        (79, 783.991),
        (80, 830.609),
        (81, 880.0),
        (82, 932.328),
        (83, 987.767),
        (84, 1046.502),
        (85, 1108.731),
        (86, 1174.659),
        (87, 1244.508),
        (88, 1318.510),
        (89, 1396.913),
        (90, 1479.978),
        (91, 1567.982),
        (92, 1661.219),
        (93, 1760.0),
        (94, 1864.655),
        (95, 1975.533),
        (96, 2093.005),
        (97, 2217.461),
        (98, 2349.318),
        (99, 2489.016),
        (100, 2637.020),
        (101, 2793.826),
        (102, 2959.955),
        (103, 3135.963),
        (104, 3322.438),
        (105, 3520.0),
        (106, 3729.310),
        (107, 3951.066),
        (108, 4186.009),
    ];
    hz.iter().map(|&(m, f)| (m, (f * 1000000.0).round() as u64)).collect()
}

#[test]
fn test_a4_default() {
    let temp = Temperament::new();
    assert_eq!(temp.a4(), 440000000);
    assert_eq!(temp.a4(), A4_DEFAULT_MICROHZ);
}

#[test]
fn test_a4_custom() {
    let temp = Temperament::with_a4(442000000);
    assert_eq!(temp.a4(), 442000000);
}

#[test]
fn test_a4_frequency() {
    let temp = Temperament::new();
    let freq = temp.frequency(69);
    // A4 should be 440 Hz exactly
    assert_eq!(freq, 440000000, "A4 should be 440000000 micro-hertz");
}

#[test]
fn test_all_88_notes_at_440() {
    let temp = Temperament::new();

    for &(midi, expected) in &reference_frequencies() {
        let calculated = temp.frequency(midi);
        let error = (calculated as f64 - expected as f64).abs();
        let relative_error = error / expected as f64;

        assert!(
            relative_error < 0.001,
            "MIDI {} should be {} micro-hertz, got {} (error: {:.4}%)",
            midi,
            expected,
            calculated,
            relative_error * 100.0
        );
    }
}

#[test]
fn test_octave_relationships() {
    // The octave ratio stays within one part in ten thousand of two for
    // every admitted reference, including the extremes of the band.
    for &a4 in &[MIN_A4_MICROHZ, 440000000u64, MAX_A4_MICROHZ] {
        let temp = Temperament::with_a4(a4);
        for midi in 21..=96u8 {
            let lower = temp.frequency(midi);
            let higher = temp.frequency(midi + 12);
            let ratio = higher as f64 / lower as f64;

            assert!(
                (ratio - 2.0).abs() < 0.0001,
                "Octave ratio for MIDI {} at A4 {} should be 2.0, got {}",
                midi,
                a4,
                ratio
            );
        }
    }
}

#[test]
fn test_custom_a4_442() {
    let temp = Temperament::with_a4(442000000);

    // A4 should be exactly 442 Hz
    assert_eq!(temp.frequency(69), 442000000);

    // A5 should be 884 Hz
    let a5 = temp.frequency(81);
    assert!((a5 as i64 - 884000000).abs() < 1);

    // Ratio to 440 Hz tuning
    let ratio = 442.0 / 440.0;
    let temp_440 = Temperament::new();

    for midi in 21..=108u8 {
        let freq_442 = temp.frequency(midi);
        let freq_440 = temp_440.frequency(midi);
        let actual_ratio = freq_442 as f64 / freq_440 as f64;

        assert!(
            (actual_ratio - ratio).abs() < 0.0001 * ratio,
            "All notes should scale by same ratio"
        );
    }
}

#[test]
fn test_rescaling_at_band_edges() {
    // Two references rescale every note by the same ratio within one part
    // in ten thousand, even at the extremes of the admitted band.
    let ta = Temperament::with_a4(MIN_A4_MICROHZ);
    let tb = Temperament::with_a4(2 * MIN_A4_MICROHZ);
    for midi in 21..=108u8 {
        let fa = ta.frequency(midi) as f64;
        let fb = tb.frequency(midi) as f64;
        assert!(
            (fb / fa - 2.0).abs() < 0.0001 * 2.0,
            "MIDI {}: rescaling ratio {} should be 2.0",
            midi,
            fb / fa
        );
    }
}

#[test]
fn test_cents_conversion_zero() {
    let temp = Temperament::new();

    // Equal frequencies give exactly 0 cents
    let cents = temp.cents_from_target(440000000, 440000000);
    assert_eq!(cents, 0, "Same frequency should be exactly 0 milli-cents");
    // The sign always matches the side of the target
    assert!(temp.cents_from_target(440000001, 440000000) >= 0);
    assert!(temp.cents_from_target(439999999, 440000000) <= 0);
}

#[test]
fn test_cents_conversion_semitone() {
    let temp = Temperament::new();

    // One semitone = 100 cents = 100000 milli-cents
    let a4: u64 = 440000000;
    let asharp4 = temp.frequency(70); // A#4

    let cents = temp.cents_from_target(asharp4, a4);
    assert!(
        (cents - 100000).abs() < 100,
        "Semitone should be 100000 milli-cents, got {}",
        cents
    );
}

#[test]
fn test_cents_conversion_octave() {
    let temp = Temperament::new();

    // One octave = 1200 cents = 1200000 milli-cents
    let cents = temp.cents_from_target(880000000, 440000000);
    assert!(
        (cents - 1200000).abs() < 100,
        "Octave should be 1200000 milli-cents, got {}",
        cents
    );
}

#[test]
fn test_cents_roundtrip() {
    // The 0.01-cent round-trip law holds across the whole piano band, from
    // A0 to C8, not only at the 440 Hz center.
    let temp = Temperament::new();
    for &target in &[27500000u64, 261626000, 440000000, 4186009000] {
        for cents in [-50000i64, -25000, -10000, -1, 0, 1, 10000, 25000, 50000] {
            let freq = temp.cents_to_frequency(target, cents);
            let recovered_cents = temp.cents_from_target(freq, target);

            assert!(
                (recovered_cents - cents).abs() < 10,
                "Cents roundtrip failed for {} at target {}: got {}",
                cents,
                target,
                recovered_cents
            );
        }
    }
}

#[test]
fn test_nearest_note() {
    let temp = Temperament::new();

    // Exact A4
    let (midi, cents) = temp.nearest_note(440000000);
    assert_eq!(midi, 69);
    assert!(cents.abs() < 100);

    // A4 + 25 cents
    let freq = temp.cents_to_frequency(440000000, 25000);
    let (midi, cents) = temp.nearest_note(freq);
    assert_eq!(midi, 69);
    assert!((cents - 25000).abs() < 100);

    // Between A4 and A#4 (should round to nearest)
    let freq = temp.cents_to_frequency(440000000, 49000);
    let (midi, _) = temp.nearest_note(freq);
    assert_eq!(midi, 69); // Still A4

    let freq = temp.cents_to_frequency(440000000, 51000);
    let (midi, _) = temp.nearest_note(freq);
    assert_eq!(midi, 70); // A#4
}

#[test]
fn test_frequency_to_cents() {
    let temp = Temperament::new();

    // A4 at exactly 440 Hz
    let cents = temp.frequency_to_cents(440000000, 69);
    assert!(cents.abs() < 10);

    // A4 at 442 Hz (slightly sharp)
    let cents = temp.frequency_to_cents(442000000, 69);
    assert!(cents > 0);
    assert!((cents - 7850).abs() < 100); // ~7.85 cents sharp
}

#[test]
fn test_cents_to_ratio_octave() {
    // One octave up doubles the Q32 ratio exactly.
    assert_eq!(Temperament::cents_to_ratio(0), 1u64 << 32);
    assert_eq!(Temperament::cents_to_ratio(1200000), 1u64 << 33);
    assert_eq!(Temperament::cents_to_ratio(-1200000), 1u64 << 31);
}

#[test]
fn test_frequency_for_note() {
    let temp = Temperament::new();
    let a4 = piano_tuner::notes::Note::from_midi(69).unwrap();
    assert_eq!(temp.frequency_for_note(&a4), temp.frequency(69));
}
