//! Tests of the integer YIN detector. Samples are integers at a full scale
//! of 32767; frequencies come back in micro-hertz and confidences in
//! thousandths.

use piano_tuner::pitch::PitchDetector;
use piano_tuner::pitch::PitchResult;

const SAMPLE_RATE: u32 = 44100;

/// A pure sine tone, scaled to integer samples.
fn sine(frequency: f64, duration_secs: f64, sample_rate: u32) -> Vec<i32> {
    let num_samples = (sample_rate as f64 * duration_secs) as usize;
    let mut samples = Vec::with_capacity(num_samples);
    for i in 0..num_samples {
        let t = i as f64 / sample_rate as f64;
        let s = (2.0 * std::f64::consts::PI * frequency * t).sin();
        samples.push((s * 32767.0).round() as i32);
    }
    samples
}

/// A sine tone plus harmonics at decreasing amplitude, normalized.
fn sine_with_harmonics(
    fundamental: f64,
    harmonics: &[(f64, f64)],
    duration_secs: f64,
    sample_rate: u32,
) -> Vec<i32> {
    let num_samples = (sample_rate as f64 * duration_secs) as usize;
    let mut raw = vec![0.0f64; num_samples];
    for (i, sample) in raw.iter_mut().enumerate() {
        let t = i as f64 / sample_rate as f64;
        *sample += (2.0 * std::f64::consts::PI * fundamental * t).sin();
    }
    for &(harmonic_num, amplitude) in harmonics {
        let freq = fundamental * harmonic_num;
        for (i, sample) in raw.iter_mut().enumerate() {
            let t = i as f64 / sample_rate as f64;
            *sample += amplitude * (2.0 * std::f64::consts::PI * freq * t).sin();
        }
    }
    let max = raw.iter().map(|s| s.abs()).fold(0.0f64, f64::max);
    raw.iter()
        .map(|s| if max > 0.0 { (s / max * 32767.0).round() as i32 } else { 0 })
        .collect()
}

fn detect_frequency(frequency: f64) -> Option<PitchResult> {
    let samples = sine(frequency, 0.2, SAMPLE_RATE);
    let detector = PitchDetector::new(SAMPLE_RATE);
    detector.detect(&samples)
}

#[test]
fn test_detect_a4_440hz() {
    let result = detect_frequency(440.0).expect("Should detect pitch");
    let error = (result.frequency as f64 / 1000000.0 - 440.0).abs();
    assert!(
        error < 0.5,
        "Expected ~440Hz, got {} micro-hertz (error: {})",
        result.frequency,
        error
    );
    assert!(
        result.confidence > 900,
        "Expected high confidence, got {}",
        result.confidence
    );
}

#[test]
fn test_detect_a0_27_5hz() {
    let result = detect_frequency(27.5).expect("Should detect pitch");
    let error = (result.frequency as f64 / 1000000.0 - 27.5).abs();
    assert!(
        error < 0.5,
        "Expected ~27.5Hz, got {} micro-hertz (error: {})",
        result.frequency,
        error
    );
}

#[test]
fn test_detect_c8_4186hz() {
    let result = detect_frequency(4186.0).expect("Should detect pitch");
    let error = (result.frequency as f64 / 1000000.0 - 4186.0).abs();
    // Higher frequencies have more absolute error due to sample rate limitations
    assert!(
        error < 10.0,
        "Expected ~4186Hz, got {} micro-hertz (error: {})",
        result.frequency,
        error
    );
}

#[test]
fn test_detect_middle_c_261hz() {
    let result = detect_frequency(261.63).expect("Should detect pitch");
    let error = (result.frequency as f64 / 1000000.0 - 261.63).abs();
    assert!(
        error < 0.5,
        "Expected ~261.63Hz, got {} micro-hertz (error: {})",
        result.frequency,
        error
    );
}

#[test]
fn test_detect_with_harmonics() {
    // Piano-like signal with harmonics
    let samples = sine_with_harmonics(440.0, &[(2.0, 0.5), (3.0, 0.3), (4.0, 0.2)], 0.2, SAMPLE_RATE);
    let detector = PitchDetector::new(SAMPLE_RATE);
    let result = detector.detect(&samples).expect("Should detect pitch");

    let error = (result.frequency as f64 / 1000000.0 - 440.0).abs();
    assert!(
        error < 1.0,
        "Expected ~440Hz fundamental, got {} micro-hertz (error: {})",
        result.frequency,
        error
    );
}

#[test]
fn test_silence_returns_none() {
    let silence = vec![0i32; 4096];
    let detector = PitchDetector::new(SAMPLE_RATE);
    let result = detector.detect(&silence);
    assert!(result.is_none(), "Silence should return None");
}

#[test]
fn test_noise_low_confidence() {
    // Generate noise that's less periodic by using a better PRNG and mixing
    let mut noise: Vec<i32> = Vec::with_capacity(8192);
    let mut x = 12345u64;
    for i in 0..8192 {
        // xorshift64
        x ^= x << 13;
        x ^= x >> 7;
        x ^= x << 17;
        // Add some non-linear mixing with index
        let sample = (x as f64 / u64::MAX as f64) * 2.0 - 1.0;
        // Mix in high-frequency component to break periodicity
        let high_freq = ((i as f64 * 0.7654321) * std::f64::consts::PI * 73.0).sin() * 0.3;
        let v = (sample + high_freq).clamp(-1.0, 1.0);
        noise.push((v * 32767.0).round() as i32);
    }

    let detector = PitchDetector::new(SAMPLE_RATE).with_threshold(100);
    let result = detector.detect(&noise);

    // Noise should either return None or the detector should reject it
    // due to the threshold (which results in None)
    assert!(
        result.is_none(),
        "Noise should not produce a confident pitch detection"
    );
}

#[test]
fn test_high_threshold_stricter() {
    let samples = sine(440.0, 0.1, SAMPLE_RATE);

    let loose_detector = PitchDetector::new(SAMPLE_RATE).with_threshold(500);
    let strict_detector = PitchDetector::new(SAMPLE_RATE).with_threshold(10);

    // Both should detect the clear sine wave
    assert!(loose_detector.detect(&samples).is_some());
    assert!(strict_detector.detect(&samples).is_some());
}

#[test]
fn test_various_frequencies() {
    // Test across the piano range
    let test_freqs = [55.0, 110.0, 220.0, 440.0, 880.0, 1760.0, 3520.0];

    for &freq in &test_freqs {
        let result =
            detect_frequency(freq).unwrap_or_else(|| panic!("Should detect {}Hz", freq));

        let error = (result.frequency as f64 / 1000000.0 - freq).abs();
        let relative_error = error / freq;

        assert!(
            relative_error < 0.01,
            "Expected {}Hz, got {} micro-hertz (relative error: {:.2}%)",
            freq,
            result.frequency,
            relative_error * 100.0
        );
    }
}

#[test]
fn test_too_few_samples() {
    let detector = PitchDetector::new(SAMPLE_RATE);
    assert!(detector.detect(&vec![0i32]).is_none());
    assert!(detector.detect(&Vec::new()).is_none());
}

#[test]
fn test_degenerate_frequency_range() {
    let samples = sine(440.0, 0.2, SAMPLE_RATE);
    // min above max collapses the search window
    let detector = PitchDetector::new(SAMPLE_RATE).with_frequency_range(4186000000, 27500000);
    assert!(detector.detect(&samples).is_none());
    // a zero bound is degenerate as well
    let detector = PitchDetector::new(SAMPLE_RATE).with_frequency_range(0, 4186000000);
    assert!(detector.detect(&samples).is_none());
}
