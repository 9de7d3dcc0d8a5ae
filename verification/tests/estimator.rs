use pitch_tracker::config::DetectionConfig;
use pitch_tracker::estimator::PitchEstimator;
use pitch_tracker::nsdf::compute_nsdf;
use pitch_tracker::nsdf::compute_power;

fn small_config(window_size: usize, padding: usize) -> DetectionConfig {
    DetectionConfig {
        sample_rate: 44100,
        window_size,
        padding,
        power_threshold: 5,
        clarity_threshold_num: 7,
        clarity_threshold_den: 10,
        trigger_interval: 1,
    }
}

#[test]
fn nsdf_exact_values() {
    let x: Vec<i16> = vec![1, -1, 1, -1];
    let entries = compute_nsdf(&x, 2);
    assert_eq!(entries.len(), 2);
    // Lag 0: autocorrelation 4, energy 8.
    assert_eq!(entries[0].num, 8);
    assert_eq!(entries[0].den, 8);
    // Lag 1: autocorrelation -3 over overlap 3, energy 6.
    assert_eq!(entries[1].num, -6);
    assert_eq!(entries[1].den, 6);
}

#[test]
fn nsdf_zero_lag_unity_when_not_silent() {
    let x: Vec<i16> = vec![0, 12, -7, 3, 0, 5];
    let entries = compute_nsdf(&x, 3);
    assert_eq!(entries[0].num, entries[0].den);
    assert!(entries[0].den > 0);
}

#[test]
fn nsdf_zero_overlap_defined_for_silence() {
    let x: Vec<i16> = vec![0, 0, 0, 0];
    let entries = compute_nsdf(&x, 4);
    for e in entries {
        assert_eq!(e.num, 0);
        assert_eq!(e.den, 1);
    }
}

#[test]
fn power_is_sum_of_squares() {
    let x: Vec<i16> = vec![3, -4, 0, 1];
    assert_eq!(compute_power(&x), 9 + 16 + 0 + 1);
}

#[test]
fn estimate_zero_window_is_none() {
    let cfg = DetectionConfig::default_config();
    let est = PitchEstimator::new(cfg);
    let samples: Vec<i16> = vec![0; cfg.window_size];
    assert_eq!(est.estimate(&samples), None);
}

#[test]
fn estimate_constant_signal_is_none() {
    // A constant signal passes the energy gate but its NSDF never goes
    // negative, so there is no candidate peak.
    let cfg = DetectionConfig::default_config();
    let est = PitchEstimator::new(cfg);
    let samples: Vec<i16> = vec![100; cfg.window_size];
    assert_eq!(est.estimate(&samples), None);
}

#[test]
fn estimate_exact_periodic_signal() {
    // Period-4 signal over three full periods: the NSDF is exactly 1 at
    // lag 4 and the refinement is symmetric, so the frequency is exactly
    // sample_rate / 4 and the clarity exactly 1.
    let cfg = small_config(12, 4);
    let est = PitchEstimator::new(cfg);
    let mut samples: Vec<i16> = Vec::new();
    for _ in 0..3 {
        samples.extend_from_slice(&[0, 100, 0, -100]);
    }
    let e = est.estimate(&samples).expect("periodic signal must yield an estimate");
    assert_eq!(e.frequency_num % e.frequency_den, 0);
    assert_eq!(e.frequency_num / e.frequency_den, 11025);
    assert_eq!(e.clarity_num, e.clarity_den);
}

#[test]
fn estimate_recovers_440_hz_sine() {
    let cfg = DetectionConfig::default_config();
    let est = PitchEstimator::new(cfg);
    let mut samples: Vec<i16> = Vec::new();
    for i in 0..cfg.window_size {
        let phase = 2.0 * std::f64::consts::PI * 440.0 * (i as f64) / 44100.0;
        samples.push((10000.0 * phase.sin()) as i16);
    }
    let e = est.estimate(&samples).expect("a clean sine must yield an estimate");
    let freq = e.frequency_num as f64 / e.frequency_den as f64;
    assert!((freq - 440.0).abs() <= 4.4, "estimated {} Hz for a 440 Hz tone", freq);
    let clarity = e.clarity_num as f64 / e.clarity_den as f64;
    assert!(clarity >= 0.7, "clarity {} below the threshold", clarity);
    assert!(clarity <= 1.0);
}

#[test]
fn estimate_negative_peak_is_none() {
    // This window passes the energy gate and has exactly one candidate
    // peak (at lag 3), but that peak's NSDF value is negative, so it
    // cannot reach the threshold fraction of the tallest peak (itself)
    // and the run yields no estimate.
    let cfg = small_config(8, 3);
    let est = PitchEstimator::new(cfg);
    let samples: Vec<i16> = vec![-6, 37, 18, 12, 48, 18, -20, -42];
    assert_eq!(est.estimate(&samples), None);
}

#[test]
fn estimate_low_amplitude_is_none() {
    // Every sample within +/-1 keeps the energy of a 16-sample window at
    // most 16, below a power threshold of 1000.
    let mut cfg = small_config(16, 8);
    cfg.power_threshold = 1000;
    let est = PitchEstimator::new(cfg);
    let mut samples: Vec<i16> = Vec::new();
    for i in 0..16i16 {
        samples.push(if i % 2 == 0 { 1 } else { -1 });
    }
    assert_eq!(est.estimate(&samples), None);
}
