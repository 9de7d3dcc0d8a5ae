use pitch_tracker::config::DetectionConfig;
use pitch_tracker::tracker::PitchTracker;

fn config(window_size: usize, padding: usize, interval: u64) -> DetectionConfig {
    DetectionConfig {
        sample_rate: 44100,
        window_size,
        padding,
        power_threshold: 5,
        clarity_threshold_num: 7,
        clarity_threshold_den: 10,
        trigger_interval: interval,
    }
}

fn period_four_sample(i: usize) -> i16 {
    match i % 4 {
        0 => 0,
        1 => 100,
        2 => 0,
        _ => -100,
    }
}

#[test]
fn tracker_estimates_on_cadence_after_warmup() {
    // Window of 12, trigger every 6 samples: triggers fall on samples
    // 6, 12, 18 and 24; the one at 6 sees a half-filled window, all the
    // later ones a full window of the period-4 signal.
    let mut tr = PitchTracker::new(config(12, 4, 6));
    let mut estimates = Vec::new();
    for i in 0..24usize {
        if let Some(e) = tr.process_sample(period_four_sample(i)) {
            estimates.push((i + 1, e));
        }
    }
    let positions: Vec<usize> = estimates.iter().map(|(p, _)| *p).collect();
    assert_eq!(positions, vec![12usize, 18, 24]);
    for (_, e) in estimates {
        assert_eq!(e.frequency_num % e.frequency_den, 0);
        assert_eq!(e.frequency_num / e.frequency_den, 11025);
    }
}

#[test]
fn tracker_no_estimate_before_warmup() {
    let mut tr = PitchTracker::new(config(12, 4, 2));
    for i in 0..11usize {
        assert_eq!(tr.process_sample(period_four_sample(i)), None);
    }
}

#[test]
fn tracker_suppresses_silence_across_trigger_cycles() {
    let mut cfg = config(16, 8, 4);
    cfg.power_threshold = 1000;
    let mut tr = PitchTracker::new(cfg);
    for i in 0..200usize {
        let s: i16 = if i % 2 == 0 { 1 } else { -1 };
        assert_eq!(tr.process_sample(s), None);
    }
}

#[test]
fn tracker_suppresses_all_zero_input() {
    // Triggers every 4 samples with a full window from sample 16 on, yet
    // an all-zero window never yields an estimate.
    let mut tr = PitchTracker::new(config(16, 8, 4));
    for _ in 0..100usize {
        assert_eq!(tr.process_sample(0), None);
    }
}

#[test]
fn tracker_default_config_sine() {
    let mut tr = PitchTracker::new(DetectionConfig::default_config());
    let mut seen = 0usize;
    for i in 0..20000usize {
        let phase = 2.0 * std::f64::consts::PI * 440.0 * (i as f64) / 44100.0;
        let s = (10000.0 * phase.sin()) as i16;
        if let Some(e) = tr.process_sample(s) {
            seen += 1;
            let freq = e.frequency_num as f64 / e.frequency_den as f64;
            assert!((freq - 440.0).abs() <= 4.4, "estimated {} Hz", freq);
        }
    }
    // Triggers at samples 10000 and 20000, both with a warmed-up window.
    assert_eq!(seen, 2);
}
