//! Process-wide detection configuration.

use vstd::prelude::*;

verus! {

/// Largest window the estimator accepts. Keeping the window at or below
/// this size bounds every autocorrelation sum by `2 * 2^20 * 2^30 = 2^51`,
/// so all NSDF numerators and denominators fit in an `i64` and all
/// cross-multiplied comparisons fit in an `i128`.
pub const MAX_WINDOW_SIZE: usize = 1048576;

/// Largest denominator accepted for the clarity threshold; keeps the
/// cross-multiplied acceptance test within `i128`.
pub const MAX_CLARITY_DEN: i64 = 1000000;

/// Immutable settings for one detection pipeline.
///
/// The clarity threshold is the exact rational
/// `clarity_threshold_num / clarity_threshold_den`; the power threshold is
/// compared against the integer signal energy (the sum of the squared
/// samples of the window).
#[derive(Clone, Copy, PartialEq, Eq, Structural, Debug)]
pub struct DetectionConfig {
    /// Sampling rate of the stream, in Hz.
    pub sample_rate: u32,
    /// Number of samples the sliding window holds when warmed up.
    pub window_size: usize,
    /// Lags in `[window_size - padding, window_size)` are excluded from the
    /// search: they overlap too little data to be meaningful.
    pub padding: usize,
    /// Minimum signal energy (sum of squared samples) to attempt detection.
    pub power_threshold: i64,
    /// Numerator of the clarity threshold.
    pub clarity_threshold_num: i64,
    /// Denominator of the clarity threshold.
    pub clarity_threshold_den: i64,
    /// Number of new samples between successive estimation runs.
    pub trigger_interval: u64,
}

impl DetectionConfig {
    /// The ranges under which every pipeline computation is overflow-free
    /// and the threshold rationals are meaningful.
    pub open spec fn wf(&self) -> bool {
        &&& 1 <= self.sample_rate
        &&& 2 <= self.window_size <= MAX_WINDOW_SIZE
        &&& self.padding < self.window_size
        &&& 0 <= self.power_threshold
        &&& 1 <= self.clarity_threshold_den <= MAX_CLARITY_DEN
        &&& 0 <= self.clarity_threshold_num <= self.clarity_threshold_den
        &&& 1 <= self.trigger_interval
    }

    /// The settings of the reference pipeline: 44.1 kHz, a 1024-sample
    /// window with half-window padding, energy gate 5, clarity gate 7/10,
    /// and one estimation run per 10000 samples.
    pub fn default_config() -> (c: DetectionConfig)
        ensures
            c.wf(),
            c.sample_rate == 44100,
            c.window_size == 1024,
            c.padding == 512,
            c.power_threshold == 5,
            c.clarity_threshold_num == 7,
            c.clarity_threshold_den == 10,
            c.trigger_interval == 10000,
    {
        DetectionConfig {
            sample_rate: 44100,
            window_size: 1024,
            padding: 512,
            power_threshold: 5,
            clarity_threshold_num: 7,
            clarity_threshold_den: 10,
            trigger_interval: 10000,
        }
    }
}

} // verus!
