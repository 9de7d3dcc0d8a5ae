//! The live pipeline: window, cadence and estimator coupled together.

use vstd::prelude::*;

use crate::cadence::CadenceController;
use crate::config::DetectionConfig;
use crate::estimator::PitchEstimate;
use crate::estimator::PitchEstimator;
use crate::estimator::estimate_spec;
use crate::window::SampleWindow;
use crate::window::push_model;

verus! {

/// Owns the mutable state of one detection pipeline. The sample delivery
/// path pushes every incoming sample through `process_sample`; estimation
/// runs happen on the configured cadence, against a snapshot of the
/// window, and only once the window has warmed up to its full size.
pub struct PitchTracker {
    window: SampleWindow,
    cadence: CadenceController,
    estimator: PitchEstimator,
}

impl PitchTracker {
    /// The settings of this pipeline.
    pub closed spec fn config_spec(&self) -> DetectionConfig {
        self.estimator.config
    }

    /// The live window contents, oldest first.
    pub closed spec fn window_view(&self) -> Seq<i16> {
        self.window@
    }

    /// How many samples have been delivered so far.
    pub closed spec fn samples_seen(&self) -> int {
        self.cadence.count as int
    }

    /// The settings are valid, the window has the configured capacity and
    /// the cadence counts against the configured interval.
    pub closed spec fn wf(&self) -> bool {
        &&& self.estimator.config.wf()
        &&& self.window.wf()
        &&& self.window.capacity_spec() == self.estimator.config.window_size
        &&& self.cadence.wf()
        &&& self.cadence.interval == self.estimator.config.trigger_interval
    }

    /// A well-formed pipeline never holds more samples than the
    /// configured window size.
    pub proof fn lemma_window_bounded(&self)
        requires
            self.wf(),
        ensures
            self.window_view().len() <= self.config_spec().window_size,
    {
        self.window.lemma_within_capacity();
    }

    /// A fresh pipeline with an empty window and no samples seen.
    pub fn new(config: DetectionConfig) -> (tr: PitchTracker)
        requires
            config.wf(),
        ensures
            tr.wf(),
            tr.config_spec() == config,
            tr.window_view() == Seq::<i16>::empty(),
            tr.samples_seen() == 0,
    {
        PitchTracker {
            window: SampleWindow::new(config.window_size),
            cadence: CadenceController::new(config.trigger_interval),
            estimator: PitchEstimator::new(config),
        }
    }

    /// Deliver one sample: it enters the window (evicting the oldest
    /// sample once the window is full) and advances the cadence count.
    /// On every `trigger_interval`-th sample with a warmed-up window, one
    /// estimation run happens over a snapshot of the window and its
    /// outcome is returned; every other delivery returns `None`.
    pub fn process_sample(&mut self, s: i16) -> (r: Option<PitchEstimate>)
        requires
            old(self).wf(),
            old(self).samples_seen() < u64::MAX,
        ensures
            final(self).wf(),
            final(self).config_spec() == old(self).config_spec(),
            final(self).samples_seen() == old(self).samples_seen() + 1,
            final(self).window_view() == push_model(
                old(self).window_view(),
                s,
                old(self).config_spec().window_size as nat,
            ),
            r == if (old(self).samples_seen() + 1) % (
                old(self).config_spec().trigger_interval as int
            ) == 0 && final(self).window_view().len() == old(self).config_spec().window_size {
                estimate_spec(old(self).config_spec(), final(self).window_view())
            } else {
                Option::<PitchEstimate>::None
            },
            r matches Option::Some(e) ==> e.wf(),
    {
        self.window.push(s);
        let trigger = self.cadence.on_sample();
        if trigger && self.window.len() == self.estimator.config.window_size {
            let snap = self.window.snapshot();
            self.estimator.estimate(&snap)
        } else {
            Option::None
        }
    }
}

} // verus!
