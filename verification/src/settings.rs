//! The settings that the control side and the running pipeline share.

use std::sync::atomic::{AtomicBool, AtomicUsize, Ordering};
use std::sync::Arc;
use vstd::prelude::*;

verus! {

/// The settings of a pipeline. The flag and the counter are shared between the
/// control side and the audio threads: a clone of the settings reads and writes
/// the same two.
#[derive(Clone, Debug)]
pub struct Settings {
    /// Whether playback runs the samples through the equalizer.
    pub enable_eq: Arc<AtomicBool>,
    /// The number of the pipeline instance that is to run. It only counts up.
    pub instance_id: Arc<AtomicUsize>,
    /// The latency of the queue between capture and playback, in milliseconds.
    pub latency: u32,
}

impl Settings {
    /// Settings with the equalizer enabled, the instance number 0 and the
    /// latency `latency`.
    pub fn new(latency: u32) -> (r: Settings)
        ensures
            r.latency == latency,
    {
        Settings {
            enable_eq: Arc::new(AtomicBool::new(true)),
            instance_id: Arc::new(AtomicUsize::new(0)),
            latency,
        }
    }

    /// Whether the equalizer is enabled at this moment.
    pub fn eq_enabled(&self) -> bool {
        self.enable_eq.load(Ordering::Relaxed)
    }

    /// Enables or disables the equalizer for every holder of these settings.
    pub fn set_eq_enabled(&self, enabled: bool) {
        self.enable_eq.store(enabled, Ordering::Relaxed);
    }

    /// The number of the pipeline instance that is to run at this moment.
    pub fn instance(&self) -> usize {
        self.instance_id.load(Ordering::Relaxed)
    }

    /// Counts the instance number up by one, so that the instance that runs
    /// finds itself superseded. Returns the number from before.
    pub fn supersede(&self) -> usize {
        self.instance_id.fetch_add(1, Ordering::Relaxed)
    }
}

} // verus!
