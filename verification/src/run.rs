//! The life of one pipeline instance: its tag, and when it has to stop.
//!
//! An instance takes the shared instance number as its tag when it starts and
//! looks at the number again once per poll interval. It stops as soon as the
//! two differ. Nothing else cancels it.

use crate::settings::Settings;
use vstd::prelude::*;

verus! {

/// Whether the instance with the tag `tag` has to stop when it finds the shared
/// number at `current`.
pub open spec fn superseded(tag: usize, current: usize) -> bool {
    tag != current
}

/// The shared number after it was counted up `steps` times from `id`. The
/// counter wraps round at the largest number.
pub open spec fn counted_up(id: usize, steps: nat) -> usize {
    ((id + steps) % (usize::MAX + 1)) as usize
}

/// The time between two looks at the shared number, in milliseconds: the
/// latency.
pub open spec fn poll_interval(latency_ms: u32) -> u64 {
    latency_ms as u64
}

/// One pipeline instance.
#[derive(Debug, Clone, Copy, PartialEq, Eq)]
pub struct Instance {
    tag: usize,
}

impl Instance {
    /// The shared number that the instance found when it started.
    pub closed spec fn tag(&self) -> usize {
        self.tag
    }

    /// The instance that found the shared number at `tag` when it started.
    pub fn tagged(tag: usize) -> (r: Instance)
        ensures
            r.tag() == tag,
    {
        Instance { tag }
    }

    /// Starts an instance under the number that `settings` holds at this
    /// moment.
    pub fn begin(settings: &Settings) -> (r: Instance) {
        Instance::tagged(settings.instance())
    }

    /// Whether the instance has to stop, having found the shared number at
    /// `current`.
    pub fn is_superseded_by(&self, current: usize) -> (r: bool)
        ensures
            r == superseded(self.tag(), current),
    {
        self.tag != current
    }

    /// Looks at the shared number and tells whether the instance has to stop.
    pub fn should_stop(&self, settings: &Settings) -> (r: bool) {
        self.is_superseded_by(settings.instance())
    }
}

/// The time to wait between two looks at the shared number, in milliseconds.
pub fn poll_interval_ms(settings: &Settings) -> (r: u64)
    ensures
        r == poll_interval(settings.latency),
{
    settings.latency as u64
}

/// Counting the shared number up stops the instance that runs and leaves the
/// next one alone: an instance is superseded by the number that follows its
/// tag, and by every later one short of a full round of the counter; an
/// instance that starts under the new number is not superseded by it.
pub proof fn lemma_counting_up_supersedes(tag: usize, steps: nat)
    requires
        0 < steps <= usize::MAX,
    ensures
        superseded(tag, counted_up(tag, steps)),
        !superseded(counted_up(tag, steps), counted_up(tag, steps)),
{
    let modulus = usize::MAX + 1;
    if tag + steps < modulus {
        assert((tag + steps) % modulus == tag + steps);
    } else {
        assert((tag + steps) % modulus == tag + steps - modulus) by {
            vstd::arithmetic::div_mod::lemma_mod_sub_multiples_vanish((tag + steps) as int, modulus);
            vstd::arithmetic::div_mod::lemma_small_mod((tag + steps - modulus) as nat, modulus as nat);
        }
    }
}

} // verus!
