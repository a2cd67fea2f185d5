//! Configurable critique rules and thresholds.
use crate::float_bits::FloatBits;
use vstd::prelude::*;

verus! {

/// Decision thresholds of the meta-cognition engine (confidence thresholds
/// as binary64 bit patterns).
#[derive(Clone, Copy, Debug, PartialEq, Eq, Structural)]
pub struct CriticConfig {
    /// Below this confidence after a failure, recommend a policy change.
    pub policy_update_confidence_threshold: FloatBits,
    /// Consecutive failures before an alert.
    pub alert_failure_streak: u32,
    /// Below this confidence, recommend an experiment to gather data.
    pub experiment_confidence_threshold: FloatBits,
    /// Observations needed before a policy change is recommended.
    pub min_observations_for_policy: u64,
    /// Always journal failures to the error journal (L4).
    pub always_journal_failures: bool,
}

impl Default for CriticConfig {
    /// Thresholds 0.4 (policy update) and 0.3 (experiment), alert after 3
    /// consecutive failures, at least 5 observations, journal every failure.
    fn default() -> (r: Self)
        ensures
            r.policy_update_confidence_threshold.bits == 0x3fd9_9999_9999_999au64,
            r.alert_failure_streak == 3,
            r.experiment_confidence_threshold.bits == 0x3fd3_3333_3333_3333u64,
            r.min_observations_for_policy == 5,
            r.always_journal_failures,
    {
        CriticConfig {
            policy_update_confidence_threshold: FloatBits::from_bits(0x3fd9_9999_9999_999au64),
            alert_failure_streak: 3,
            experiment_confidence_threshold: FloatBits::from_bits(0x3fd3_3333_3333_3333u64),
            min_observations_for_policy: 5,
            always_journal_failures: true,
        }
    }
}

} // verus!
