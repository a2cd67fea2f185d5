//! Events emitted by engine operations, for the audit trail.
use crate::float_bits::FloatBits;
use crate::types::{CapabilityId, PermissionChange, TaskOutcome, Timestamp};
use vstd::prelude::*;

verus! {

/// Audit-trail events. Floating-point quantities are binary64 bit patterns;
/// snapshot identifiers are 128-bit UUID values.
#[derive(Debug, Clone)]
pub enum SieEvent {
    /// The self-model was updated with a new observation.
    SelfModelUpdated {
        capability: CapabilityId,
        outcome: TaskOutcome,
        new_confidence: FloatBits,
        timestamp: Timestamp,
    },
    /// The critic produced an output.
    CriticOutput { output_type: String, summary: String, timestamp: Timestamp },
    /// A new policy snapshot was committed.
    PolicyCommitted {
        snapshot_id: u128,
        parent_id: Option<u128>,
        score: FloatBits,
        description: String,
        timestamp: Timestamp,
    },
    /// A policy branch was forked.
    PolicyForked { from_id: u128, new_id: u128, timestamp: Timestamp },
    /// An identity check was performed.
    IdentityChecked { drift: FloatBits, ceiling: FloatBits, allowed: bool, timestamp: Timestamp },
    /// A permission change was classified.
    PermissionClassified {
        change_type: PermissionChange,
        parameters_affected: Vec<String>,
        timestamp: Timestamp,
    },
    /// A shadow test was run.
    ShadowTestRun {
        baseline_score: FloatBits,
        candidate_score: FloatBits,
        imp_at_k: FloatBits,
        k: usize,
        timestamp: Timestamp,
    },
    /// Self-model decay was applied.
    DecayApplied { lambda: FloatBits, capabilities_affected: usize, timestamp: Timestamp },
}

} // verus!
