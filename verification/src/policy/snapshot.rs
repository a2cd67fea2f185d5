//! Policy snapshot: a versioned point-in-time capture of policy state.
use crate::float_bits::FloatBits;
use crate::json::JsonValue;
use crate::table::StrMap;
use crate::types::Timestamp;
use vstd::prelude::*;

verus! {

/// A versioned snapshot of the agent's policy configuration. Identifiers are
/// 128-bit UUID values; the score and the feature vector hold binary64 bit
/// patterns.
#[derive(Debug, Clone)]
pub struct PolicySnapshot {
    /// Unique identifier of this snapshot.
    pub id: u128,
    /// Parent snapshot (None for a root).
    pub parent_id: Option<u128>,
    /// Score for quality-diversity selection.
    pub score: FloatBits,
    /// When this snapshot was created.
    pub created_at: Timestamp,
    /// The policy configuration as key-value pairs.
    pub config: StrMap<JsonValue>,
    /// Human-readable description of what changed.
    pub description: String,
    /// Vectorized representation used for the identity check.
    pub feature_vector: Vec<FloatBits>,
}

/// `s` with its parent field set to `parent` (`None`: a root).
pub open spec fn with_parent_id(s: PolicySnapshot, parent: Option<u128>) -> PolicySnapshot {
    PolicySnapshot {
        id: s.id,
        parent_id: parent,
        score: s.score,
        created_at: s.created_at,
        config: s.config,
        description: s.description,
        feature_vector: s.feature_vector,
    }
}

/// `s` with its parent set to `parent`.
pub open spec fn with_parent(s: PolicySnapshot, parent: u128) -> PolicySnapshot {
    with_parent_id(s, Some(parent))
}

} // verus!
