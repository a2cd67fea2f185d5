//! Typed critic outputs: the six action kinds of meta-cognition.
use crate::json::JsonValue;
use crate::types::MemoryTier;
use vstd::prelude::*;

verus! {

/// Alert severity levels.
#[derive(Clone, Copy, Debug, PartialEq, Eq, Structural, Hash)]
pub enum AlertSeverity {
    Info,
    Warning,
    Critical,
}

/// Typed output of the meta-cognition engine.
#[derive(Debug, Clone, PartialEq)]
pub enum CriticOutput {
    /// Recommend a policy parameter change.
    PolicyUpdate { parameter: String, old_value: JsonValue, new_value: JsonValue, rationale: String },
    /// Write something to a memory tier.
    MemoryWrite { tier: MemoryTier, key: String, content: String },
    /// Trigger a tool action (e.g. re-run a failing test).
    ToolAction { tool_name: String, args: JsonValue, rationale: String },
    /// Alert requiring human attention (the related task is a 128-bit UUID value).
    Alert { severity: AlertSeverity, message: String, related_task: Option<u128> },
    /// No action needed: the observation is within expected bounds.
    NoAction { reason: String },
    /// Propose an experiment (A/B test, shadow test, ...).
    Experiment { hypothesis: String, proposed_change: JsonValue, evaluation_metric: String },
}

} // verus!
