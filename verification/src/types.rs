//! Shared types used across all modules.
use vstd::prelude::*;

verus! {

/// Identifier of an agent capability (e.g. "code_generation", "reasoning").
#[derive(Debug, PartialEq, Eq, Hash)]
pub struct CapabilityId(pub String);

impl CapabilityId {
    /// A capability identifier holding `id`.
    pub fn new(id: &str) -> (r: CapabilityId)
        ensures
            r.0@ == id@,
    {
        CapabilityId(String::from_str(id))
    }

    /// The identifier's text (what `Display` writes).
    pub fn as_text(&self) -> (r: &str)
        ensures
            r@ == self.0@,
    {
        self.0.as_str()
    }

    /// What `{:?}` renders for the identifier: `CapabilityId("...")`.
    pub open spec fn debug_text(&self) -> Seq<char> {
        "CapabilityId("@ + crate::text::debug_quoted(self.0@) + ")"@
    }

    /// The `{:?}` rendering of the identifier.
    pub fn debug_string(&self) -> (r: String)
        ensures
            r@ == self.debug_text(),
    {
        let quoted = crate::text::debug_string(self.0.as_str());
        crate::text::concat3("CapabilityId(", quoted.as_str(), ")")
    }
}

impl Clone for CapabilityId {
    fn clone(&self) -> (r: Self)
        ensures
            r == *self,
    {
        CapabilityId(self.0.clone())
    }
}

/// A point in time in UTC: whole seconds since the Unix epoch and the
/// nanoseconds within that second (above 10^9 only inside a leap second).
#[derive(Clone, Copy, Debug, PartialEq, Eq, Structural, Hash)]
pub struct Timestamp {
    pub secs: i64,
    pub nanos: u32,
}

impl Timestamp {
    /// `self` lies strictly after `other`.
    pub open spec fn spec_after(self, other: Timestamp) -> bool {
        self.secs > other.secs || (self.secs == other.secs && self.nanos > other.nanos)
    }

    /// Whether `self` lies strictly after `other`.
    pub fn is_after(&self, other: &Timestamp) -> (r: bool)
        ensures
            r == self.spec_after(*other),
    {
        self.secs > other.secs || (self.secs == other.secs && self.nanos > other.nanos)
    }
}

/// `is_after` is chronological order: an earlier second is never after,
/// a later second always is, and for times within their second (nanoseconds
/// below 10^9) it is the order of their nanoseconds since the epoch. It is a
/// strict order.
pub proof fn law_after_is_chronological(t: Timestamp, c: Timestamp, d: Timestamp)
    ensures
        t.secs < c.secs ==> !t.spec_after(c),
        t.secs > c.secs ==> t.spec_after(c),
        t.nanos < 1_000_000_000 && c.nanos < 1_000_000_000 ==> (t.spec_after(c) <==> t.secs
            * 1_000_000_000 + t.nanos > c.secs * 1_000_000_000 + c.nanos),
        !t.spec_after(t),
        t.spec_after(c) ==> !c.spec_after(t),
        t.spec_after(c) && c.spec_after(d) ==> t.spec_after(d),
{
}

/// A span of time as `chrono::TimeDelta` holds it: whole seconds (negative
/// for a negative span) and the nanoseconds added to them (below 10^9).
#[derive(Clone, Copy, Debug, PartialEq, Eq, Structural, Hash)]
pub struct TimeSpan {
    pub secs: i64,
    pub nanos: u32,
}

impl TimeSpan {
    /// The span in nanoseconds.
    pub open spec fn total_nanos(self) -> int {
        self.secs * 1_000_000_000 + self.nanos
    }
}

/// The outcome of a task execution.
#[derive(Clone, Copy, Debug, PartialEq, Eq, Structural, Hash)]
pub enum TaskOutcome {
    /// Task completed successfully.
    Success,
    /// Task failed.
    Failure,
    /// Task completed but with degraded quality.
    Degraded,
}

/// An observation of a task outcome, used to update the self-model.
/// Task and DAG identifiers are 128-bit UUID values.
#[derive(Debug, PartialEq, Eq)]
pub struct Observation {
    pub capability: CapabilityId,
    pub outcome: TaskOutcome,
    pub task_id: Option<u128>,
    pub dag_id: Option<u128>,
    pub timestamp: Timestamp,
}

impl Clone for Observation {
    fn clone(&self) -> (r: Self)
        ensures
            r == *self,
    {
        Observation {
            capability: self.capability.clone(),
            outcome: self.outcome,
            task_id: self.task_id,
            dag_id: self.dag_id,
            timestamp: self.timestamp,
        }
    }
}

/// Memory tiers of the runtime.
#[derive(Clone, Copy, Debug, PartialEq, Eq, Structural, Hash)]
pub enum MemoryTier {
    /// L1: in-context working memory, not expendable.
    L1Working,
    /// L2: session memory, recency-biased, partially expendable.
    L2Session,
    /// L3: long-term vector memory, expendable.
    L3LongTerm,
    /// L4: error journal, pattern-matched, expendable.
    L4ErrorJournal,
}

/// Which loop originated a request.
#[derive(Clone, Copy, Debug, PartialEq, Eq, Structural, Hash)]
pub enum LoopOrigin {
    Loop0Meta,
    Loop1Agentic,
    Loop2Harness,
}

/// Security zone for request routing.
#[derive(Clone, Copy, Debug, PartialEq, Eq, Structural, Hash)]
pub enum SecurityZone {
    /// Any provider allowed.
    Green,
    /// Approved providers only.
    Yellow,
    /// Local models only, or pre-approved endpoints.
    Red,
}

/// Priority levels for request scheduling (`P0` ranks first).
#[derive(Clone, Copy, Debug, PartialEq, Eq, Structural, PartialOrd, Ord, Hash)]
pub enum Priority {
    /// Loop 0 meta-observations, health checks. Reserved budget.
    P0,
    /// Loop 1 task execution. Standard admission control.
    P1,
    /// Experiments, A/B comparisons. Spare capacity only.
    P2,
}

/// Classification of a permission change for the asymmetry rule.
#[derive(Clone, Copy, Debug, PartialEq, Eq, Structural, Hash)]
pub enum PermissionChange {
    /// More restrictive: auto-approved.
    Tighten,
    /// Less restrictive: requires human review.
    Loosen,
    /// Touches a NEVER-tier parameter: always blocked.
    Never,
}

/// Kinds of critic output.
#[derive(Clone, Copy, Debug, PartialEq, Eq, Structural, Hash)]
pub enum CriticOutputType {
    PolicyUpdate,
    MemoryWrite,
    ToolAction,
    Alert,
    NoAction,
    Experiment,
}

/// Skill tier of the two-tier skill library.
#[derive(Clone, Copy, Debug, PartialEq, Eq, Structural, Hash)]
pub enum SkillTier {
    /// Domain-specific skills (e.g. "rust_debugging").
    TaskSkill,
    /// Domain-general meta-skills (e.g. "decomposition").
    MetaSkill,
}

/// A value with a score (the score held as a binary64 bit pattern).
#[derive(Clone, Debug)]
pub struct ScoredItem<T> {
    pub item: T,
    pub score: crate::float_bits::FloatBits,
}

/// Result of a shadow test evaluation (scores as binary64 bit patterns).
#[derive(Clone, Copy, Debug)]
pub struct ShadowTestResult {
    pub baseline_score: crate::float_bits::FloatBits,
    pub candidate_score: crate::float_bits::FloatBits,
    pub imp_at_k: crate::float_bits::FloatBits,
    pub sample_count: usize,
    pub timestamp: Timestamp,
}

} // verus!
