//! Perception: aggregates telemetry signals (task outcomes, resource use) into
//! the state Loop 0's PERCEIVE step reads.
pub mod engine;

use crate::error::SieError;
use crate::float_bits::FloatBits;
use crate::table::StrMap;
use crate::types::{Observation, TimeSpan, Timestamp};
use vstd::prelude::*;

verus! {

/// Aggregated perception state.
#[derive(Debug, Clone)]
pub struct PerceptionState {
    /// Recent observations from task executions.
    pub recent_observations: Vec<Observation>,
    /// Current resource utilization (0.0 to 1.0), as a binary64 bit pattern.
    pub resource_utilization: FloatBits,
    /// Number of active tasks.
    pub active_task_count: usize,
    /// Observations grouped by the `{:?}` rendering of their capability.
    pub by_loop: StrMap<Vec<Observation>>,
    /// When this state was taken.
    pub timestamp: Timestamp,
}

/// The test "the observation's capability renders as `key`".
pub open spec fn grouped_under(key: Seq<char>) -> spec_fn(Observation) -> bool {
    |o: Observation| o.capability.debug_text() == key
}

/// The test "the observation is newer than `cutoff`".
pub open spec fn newer_than(cutoff: Timestamp) -> spec_fn(Observation) -> bool {
    |o: Observation| o.timestamp.spec_after(cutoff)
}

/// The instant `span` before `now`, in nanoseconds since the Unix epoch.
pub open spec fn cutoff_nanos(now: Timestamp, span: TimeSpan) -> int {
    now.secs * 1_000_000_000 + now.nanos - span.total_nanos()
}

/// The test "the observation lies strictly after second `secs`, nanosecond
/// `nanos`", comparing seconds first, then nanoseconds (as chrono orders times).
pub open spec fn after_parts(secs: int, nanos: int) -> spec_fn(Observation) -> bool {
    |o: Observation| o.timestamp.secs > secs || (o.timestamp.secs == secs && o.timestamp.nanos > nanos)
}

/// The test "the observation lies strictly after the instant `cut`
/// (nanoseconds since the Unix epoch)".
pub open spec fn after_instant(cut: int) -> spec_fn(Observation) -> bool {
    after_parts(cut / 1_000_000_000, cut % 1_000_000_000)
}

/// `by_loop` groups `observations` by capability rendering: one group per
/// rendering that occurs, holding those observations in order.
pub open spec fn groups_of(by_loop: Map<Seq<char>, Vec<Observation>>, observations: Seq<Observation>) -> bool {
    &&& by_loop.dom() == observations.map_values(|o: Observation| o.capability.debug_text()).to_set()
    &&& forall|k: Seq<char>|
        #[trigger] by_loop.contains_key(k) ==> by_loop[k]@ == observations.filter(grouped_under(k))
}

/// A source of perception state.
pub trait PerceptionSource {
    /// The stored observations, in arrival order.
    spec fn observations(&self) -> Seq<Observation>;

    /// Ingests a new observation.
    fn ingest(&mut self, observation: Observation)
        ensures
            final(self).observations() == old(self).observations().push(observation),
    ;

    /// The current perception state, taken at `now`.
    fn perceive(&self, now: Timestamp) -> (r: Result<PerceptionState, SieError>)
        ensures
            r matches Ok(state) ==> state.recent_observations@ == self.observations() && groups_of(
                state.by_loop@,
                self.observations(),
            ) && state.timestamp == now,
    ;

    /// Drops observations older than `max_age` at time `now`: keeps, in
    /// order, those strictly after the instant `max_age` before `now`.
    fn prune(&mut self, now: Timestamp, max_age: TimeSpan)
        ensures
            final(self).observations() == old(self).observations().filter(
                after_instant(cutoff_nanos(now, max_age)),
            ),
    ;
}

} // verus!
