//! PerceptionEngine: collects observations and aggregates them into a
//! perception state.
use super::{
    after_instant, after_parts, cutoff_nanos, grouped_under, groups_of, newer_than, PerceptionSource,
    PerceptionState,
};
use crate::error::SieError;
use crate::float_bits::FloatBits;
use crate::table::StrMap;
use crate::types::{Observation, TimeSpan, Timestamp};
use vstd::prelude::*;

verus! {

/// Perception engine: stored observations plus the resource figures the
/// kernel reports.
pub struct PerceptionEngine {
    /// All ingested observations, in arrival order.
    observations: Vec<Observation>,
    /// Current resource utilization, as a binary64 bit pattern.
    resource_utilization: FloatBits,
    /// Current active task count.
    active_task_count: usize,
}

impl PerceptionEngine {
    /// The current resource utilization.
    pub closed spec fn spec_utilization(&self) -> FloatBits {
        self.resource_utilization
    }

    /// The current active task count.
    pub closed spec fn spec_task_count(&self) -> usize {
        self.active_task_count
    }

    /// An engine with no observations, utilization 0.0 and no active task.
    pub fn new() -> (r: PerceptionEngine)
        ensures
            r.observations() == Seq::<Observation>::empty(),
            r.spec_utilization().bits == 0,
            r.spec_task_count() == 0,
    {
        PerceptionEngine {
            observations: Vec::new(),
            resource_utilization: FloatBits::zero(),
            active_task_count: 0,
        }
    }

    /// Sets the resource utilization, clamped to [0.0, 1.0] (a NaN is kept).
    pub fn set_resource_utilization(&mut self, utilization: FloatBits)
        ensures
            utilization.spec_lt(FloatBits::zero_value()) ==> final(self).spec_utilization()
                == FloatBits::zero_value(),
            FloatBits::one_value().spec_lt(utilization) ==> final(self).spec_utilization()
                == FloatBits::one_value(),
            !utilization.spec_lt(FloatBits::zero_value()) && !FloatBits::one_value().spec_lt(
                utilization,
            ) ==> final(self).spec_utilization() == utilization,
            final(self).observations() == old(self).observations(),
            final(self).spec_task_count() == old(self).spec_task_count(),
    {
        proof {
            assert(0x3ff0_0000_0000_0000u64 & 0x7fff_ffff_ffff_ffffu64 == 0x3ff0_0000_0000_0000u64)
                by (bit_vector);
            assert(0u64 & 0x7fff_ffff_ffff_ffffu64 == 0u64) by (bit_vector);
        }
        self.resource_utilization = utilization.clamp(FloatBits::zero(), FloatBits::one());
    }

    /// Sets the active task count.
    pub fn set_active_task_count(&mut self, count: usize)
        ensures
            final(self).spec_task_count() == count,
            final(self).observations() == old(self).observations(),
            final(self).spec_utilization() == old(self).spec_utilization(),
    {
        self.active_task_count = count;
    }

    /// Number of stored observations.
    pub fn observation_count(&self) -> (r: usize)
        ensures
            r == self.observations().len(),
    {
        self.observations.len()
    }

    /// Keeps, in order, the observations strictly newer than `cutoff`.
    pub fn prune_before(&mut self, cutoff: Timestamp)
        ensures
            final(self).observations() == old(self).observations().filter(newer_than(cutoff)),
            final(self).spec_utilization() == old(self).spec_utilization(),
            final(self).spec_task_count() == old(self).spec_task_count(),
    {
        let mut kept: Vec<Observation> = Vec::new();
        let n = self.observations.len();
        let mut i: usize = 0;
        while i < n
            invariant
                n == self.observations@.len(),
                i <= n,
                kept@ == self.observations@.take(i as int).filter(newer_than(cutoff)),
            decreases n - i,
        {
            let o = &self.observations[i];
            proof {
                assert(self.observations@.take(i + 1) =~= self.observations@.take(i as int).push(
                    self.observations@[i as int],
                ));
                self.observations@.take(i as int).lemma_filter_push(
                    self.observations@[i as int],
                    newer_than(cutoff),
                );
            }
            if o.timestamp.is_after(&cutoff) {
                kept.push(o.clone());
            }
            i = i + 1;
        }
        assert(self.observations@.take(n as int) =~= self.observations@);
        self.observations = kept;
    }
}

impl Default for PerceptionEngine {
    fn default() -> (r: Self)
        ensures
            r.observations() == Seq::<Observation>::empty(),
            r.spec_utilization() == FloatBits::zero_value(),
            r.spec_task_count() == 0,
    {
        Self::new()
    }
}

impl PerceptionEngine {
    /// Keeps, in order, the observations strictly after second `secs`,
    /// nanosecond `nanos`.
    fn retain_after(&mut self, secs: i128, nanos: i128)
        ensures
            final(self).observations@ == old(self).observations@.filter(
                after_parts(secs as int, nanos as int),
            ),
            final(self).resource_utilization == old(self).resource_utilization,
            final(self).active_task_count == old(self).active_task_count,
    {
        let ghost pred = after_parts(secs as int, nanos as int);
        let mut kept: Vec<Observation> = Vec::new();
        let n = self.observations.len();
        let mut i: usize = 0;
        while i < n
            invariant
                n == self.observations@.len(),
                i <= n,
                pred == after_parts(secs as int, nanos as int),
                kept@ == self.observations@.take(i as int).filter(pred),
            decreases n - i,
        {
            let o = &self.observations[i];
            proof {
                assert(self.observations@.take(i + 1) =~= self.observations@.take(i as int).push(
                    self.observations@[i as int],
                ));
                self.observations@.take(i as int).lemma_filter_push(
                    self.observations@[i as int],
                    pred,
                );
            }
            let s = o.timestamp.secs as i128;
            if s > secs || (s == secs && (o.timestamp.nanos as i128) > nanos) {
                kept.push(o.clone());
            }
            i = i + 1;
        }
        assert(self.observations@.take(n as int) =~= self.observations@);
        self.observations = kept;
    }
}

/// Renderings of the observations' capabilities.
spec fn renderings(obs: Seq<Observation>) -> Seq<Seq<char>> {
    obs.map_values(|o: Observation| o.capability.debug_text())
}

impl PerceptionSource for PerceptionEngine {
    closed spec fn observations(&self) -> Seq<Observation> {
        self.observations@
    }

    fn ingest(&mut self, observation: Observation) {
        self.observations.push(observation);
    }

    fn perceive(&self, now: Timestamp) -> (r: Result<PerceptionState, SieError>)
        ensures
            r matches Ok(state) && state.resource_utilization == self.spec_utilization()
                && state.active_task_count == self.spec_task_count(),
    {
        let ghost all = self.observations@;
        let mut recent: Vec<Observation> = Vec::new();
        let mut by_loop: StrMap<Vec<Observation>> = StrMap::new();
        let n = self.observations.len();
        let mut i: usize = 0;
        while i < n
            invariant
                all == self.observations@,
                n == all.len(),
                i <= n,
                recent@ == all.take(i as int),
                by_loop@.dom() == renderings(all.take(i as int)).to_set(),
                forall|k: Seq<char>|
                    #[trigger] by_loop@.contains_key(k) ==> by_loop@[k]@ == all.take(i as int).filter(
                        grouped_under(k),
                    ),
            decreases n - i,
        {
            let o = &self.observations[i];
            let key = o.capability.debug_string();
            let ghost prefix = all.take(i as int);
            let ghost kk = key@;
            proof {
                assert(all.take(i + 1) =~= prefix.push(*o));
                assert(renderings(prefix.push(*o)) =~= renderings(prefix).push(kk));
                renderings(prefix).lemma_push_to_set_commute(kk);
                assert forall|k: Seq<char>| true implies prefix.push(*o).filter(grouped_under(k))
                    == if k == kk {
                    prefix.filter(grouped_under(k)).push(*o)
                } else {
                    prefix.filter(grouped_under(k))
                } by {
                    prefix.lemma_filter_push(*o, grouped_under(k));
                }
            }
            recent.push(o.clone());
            let ghost old_map = by_loop@;
            let group = match by_loop.remove(key.as_str()) {
                Some(g) => {
                    let mut g = g;
                    g.push(o.clone());
                    g
                },
                None => {
                    proof {
                        assert(!old_map.contains_key(kk));
                        assert(prefix.filter(grouped_under(kk)) =~= Seq::<Observation>::empty()) by {
                            broadcast use vstd::seq_lib::group_filter_ensures;

                            if prefix.filter(grouped_under(kk)).len() > 0 {
                                let x = prefix.filter(grouped_under(kk))[0];
                                assert(prefix.filter(grouped_under(kk)).contains(x));
                                prefix.lemma_filter_contains_rev(grouped_under(kk), x);
                                let j = choose|j: int| 0 <= j < prefix.len() && prefix[j] == x;
                                assert(renderings(prefix)[j] == kk);
                                assert(renderings(prefix).to_set().contains(kk));
                            }
                        }
                    }
                    let mut g: Vec<Observation> = Vec::new();
                    g.push(o.clone());
                    g
                },
            };
            by_loop.insert(key, group);
            proof {
                assert(by_loop@.dom() =~= renderings(all.take(i + 1)).to_set());
            }
            i = i + 1;
        }
        proof {
            assert(all.take(n as int) =~= all);
        }
        Ok(
            PerceptionState {
                recent_observations: recent,
                resource_utilization: self.resource_utilization,
                active_task_count: self.active_task_count,
                by_loop,
                timestamp: now,
            },
        )
    }

    fn prune(&mut self, now: Timestamp, max_age: TimeSpan)
        ensures
            final(self).spec_utilization() == old(self).spec_utilization(),
            final(self).spec_task_count() == old(self).spec_task_count(),
    {
        let ghost cut = cutoff_nanos(now, max_age);
        let mut secs: i128 = now.secs as i128 - max_age.secs as i128;
        let mut nanos: i128 = now.nanos as i128 - max_age.nanos as i128;
        while nanos < 0
            invariant
                secs * 1_000_000_000 + nanos == cut,
                cut == cutoff_nanos(now, max_age),
                -0x1_0000_0000 <= nanos < 0x1_0000_0000,
            decreases 0x1_0000_0000 - nanos,
        {
            nanos = nanos + 1_000_000_000;
            secs = secs - 1;
        }
        while nanos >= 1_000_000_000
            invariant
                secs * 1_000_000_000 + nanos == cut,
                cut == cutoff_nanos(now, max_age),
                0 <= nanos < 0x1_0000_0000,
            decreases nanos,
        {
            nanos = nanos - 1_000_000_000;
            secs = secs + 1;
        }
        proof {
            vstd::arithmetic::div_mod::lemma_fundamental_div_mod_converse(
                cut,
                1_000_000_000,
                secs as int,
                nanos as int,
            );
        }
        self.retain_after(secs, nanos);
        assert(after_instant(cut) == after_parts(secs as int, nanos as int));
    }
}

/// Pruning before a cutoff drops every observation from an earlier second
/// and keeps every one from a later second.
pub proof fn law_prune_before_is_chronological(observations: Seq<Observation>, cutoff: Timestamp, o: Observation)
    requires
        observations.contains(o),
    ensures
        o.timestamp.secs < cutoff.secs ==> !observations.filter(newer_than(cutoff)).contains(o),
        o.timestamp.secs > cutoff.secs ==> observations.filter(newer_than(cutoff)).contains(o),
{
    broadcast use vstd::seq_lib::group_filter_ensures;

    if o.timestamp.secs > cutoff.secs {
        observations.filter_lemma(newer_than(cutoff));
        let i = choose|i: int| 0 <= i < observations.len() && observations[i] == o;
        assert(newer_than(cutoff)(observations[i]));
    }
    if observations.filter(newer_than(cutoff)).contains(o) {
        observations.filter_lemma(newer_than(cutoff));
    }
}

/// Pruning twice with the same cutoff prunes no more than once.
pub proof fn law_prune_idempotent(observations: Seq<Observation>, cutoff: Timestamp)
    ensures
        observations.filter(newer_than(cutoff)).filter(newer_than(cutoff)) == observations.filter(
            newer_than(cutoff),
        ),
    decreases observations.len(),
{
    let p = newer_than(cutoff);
    if observations.len() > 0 {
        let rest = observations.drop_last();
        let last = observations.last();
        assert(rest.push(last) =~= observations);
        law_prune_idempotent(rest, cutoff);
        rest.lemma_filter_push(last, p);
        if p(last) {
            rest.filter(p).lemma_filter_push(last, p);
        }
    } else {
        assert(observations.filter(p) =~= observations);
        assert(observations.filter(p).filter(p) =~= observations);
    }
}

/// A utilization that is a number is stored within [0.0, 1.0].
pub proof fn law_utilization_in_unit_range(u: FloatBits)
    requires
        !u.spec_is_nan(),
    ensures
        ({
            let stored = if u.spec_lt(FloatBits::zero_value()) {
                FloatBits::zero_value()
            } else if FloatBits::one_value().spec_lt(u) {
                FloatBits::one_value()
            } else {
                u
            };
            FloatBits::zero_value().spec_le(stored) && stored.spec_le(FloatBits::one_value())
        }),
{
    assert(0x3ff0_0000_0000_0000u64 & 0x7fff_ffff_ffff_ffffu64 == 0x3ff0_0000_0000_0000u64) by (bit_vector);
    assert(0u64 & 0x7fff_ffff_ffff_ffffu64 == 0u64) by (bit_vector);
    assert(0x3ff0_0000_0000_0000u64 & 0x7ff0_0000_0000_0000u64 == 0x3ff0_0000_0000_0000u64) by (bit_vector);
    assert(0u64 & 0x7ff0_0000_0000_0000u64 == 0u64) by (bit_vector);
}

} // verus!
