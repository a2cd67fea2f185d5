//! IdentityGuard: enforces the cumulative drift ceiling and permission asymmetry.
use super::permissions::{classify_change, PermissionConfig};
use super::{
    config_change, config_key_change, config_key_verdict, key_verdict, numbers_for, overall_change,
    IdentityCheckResult, KeyChange, KeyReading,
};
use crate::json::JsonValue;
use crate::table::StrMap;
use crate::float_bits::FloatBits;
use crate::policy::snapshot::PolicySnapshot;
use crate::types::PermissionChange;
use vstd::prelude::*;

verus! {

/// The reason text of a blocked change.
pub open spec fn drift_reason(drift_text: Seq<char>, ceiling_text: Seq<char>) -> Seq<char> {
    "Cumulative drift "@ + drift_text + " exceeds ceiling "@ + ceiling_text
}

/// Guards against excessive policy drift from the baseline identity.
#[derive(Debug)]
pub struct IdentityGuard {
    /// The baseline snapshot.
    baseline: PolicySnapshot,
    /// Maximum allowed drift (0.0 = no change, 1.0 = orthogonal, 2.0 = opposite).
    drift_ceiling: FloatBits,
    /// Permission asymmetry configuration.
    permission_config: PermissionConfig,
}

impl IdentityGuard {
    /// The baseline snapshot.
    pub closed spec fn spec_baseline(&self) -> PolicySnapshot {
        self.baseline
    }

    /// The drift ceiling.
    pub closed spec fn spec_ceiling(&self) -> FloatBits {
        self.drift_ceiling
    }

    /// The permission configuration.
    pub closed spec fn spec_config(&self) -> PermissionConfig {
        self.permission_config
    }

    /// A guard with the given baseline, drift ceiling and permission rules.
    pub fn new(baseline: PolicySnapshot, drift_ceiling: FloatBits, permission_config: PermissionConfig) -> (r: IdentityGuard)
        ensures
            r.spec_baseline() == baseline,
            r.spec_ceiling() == drift_ceiling,
            r.spec_config() == permission_config,
    {
        IdentityGuard { baseline, drift_ceiling, permission_config }
    }

    /// A guard with the default permission rules.
    pub fn with_defaults(baseline: PolicySnapshot, drift_ceiling: FloatBits) -> (r: IdentityGuard)
        ensures
            r.spec_baseline() == baseline,
            r.spec_ceiling() == drift_ceiling,
            r.spec_config().is_default(),
    {
        let config = PermissionConfig::default();
        Self::new(baseline, drift_ceiling, config)
    }

    /// The baseline snapshot.
    pub fn baseline(&self) -> (r: &PolicySnapshot)
        ensures
            *r == self.spec_baseline(),
    {
        &self.baseline
    }

    /// The drift ceiling.
    pub fn drift_ceiling(&self) -> (r: FloatBits)
        ensures
            r == self.spec_ceiling(),
    {
        self.drift_ceiling
    }

    /// The permission configuration.
    pub fn permission_config(&self) -> (r: &PermissionConfig)
        ensures
            *r == self.spec_config(),
    {
        &self.permission_config
    }

    /// Whether a drift is within the ceiling (`drift <= ceiling`).
    pub fn within_ceiling(&self, drift: FloatBits) -> (r: bool)
        ensures
            r == drift.spec_le(self.spec_ceiling()),
    {
        drift.le(&self.drift_ceiling)
    }

    /// The check of a proposal whose drift from the baseline is `drift`
    /// (`drift_text` and `ceiling_text` are the drift and the ceiling written
    /// with four decimals, for the reason).
    pub fn check(&self, drift: FloatBits, drift_text: &str, ceiling_text: &str) -> (r: IdentityCheckResult)
        ensures
            r.drift == drift,
            r.ceiling == self.spec_ceiling(),
            r.allowed == drift.spec_le(self.spec_ceiling()),
            r.allowed ==> r.reason is None,
            !r.allowed ==> (r.reason matches Some(m) && m@ == drift_reason(drift_text@, ceiling_text@)),
    {
        let allowed = self.within_ceiling(drift);
        let reason = if !allowed {
            let mut m = String::from_str("Cumulative drift ");
            m.append(drift_text);
            m.append(" exceeds ceiling ");
            m.append(ceiling_text);
            Some(m)
        } else {
            None
        };
        IdentityCheckResult { drift, ceiling: self.drift_ceiling, allowed, reason }
    }

    /// The drift currently reported: 0.0 (the current snapshot is tracked by
    /// the kernel, not by the guard).
    pub fn current_drift(&self) -> (r: FloatBits)
        ensures
            r.bits == 0,
    {
        FloatBits::zero()
    }

    /// Replaces the baseline.
    pub fn reset_baseline(&mut self, baseline: PolicySnapshot)
        ensures
            final(self).spec_baseline() == baseline,
            final(self).spec_ceiling() == old(self).spec_ceiling(),
            final(self).spec_config() == old(self).spec_config(),
    {
        self.baseline = baseline;
    }

    /// The most restrictive classification of the parameters of a proposed
    /// configuration (one reading per parameter of the proposal).
    pub fn classify_permission_change(&self, readings: &Vec<KeyReading>) -> (r: PermissionChange)
        ensures
            r == overall_change(self.spec_config(), readings@),
    {
        let config = &self.permission_config;
        let mut worst = PermissionChange::Tighten;
        let n = readings.len();
        let mut i: usize = 0;
        while i < n
            invariant
                n == readings@.len(),
                *config == self.spec_config(),
                i <= n,
                forall|j: int|
                    0 <= j < i ==> key_verdict(*config, #[trigger] readings@[j]) != Some(
                        PermissionChange::Never,
                    ),
                worst == PermissionChange::Loosen <==> exists|j: int|
                    0 <= j < i && key_verdict(*config, #[trigger] readings@[j]) == Some(
                        PermissionChange::Loosen,
                    ),
                worst == PermissionChange::Loosen || worst == PermissionChange::Tighten,
            decreases n - i,
        {
            let item = &readings[i];
            match &item.change {
                KeyChange::Added => {
                    worst = PermissionChange::Loosen;
                },
                KeyChange::Unchanged => {},
                KeyChange::Changed(reading) => {
                    let c = classify_change(config, item.key.as_str(), reading);
                    match c {
                        PermissionChange::Never => {
                            assert(key_verdict(*config, readings@[i as int]) == Some(
                                PermissionChange::Never,
                            ));
                            return PermissionChange::Never;
                        },
                        PermissionChange::Loosen => {
                            worst = PermissionChange::Loosen;
                        },
                        PermissionChange::Tighten => {},
                    }
                },
            }
            proof {
                if key_verdict(*config, readings@[i as int]) == Some(PermissionChange::Loosen) {
                    assert(worst == PermissionChange::Loosen);
                }
            }
            i = i + 1;
        }
        worst
    }
}

impl IdentityGuard {
    /// One reading per parameter of `proposed`, in its storage order: added,
    /// unchanged, or changed (with the numeric reading from `numbers` when
    /// both values are numbers).
    pub fn key_readings(
        current: &StrMap<JsonValue>,
        proposed: &StrMap<JsonValue>,
        numbers: &StrMap<(FloatBits, FloatBits, bool)>,
    ) -> (r: Vec<KeyReading>)
        requires
            forall|k: Seq<char>|
                #![trigger proposed@[k], current@[k]]
                proposed@.contains_key(k) && current@.contains_key(k) && current@[k] is Number
                    && proposed@[k] is Number ==> numbers@.contains_key(k),
        ensures
            r@.len() == proposed.key_seq().len(),
            forall|i: int|
                0 <= i < r@.len() ==> (#[trigger] r@[i]).key@ == proposed.key_seq()[i] && r@[i].change
                    == config_key_change(current@, proposed@, numbers@, proposed.key_seq()[i]),
    {
        proof {
            use_type_invariant(proposed);
            proposed.lemma_storage();
        }
        let n = proposed.len();
        let mut out: Vec<KeyReading> = Vec::new();
        let mut i: usize = 0;
        while i < n
            invariant
                n == proposed.key_seq().len(),
                i <= n,
                out@.len() == i,
                forall|k: Seq<char>|
                    #![trigger proposed@[k], current@[k]]
                    proposed@.contains_key(k) && current@.contains_key(k) && current@[k] is Number
                        && proposed@[k] is Number ==> numbers@.contains_key(k),
                forall|j: int|
                    0 <= j < proposed.key_seq().len() ==> #[trigger] proposed@[proposed.key_seq()[j]]
                        == proposed.value_seq()[j],
                forall|j: int| 0 <= j < proposed.key_seq().len() ==> proposed@.contains_key(#[trigger] proposed.key_seq()[j]),
                forall|j: int|
                    0 <= j < i ==> (#[trigger] out@[j]).key@ == proposed.key_seq()[j] && out@[j].change
                        == config_key_change(current@, proposed@, numbers@, proposed.key_seq()[j]),
            decreases n - i,
        {
            let key = proposed.key_at(i);
            let new = proposed.value_at(i);
            let ghost k = proposed.key_seq()[i as int];
            let old = current.get(key.as_str());
            let nums = match numbers.get(key.as_str()) {
                Some(t) => Some(*t),
                None => None,
            };
            proof {
                assert(proposed@.contains_key(k));
                assert(*new == proposed@[k]);
                if old is Some && old->0 is Number && new is Number {
                    assert(current@.contains_key(k));
                    assert(numbers@.contains_key(k));
                }
                assert(nums == numbers_for(numbers@, k));
            }
            let change = KeyChange::between(old, new, nums);
            out.push(KeyReading { key: key.clone(), change });
            i = i + 1;
        }
        out
    }

    /// The most restrictive classification of the changes from the `current`
    /// configuration to the `proposed` one (see `config_change`); `numbers`
    /// holds, for each parameter whose values are numbers in both, their
    /// `as_f64` values and whether they lie more than `f64::EPSILON` apart.
    pub fn classify_configs(
        &self,
        current: &StrMap<JsonValue>,
        proposed: &StrMap<JsonValue>,
        numbers: &StrMap<(FloatBits, FloatBits, bool)>,
    ) -> (r: PermissionChange)
        requires
            forall|k: Seq<char>|
                #![trigger proposed@[k], current@[k]]
                proposed@.contains_key(k) && current@.contains_key(k) && current@[k] is Number
                    && proposed@[k] is Number ==> numbers@.contains_key(k),
        ensures
            r == config_change(self.spec_config(), current@, proposed@, numbers@),
    {
        proof {
            use_type_invariant(proposed);
            proposed.lemma_storage();
        }
        let readings = Self::key_readings(current, proposed, numbers);
        let r = self.classify_permission_change(&readings);
        proof {
            let config = self.spec_config();
            let ks = proposed.key_seq();
            assert forall|i: int| 0 <= i < readings@.len() implies key_verdict(config, #[trigger] readings@[i])
                == config_key_verdict(config, current@, proposed@, numbers@, ks[i]) by {}
            let pn = Some(PermissionChange::Never);
            let pl = Some(PermissionChange::Loosen);
            if exists|k: Seq<char>| proposed@.contains_key(k) && #[trigger] config_key_verdict(config, current@, proposed@, numbers@, k) == pn {
                let k = choose|k: Seq<char>| proposed@.contains_key(k) && #[trigger] config_key_verdict(config, current@, proposed@, numbers@, k) == pn;
                let i = choose|i: int| 0 <= i < ks.len() && #[trigger] ks[i] == k;
                assert(key_verdict(config, readings@[i]) == pn);
            }
            if exists|k: Seq<char>| proposed@.contains_key(k) && #[trigger] config_key_verdict(config, current@, proposed@, numbers@, k) == pl {
                let k = choose|k: Seq<char>| proposed@.contains_key(k) && #[trigger] config_key_verdict(config, current@, proposed@, numbers@, k) == pl;
                let i = choose|i: int| 0 <= i < ks.len() && #[trigger] ks[i] == k;
                assert(key_verdict(config, readings@[i]) == pl);
            }
            if exists|i: int| 0 <= i < readings@.len() && key_verdict(config, #[trigger] readings@[i]) == pn {
                let i = choose|i: int| 0 <= i < readings@.len() && key_verdict(config, #[trigger] readings@[i]) == pn;
                assert(proposed@.contains_key(ks[i]));
                assert(config_key_verdict(config, current@, proposed@, numbers@, ks[i]) == pn);
            }
            if exists|i: int| 0 <= i < readings@.len() && key_verdict(config, #[trigger] readings@[i]) == pl {
                let i = choose|i: int| 0 <= i < readings@.len() && key_verdict(config, #[trigger] readings@[i]) == pl;
                assert(proposed@.contains_key(ks[i]));
                assert(config_key_verdict(config, current@, proposed@, numbers@, ks[i]) == pl);
            }
        }
        r
    }

    /// The classification of a change from the `current` policy to the
    /// `proposed` one, over their configurations (see `classify_configs`).
    pub fn classify_snapshots(
        &self,
        current: &PolicySnapshot,
        proposed: &PolicySnapshot,
        numbers: &StrMap<(FloatBits, FloatBits, bool)>,
    ) -> (r: PermissionChange)
        requires
            forall|k: Seq<char>|
                #![trigger proposed.config@[k], current.config@[k]]
                proposed.config@.contains_key(k) && current.config@.contains_key(k)
                    && current.config@[k] is Number && proposed.config@[k] is Number
                    ==> numbers@.contains_key(k),
        ensures
            r == config_change(self.spec_config(), current.config@, proposed.config@, numbers@),
    {
        self.classify_configs(&current.config, &proposed.config, numbers)
    }
}

/// A proposal identical to the baseline (drift 0.0) is allowed under any
/// ceiling that is a non-negative number; and a drift below an allowed drift
/// is allowed too.
pub proof fn law_allowed_drifts(ceiling: FloatBits, d1: FloatBits, d2: FloatBits)
    ensures
        !ceiling.spec_is_nan() && !ceiling.spec_lt(FloatBits::zero_value()) ==> FloatBits::zero_value().spec_le(
            ceiling,
        ),
        d1.spec_le(d2) && d2.spec_le(ceiling) ==> d1.spec_le(ceiling),
{
    assert(0u64 & 0x7fff_ffff_ffff_ffffu64 == 0u64) by (bit_vector);
    assert(0u64 & 0x7ff0_0000_0000_0000u64 == 0u64) by (bit_vector);
}

} // verus!
