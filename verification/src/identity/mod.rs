//! Identity guard: drift ceiling enforcement and permission asymmetry.
//!
//! Prevents the ship-of-Theseus problem by bounding the cumulative drift of a
//! policy from a baseline, and by classifying permission changes as tighten
//! (auto-approve), loosen (human review) or NEVER (always blocked).
pub mod guard;
pub mod permissions;

use crate::float_bits::FloatBits;
use crate::json::{json_eq, json_equal, JsonValue};
use permissions::{PermissionConfig, ValueReading};
use crate::persistence::texts;
use crate::types::PermissionChange;
use vstd::prelude::*;

verus! {

/// How one parameter of a proposed configuration relates to the current one.
#[derive(Clone, Copy, Debug, PartialEq, Eq, Structural)]
pub enum KeyChange {
    /// The parameter is new.
    Added,
    /// The parameter keeps an equal value.
    Unchanged,
    /// The parameter's value changed.
    Changed(ValueReading),
}

impl KeyChange {
    /// How a parameter whose value was `old` (`None`: absent) and is `new`
    /// changed; `numbers` as for `ValueReading::spec_between`.
    pub open spec fn spec_between(
        old: Option<JsonValue>,
        new: JsonValue,
        numbers: Option<(FloatBits, FloatBits, bool)>,
    ) -> KeyChange {
        match old {
            None => KeyChange::Added,
            Some(o) => if json_eq(o, new) {
                KeyChange::Unchanged
            } else {
                KeyChange::Changed(ValueReading::spec_between(o, new, numbers))
            },
        }
    }

    /// How a parameter changed: added, unchanged (equal values), or changed.
    pub fn between(old: Option<&JsonValue>, new: &JsonValue, numbers: Option<(FloatBits, FloatBits, bool)>) -> (r: KeyChange)
        requires
            old matches Some(o) && o is Number && new is Number ==> numbers is Some,
        ensures
            r == Self::spec_between(
                match old {
                    Some(o) => Some(*o),
                    None => None,
                },
                *new,
                numbers,
            ),
    {
        match old {
            None => KeyChange::Added,
            Some(o) => {
                if json_equal(o, new) {
                    KeyChange::Unchanged
                } else {
                    KeyChange::Changed(ValueReading::between(o, new, numbers))
                }
            },
        }
    }
}

/// A parameter of a proposed configuration and how it changed.
#[derive(Debug, Clone)]
pub struct KeyReading {
    pub key: String,
    pub change: KeyChange,
}

/// What one parameter contributes: a new parameter counts as loosening, an
/// unchanged one contributes nothing, a changed one its classification.
pub open spec fn key_verdict(config: PermissionConfig, reading: KeyReading) -> Option<PermissionChange> {
    change_verdict(config, reading.key@, reading.change)
}

/// What parameter `key`, changed as `change`, contributes.
pub open spec fn change_verdict(config: PermissionConfig, key: Seq<char>, change: KeyChange) -> Option<
    PermissionChange,
> {
    match change {
        KeyChange::Added => Some(PermissionChange::Loosen),
        KeyChange::Unchanged => None,
        KeyChange::Changed(r) => Some(config.spec_classify(key, r)),
    }
}

/// The most restrictive classification over all parameters: `Never` if any
/// parameter is `Never`, else `Loosen` if any loosens, else `Tighten`.
pub open spec fn overall_change(config: PermissionConfig, readings: Seq<KeyReading>) -> PermissionChange {
    if exists|i: int|
        0 <= i < readings.len() && key_verdict(config, #[trigger] readings[i]) == Some(
            PermissionChange::Never,
        ) {
        PermissionChange::Never
    } else if exists|i: int|
        0 <= i < readings.len() && key_verdict(config, #[trigger] readings[i]) == Some(
            PermissionChange::Loosen,
        ) {
        PermissionChange::Loosen
    } else {
        PermissionChange::Tighten
    }
}

/// The numeric reading recorded for `k`, if any.
pub open spec fn numbers_for(
    numbers: Map<Seq<char>, (FloatBits, FloatBits, bool)>,
    k: Seq<char>,
) -> Option<(FloatBits, FloatBits, bool)> {
    if numbers.contains_key(k) {
        Some(numbers[k])
    } else {
        None
    }
}

/// How parameter `k` of the proposed configuration changed from the current
/// one (`numbers` holds the numeric readings of parameters whose values are
/// numbers in both).
pub open spec fn config_key_change(
    current: Map<Seq<char>, JsonValue>,
    proposed: Map<Seq<char>, JsonValue>,
    numbers: Map<Seq<char>, (FloatBits, FloatBits, bool)>,
    k: Seq<char>,
) -> KeyChange {
    KeyChange::spec_between(
        if current.contains_key(k) {
            Some(current[k])
        } else {
            None
        },
        proposed[k],
        numbers_for(numbers, k),
    )
}

/// What parameter `k` of the proposed configuration contributes.
pub open spec fn config_key_verdict(
    config: PermissionConfig,
    current: Map<Seq<char>, JsonValue>,
    proposed: Map<Seq<char>, JsonValue>,
    numbers: Map<Seq<char>, (FloatBits, FloatBits, bool)>,
    k: Seq<char>,
) -> Option<PermissionChange> {
    change_verdict(config, k, config_key_change(current, proposed, numbers, k))
}

/// The most restrictive classification over the parameters of the proposed
/// configuration: `Never` if one is `Never`, else `Loosen` if one is new or
/// loosens, else `Tighten`. Parameters only in the current configuration
/// play no part.
pub open spec fn config_change(
    config: PermissionConfig,
    current: Map<Seq<char>, JsonValue>,
    proposed: Map<Seq<char>, JsonValue>,
    numbers: Map<Seq<char>, (FloatBits, FloatBits, bool)>,
) -> PermissionChange {
    if exists|k: Seq<char>|
        proposed.contains_key(k) && #[trigger] config_key_verdict(config, current, proposed, numbers, k)
            == Some(PermissionChange::Never) {
        PermissionChange::Never
    } else if exists|k: Seq<char>|
        proposed.contains_key(k) && #[trigger] config_key_verdict(config, current, proposed, numbers, k)
            == Some(PermissionChange::Loosen) {
        PermissionChange::Loosen
    } else {
        PermissionChange::Tighten
    }
}

/// Result of an identity check (drift and ceiling as binary64 bit patterns).
#[derive(Debug, Clone)]
pub struct IdentityCheckResult {
    /// Drift distance from the baseline (0.0 = identical).
    pub drift: FloatBits,
    /// The configured ceiling.
    pub ceiling: FloatBits,
    /// Whether the proposed change is allowed.
    pub allowed: bool,
    /// If not allowed, the reason.
    pub reason: Option<String>,
}

/// A NEVER-tier parameter is always `Never`, whatever the change.
pub proof fn law_never_tier_blocks(config: PermissionConfig, param: Seq<char>, reading: ValueReading)
    requires
        crate::persistence::texts(config.never_modify@).to_set().contains(param),
    ensures
        config.spec_classify(param, reading) == PermissionChange::Never,
{
}

/// For a parameter that loosens on increase (and is not NEVER-tier), raising
/// it loosens and lowering it or keeping it tightens; symmetrically for a
/// parameter that loosens on decrease.
pub proof fn law_direction(config: PermissionConfig, param: Seq<char>, old: FloatBits, new: FloatBits, gap: bool)
    requires
        !crate::persistence::texts(config.never_modify@).to_set().contains(param),
    ensures
        crate::persistence::texts(config.loosen_on_increase@).to_set().contains(param) ==> (
        config.spec_classify(param, ValueReading::Numeric { old, new, gap_exceeds_epsilon: gap })
            == if old.spec_lt(new) {
            PermissionChange::Loosen
        } else {
            PermissionChange::Tighten
        }),
        !crate::persistence::texts(config.loosen_on_increase@).to_set().contains(param)
            && crate::persistence::texts(config.loosen_on_decrease@).to_set().contains(param) ==> (
        config.spec_classify(param, ValueReading::Numeric { old, new, gap_exceeds_epsilon: gap })
            == if new.spec_lt(old) {
            PermissionChange::Loosen
        } else {
            PermissionChange::Tighten
        }),
{
}

/// A parameter in none of the lists is judged conservatively: any numeric
/// change by more than `f64::EPSILON`, up or down, loosens; a smaller one
/// tightens.
pub proof fn law_unlisted_numeric(
    config: PermissionConfig,
    param: Seq<char>,
    old: FloatBits,
    new: FloatBits,
    gap: bool,
)
    requires
        !crate::persistence::texts(config.never_modify@).to_set().contains(param),
        !crate::persistence::texts(config.loosen_on_increase@).to_set().contains(param),
        !crate::persistence::texts(config.loosen_on_decrease@).to_set().contains(param),
    ensures
        config.spec_classify(param, ValueReading::Numeric { old, new, gap_exceeds_epsilon: gap })
            == if gap {
            PermissionChange::Loosen
        } else {
            PermissionChange::Tighten
        },
        config.spec_classify(param, ValueReading::Numeric { old, new: old, gap_exceeds_epsilon: true })
            == PermissionChange::Loosen,
        new.spec_lt(old) ==> config.spec_classify(
            param,
            ValueReading::Numeric { old, new, gap_exceeds_epsilon: true },
        ) == PermissionChange::Loosen,
{
}

/// Outside the NEVER tier, a changed non-numeric value loosens (the
/// conservative default), and an unchanged one tightens.
pub proof fn law_non_numeric(config: PermissionConfig, param: Seq<char>)
    requires
        !crate::persistence::texts(config.never_modify@).to_set().contains(param),
    ensures
        config.spec_classify(param, ValueReading::NonNumeric { differs: true })
            == PermissionChange::Loosen,
        config.spec_classify(param, ValueReading::NonNumeric { differs: false })
            == PermissionChange::Tighten,
{
}

/// The overall classification is the most restrictive one: `Never` exactly
/// when some parameter is `Never`; a new parameter makes it at least `Loosen`;
/// a proposal whose parameters are all unchanged is `Tighten`.
pub proof fn law_most_restrictive_wins(config: PermissionConfig, readings: Seq<KeyReading>)
    ensures
        (overall_change(config, readings) == PermissionChange::Never) == exists|i: int|
            0 <= i < readings.len() && key_verdict(config, #[trigger] readings[i]) == Some(
                PermissionChange::Never,
            ),
        (exists|i: int| 0 <= i < readings.len() && (#[trigger] readings[i]).change == KeyChange::Added)
            ==> overall_change(config, readings) != PermissionChange::Tighten,
        (forall|i: int| 0 <= i < readings.len() ==> (#[trigger] readings[i]).change == KeyChange::Unchanged)
            ==> overall_change(config, readings) == PermissionChange::Tighten,
{
    if exists|i: int| 0 <= i < readings.len() && (#[trigger] readings[i]).change == KeyChange::Added {
        let i = choose|i: int| 0 <= i < readings.len() && (#[trigger] readings[i]).change == KeyChange::Added;
        assert(key_verdict(config, readings[i]) == Some(PermissionChange::Loosen));
    }
}

/// Over whole configurations: a parameter new in the proposal is never
/// auto-approved, a changed NEVER-tier parameter blocks the proposal, and a
/// proposal whose parameters all keep their values is auto-approved.
pub proof fn law_config_classification(
    config: PermissionConfig,
    current: Map<Seq<char>, JsonValue>,
    proposed: Map<Seq<char>, JsonValue>,
    numbers: Map<Seq<char>, (FloatBits, FloatBits, bool)>,
    k: Seq<char>,
)
    ensures
        proposed.contains_key(k) && !current.contains_key(k) ==> config_change(
            config,
            current,
            proposed,
            numbers,
        ) != PermissionChange::Tighten,
        proposed.contains_key(k) && current.contains_key(k) && !json_eq(current[k], proposed[k])
            && texts(config.never_modify@).to_set().contains(k) ==> config_change(
            config,
            current,
            proposed,
            numbers,
        ) == PermissionChange::Never,
        (forall|j: Seq<char>|
            #[trigger] proposed.contains_key(j) ==> current.contains_key(j) && json_eq(
                current[j],
                proposed[j],
            )) ==> config_change(config, current, proposed, numbers) == PermissionChange::Tighten,
{
    if proposed.contains_key(k) && !current.contains_key(k) {
        assert(config_key_verdict(config, current, proposed, numbers, k) == Some(
            PermissionChange::Loosen,
        ));
    }
    if proposed.contains_key(k) && current.contains_key(k) && !json_eq(current[k], proposed[k])
        && texts(config.never_modify@).to_set().contains(k) {
        assert(config_key_verdict(config, current, proposed, numbers, k) == Some(
            PermissionChange::Never,
        ));
    }
}

} // verus!
