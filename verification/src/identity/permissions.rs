//! Permission asymmetry: tighten = auto-approve, loosen = human review,
//! NEVER = always blocked.
use crate::float_bits::FloatBits;
use crate::json::{json_eq, json_equal, JsonValue};
use crate::persistence::texts;
use crate::types::PermissionChange;
use vstd::prelude::*;

verus! {

/// Configuration of the permission asymmetry rules (each list is a set of
/// parameter names).
#[derive(Debug, Clone)]
pub struct PermissionConfig {
    /// Parameters that can NEVER be modified.
    pub never_modify: Vec<String>,
    /// Parameters where increasing the value loosens (e.g. "max_retries").
    pub loosen_on_increase: Vec<String>,
    /// Parameters where decreasing the value loosens (e.g. "min_confidence").
    pub loosen_on_decrease: Vec<String>,
}

impl Default for PermissionConfig {
    fn default() -> (r: Self)
        ensures
            r.is_default(),
    {
        let mut never_modify: Vec<String> = Vec::new();
        never_modify.push(String::from_str("identity.drift_ceiling"));
        never_modify.push(String::from_str("security.zone_override"));
        let mut loosen_on_increase: Vec<String> = Vec::new();
        loosen_on_increase.push(String::from_str("budget.max_tokens"));
        loosen_on_increase.push(String::from_str("retry.max_attempts"));
        let mut loosen_on_decrease: Vec<String> = Vec::new();
        loosen_on_decrease.push(String::from_str("quality.min_confidence"));
        loosen_on_decrease.push(String::from_str("safety.min_review_score"));
        let r = PermissionConfig { never_modify, loosen_on_increase, loosen_on_decrease };
        assert(texts(r.never_modify@) =~= seq!["identity.drift_ceiling"@, "security.zone_override"@]);
        assert(texts(r.loosen_on_increase@) =~= seq!["budget.max_tokens"@, "retry.max_attempts"@]);
        assert(texts(r.loosen_on_decrease@) =~= seq![
            "quality.min_confidence"@,
            "safety.min_review_score"@,
        ]);
        r
    }
}

/// How a parameter's value changed, as the classification needs it.
///
/// For numbers the values are those of `serde_json::Value::as_f64` (binary64
/// bit patterns), and `gap_exceeds_epsilon` is `(new - old).abs() > f64::EPSILON`
/// computed in binary64 arithmetic.
#[derive(Clone, Copy, Debug, PartialEq, Eq, Structural)]
pub enum ValueReading {
    /// At least one of the two values is not a number; `differs` is whether
    /// the values are unequal.
    NonNumeric { differs: bool },
    /// Both values are numbers.
    Numeric { old: FloatBits, new: FloatBits, gap_exceeds_epsilon: bool },
}

impl ValueReading {
    /// The reading of a change from `old` to `new`. When both are numbers,
    /// `numbers` holds their `as_f64` values and whether they lie more than
    /// `f64::EPSILON` apart.
    pub open spec fn spec_between(
        old: JsonValue,
        new: JsonValue,
        numbers: Option<(FloatBits, FloatBits, bool)>,
    ) -> ValueReading {
        if old is Number && new is Number {
            ValueReading::Numeric {
                old: numbers.unwrap().0,
                new: numbers.unwrap().1,
                gap_exceeds_epsilon: numbers.unwrap().2,
            }
        } else {
            ValueReading::NonNumeric { differs: !json_eq(old, new) }
        }
    }

    /// The reading of a change from `old` to `new`: numeric when both are
    /// numbers (from `numbers`), else whether the two values differ.
    pub fn between(old: &JsonValue, new: &JsonValue, numbers: Option<(FloatBits, FloatBits, bool)>) -> (r: ValueReading)
        requires
            (old is Number && new is Number) ==> numbers is Some,
        ensures
            r == Self::spec_between(*old, *new, numbers),
    {
        match (old, new, numbers) {
            (JsonValue::Number(_), JsonValue::Number(_), Some((o, n, g))) => ValueReading::Numeric {
                old: o,
                new: n,
                gap_exceeds_epsilon: g,
            },
            _ => ValueReading::NonNumeric { differs: !json_equal(old, new) },
        }
    }
}

/// The classification of a change of `param`.
pub open spec fn classification(
    never: Set<Seq<char>>,
    on_increase: Set<Seq<char>>,
    on_decrease: Set<Seq<char>>,
    param: Seq<char>,
    reading: ValueReading,
) -> PermissionChange {
    if never.contains(param) {
        PermissionChange::Never
    } else {
        match reading {
            ValueReading::NonNumeric { differs } => if differs {
                PermissionChange::Loosen
            } else {
                PermissionChange::Tighten
            },
            ValueReading::Numeric { old, new, gap_exceeds_epsilon } => {
                if on_increase.contains(param) {
                    if old.spec_lt(new) {
                        PermissionChange::Loosen
                    } else {
                        PermissionChange::Tighten
                    }
                } else if on_decrease.contains(param) {
                    if new.spec_lt(old) {
                        PermissionChange::Loosen
                    } else {
                        PermissionChange::Tighten
                    }
                } else if gap_exceeds_epsilon {
                    PermissionChange::Loosen
                } else {
                    PermissionChange::Tighten
                }
            },
        }
    }
}

impl PermissionConfig {
    /// The default rules: the drift ceiling and security zone override are
    /// NEVER-tier; raising the token budget or retry count loosens; lowering the
    /// minimum confidence or review score loosens.
    pub open spec fn is_default(&self) -> bool {
        &&& texts(self.never_modify@) == seq!["identity.drift_ceiling"@, "security.zone_override"@]
        &&& texts(self.loosen_on_increase@) == seq!["budget.max_tokens"@, "retry.max_attempts"@]
        &&& texts(self.loosen_on_decrease@) == seq![
            "quality.min_confidence"@,
            "safety.min_review_score"@,
        ]
    }

    /// The classification of a change of `param` under this configuration.
    pub open spec fn spec_classify(&self, param: Seq<char>, reading: ValueReading) -> PermissionChange {
        classification(
            texts(self.never_modify@).to_set(),
            texts(self.loosen_on_increase@).to_set(),
            texts(self.loosen_on_decrease@).to_set(),
            param,
            reading,
        )
    }
}

/// Whether `name` is one of `names`.
fn listed(names: &Vec<String>, name: &str) -> (r: bool)
    ensures
        r == texts(names@).to_set().contains(name@),
{
    let target = String::from_str(name);
    let n = names.len();
    let mut i: usize = 0;
    while i < n
        invariant
            n == names@.len(),
            target@ == name@,
            i <= n,
            forall|j: int| 0 <= j < i ==> names@[j]@ != name@,
        decreases n - i,
    {
        if names[i] == target {
            assert(texts(names@)[i as int] == name@);
            return true;
        }
        i = i + 1;
    }
    proof {
        if texts(names@).to_set().contains(name@) {
            let j = choose|j: int| 0 <= j < texts(names@).len() && texts(names@)[j] == name@;
            assert(names@[j]@ == name@);
        }
    }
    false
}

/// Classifies a change of `param`: NEVER-tier parameters are `Never`;
/// otherwise a change in the loosening direction (or, for parameters without
/// a direction and for non-numeric values, any change) is `Loosen`, and the
/// rest is `Tighten`.
pub fn classify_change(config: &PermissionConfig, param: &str, reading: &ValueReading) -> (r: PermissionChange)
    ensures
        r == config.spec_classify(param@, *reading),
{
    if listed(&config.never_modify, param) {
        return PermissionChange::Never;
    }
    match reading {
        ValueReading::NonNumeric { differs } => {
            if *differs {
                PermissionChange::Loosen
            } else {
                PermissionChange::Tighten
            }
        },
        ValueReading::Numeric { old, new, gap_exceeds_epsilon } => {
            if listed(&config.loosen_on_increase, param) {
                if old.lt(new) {
                    PermissionChange::Loosen
                } else {
                    PermissionChange::Tighten
                }
            } else if listed(&config.loosen_on_decrease, param) {
                if new.lt(old) {
                    PermissionChange::Loosen
                } else {
                    PermissionChange::Tighten
                }
            } else if *gap_exceeds_epsilon {
                PermissionChange::Loosen
            } else {
                PermissionChange::Tighten
            }
        },
    }
}

} // verus!
