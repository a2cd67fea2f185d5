use aros_sie::float_bits::FloatBits;
use aros_sie::identity::guard::IdentityGuard;
use aros_sie::identity::permissions::{classify_change, PermissionConfig, ValueReading};
use aros_sie::identity::{IdentityCheckResult, KeyChange};
use aros_sie::json::{JsonNumber, JsonValue};
use aros_sie::policy::snapshot::PolicySnapshot;
use aros_sie::table::StrMap;
use aros_sie::types::{PermissionChange, Timestamp};
use uuid::Uuid;

fn bits(x: f64) -> FloatBits {
    FloatBits::from_bits(x.to_bits())
}

fn value(f: FloatBits) -> f64 {
    f64::from_bits(f.bits)
}

fn json_int(n: u64) -> JsonValue {
    JsonValue::Number(JsonNumber::PosInt(n))
}

fn float(x: f64) -> JsonValue {
    JsonValue::Number(JsonNumber::Float(bits(x)))
}

fn text(s: &str) -> JsonValue {
    JsonValue::String(s.to_string())
}

fn as_f64(v: &JsonValue) -> Option<f64> {
    match v {
        JsonValue::Number(JsonNumber::PosInt(u)) => Some(*u as f64),
        JsonValue::Number(JsonNumber::NegInt(i)) => Some(*i as f64),
        JsonValue::Number(JsonNumber::Float(f)) => Some(value(*f)),
        _ => None,
    }
}

fn numbers(old: &JsonValue, new: &JsonValue) -> Option<(FloatBits, FloatBits, bool)> {
    match (as_f64(old), as_f64(new)) {
        (Some(o), Some(n)) => Some((bits(o), bits(n), (n - o).abs() > f64::EPSILON)),
        _ => None,
    }
}

fn reading(old: &JsonValue, new: &JsonValue) -> ValueReading {
    ValueReading::between(old, new, numbers(old, new))
}

/// Cosine distance, 1 - cos(a, b).
fn drift_distance(a: &[FloatBits], b: &[FloatBits]) -> f64 {
    let mut dot = 0.0;
    let mut na = 0.0;
    let mut nb = 0.0;
    for (x, y) in a.iter().zip(b.iter()) {
        let (x, y) = (value(*x), value(*y));
        dot += x * y;
        na += x * x;
        nb += y * y;
    }
    if a.len() != b.len() || na == 0.0 || nb == 0.0 {
        return 1.0;
    }
    1.0 - dot / (na.sqrt() * nb.sqrt())
}

fn check(guard: &IdentityGuard, proposed: &PolicySnapshot) -> IdentityCheckResult {
    let drift = drift_distance(&guard.baseline().feature_vector, &proposed.feature_vector);
    let ceiling = value(guard.drift_ceiling());
    guard.check(bits(drift), &format!("{:.4}", drift), &format!("{:.4}", ceiling))
}

fn numeric(current: &PolicySnapshot, proposed: &PolicySnapshot) -> StrMap<(FloatBits, FloatBits, bool)> {
    let mut out = StrMap::new();
    for i in 0..proposed.config.len() {
        let key = proposed.config.key_at(i);
        if let Some(old) = current.config.get(key) {
            if let Some(n) = numbers(old, proposed.config.value_at(i)) {
                out.insert(key.to_string(), n);
            }
        }
    }
    out
}

fn classify(guard: &IdentityGuard, current: &PolicySnapshot, proposed: &PolicySnapshot) -> PermissionChange {
    guard.classify_snapshots(current, proposed, &numeric(current, proposed))
}

fn make_snapshot(feature_vector: Vec<f64>, config: Vec<(&str, JsonValue)>) -> PolicySnapshot {
    let mut map = StrMap::new();
    for (k, v) in config {
        map.insert(k.to_string(), v);
    }
    let t = chrono::Utc::now();
    PolicySnapshot {
        id: Uuid::new_v4().as_u128(),
        parent_id: None,
        score: bits(0.0),
        created_at: Timestamp { secs: t.timestamp(), nanos: t.timestamp_subsec_nanos() },
        config: map,
        description: "test".to_string(),
        feature_vector: feature_vector.into_iter().map(bits).collect(),
    }
}

// ----- guard -----

#[test]
fn test_identical_passes() {
    let baseline = make_snapshot(vec![1.0, 0.0, 0.0], vec![]);
    let guard = IdentityGuard::with_defaults(baseline.clone(), bits(0.5));
    let result = check(&guard, &baseline);
    assert!(result.allowed);
    assert!(value(result.drift) < 1e-10);
}

#[test]
fn test_small_drift_passes() {
    let baseline = make_snapshot(vec![1.0, 0.0, 0.0], vec![]);
    let guard = IdentityGuard::with_defaults(baseline, bits(0.5));
    let proposed = make_snapshot(vec![0.95, 0.05, 0.0], vec![]);
    let result = check(&guard, &proposed);
    assert!(result.allowed);
}

#[test]
fn test_large_drift_blocked() {
    let baseline = make_snapshot(vec![1.0, 0.0], vec![]);
    let guard = IdentityGuard::with_defaults(baseline, bits(0.1));
    let proposed = make_snapshot(vec![0.0, 1.0], vec![]);
    let result = check(&guard, &proposed);
    assert!(!result.allowed);
    assert!(result.reason.is_some());
}

#[test]
fn test_permission_never_blocks() {
    let current = make_snapshot(vec![], vec![("identity.drift_ceiling", float(0.3))]);
    let proposed = make_snapshot(vec![], vec![("identity.drift_ceiling", float(0.5))]);
    let baseline = make_snapshot(vec![1.0], vec![]);
    let guard = IdentityGuard::with_defaults(baseline, bits(0.5));
    assert_eq!(classify(&guard, &current, &proposed), PermissionChange::Never);
}

#[test]
fn test_tightening_auto_approved() {
    let current = make_snapshot(vec![], vec![("budget.max_tokens", json_int(2000))]);
    let proposed = make_snapshot(vec![], vec![("budget.max_tokens", json_int(1000))]);
    let baseline = make_snapshot(vec![1.0], vec![]);
    let guard = IdentityGuard::with_defaults(baseline, bits(0.5));
    assert_eq!(classify(&guard, &current, &proposed), PermissionChange::Tighten);
}

#[test]
fn test_loosening_requires_review() {
    let current = make_snapshot(vec![], vec![("budget.max_tokens", json_int(1000))]);
    let proposed = make_snapshot(vec![], vec![("budget.max_tokens", json_int(5000))]);
    let baseline = make_snapshot(vec![1.0], vec![]);
    let guard = IdentityGuard::with_defaults(baseline, bits(0.5));
    assert_eq!(classify(&guard, &current, &proposed), PermissionChange::Loosen);
}

#[test]
fn test_reset_baseline() {
    let baseline = make_snapshot(vec![1.0, 0.0], vec![]);
    let mut guard = IdentityGuard::with_defaults(baseline, bits(0.1));
    let new_baseline = make_snapshot(vec![0.0, 1.0], vec![]);
    guard.reset_baseline(new_baseline.clone());
    let result = check(&guard, &new_baseline);
    assert!(result.allowed);
}

#[test]
fn test_drift_ceiling_blocks_excessive_change() {
    let baseline = make_snapshot(vec![1.0, 0.0, 0.0], vec![]);
    let guard = IdentityGuard::with_defaults(baseline, bits(0.1));
    let proposed = make_snapshot(vec![0.0, 1.0, 0.0], vec![]);
    let result = check(&guard, &proposed);
    assert!(!result.allowed, "Should be blocked: drift={}", value(result.drift));
    assert!(result.reason.is_some());
    assert!(value(result.drift) > value(result.ceiling));
}

#[test]
fn test_permission_asymmetry_blocks_loosening() {
    let baseline = make_snapshot(vec![1.0], vec![]);
    let guard = IdentityGuard::with_defaults(baseline, bits(1.0));

    let current = make_snapshot(vec![1.0], vec![("budget.max_tokens", json_int(1000))]);
    let proposed = make_snapshot(vec![1.0], vec![("budget.max_tokens", json_int(10000))]);
    assert_eq!(classify(&guard, &current, &proposed), PermissionChange::Loosen);

    let tighter = make_snapshot(vec![1.0], vec![("budget.max_tokens", json_int(500))]);
    assert_eq!(classify(&guard, &current, &tighter), PermissionChange::Tighten);

    let current_with_never = make_snapshot(vec![1.0], vec![("identity.drift_ceiling", float(0.5))]);
    let proposed_never = make_snapshot(vec![1.0], vec![("identity.drift_ceiling", float(0.9))]);
    assert_eq!(classify(&guard, &current_with_never, &proposed_never), PermissionChange::Never);
}

#[test]
fn blocked_reason_text() {
    let baseline = make_snapshot(vec![1.0, 0.0], vec![]);
    let guard = IdentityGuard::with_defaults(baseline, bits(0.1));
    let result = guard.check(bits(1.0), "1.0000", "0.1000");
    assert!(!result.allowed);
    assert_eq!(result.reason.as_deref(), Some("Cumulative drift 1.0000 exceeds ceiling 0.1000"));
    assert_eq!(value(result.ceiling), 0.1);
    assert_eq!(value(result.drift), 1.0);
}

#[test]
fn drift_equal_to_ceiling_is_allowed() {
    let guard = IdentityGuard::with_defaults(make_snapshot(vec![1.0], vec![]), bits(0.5));
    let result = guard.check(bits(0.5), "0.5000", "0.5000");
    assert!(result.allowed);
    assert!(result.reason.is_none());
    assert!(!guard.check(bits(f64::NAN), "NaN", "0.5000").allowed);
}

#[test]
fn current_drift_is_zero() {
    let guard = IdentityGuard::with_defaults(make_snapshot(vec![1.0], vec![]), bits(0.5));
    assert_eq!(value(guard.current_drift()), 0.0);
}

#[test]
fn added_key_is_loosening_and_unchanged_key_is_not() {
    let guard = IdentityGuard::with_defaults(make_snapshot(vec![1.0], vec![]), bits(0.5));
    let current = make_snapshot(vec![], vec![("a", json_int(1))]);
    let same = make_snapshot(vec![], vec![("a", json_int(1))]);
    assert_eq!(classify(&guard, &current, &same), PermissionChange::Tighten);
    let added = make_snapshot(vec![], vec![("a", json_int(1)), ("b", json_int(2))]);
    assert_eq!(classify(&guard, &current, &added), PermissionChange::Loosen);
    let removed = make_snapshot(vec![], vec![]);
    assert_eq!(classify(&guard, &current, &removed), PermissionChange::Tighten);
}

#[test]
fn never_outranks_loosen() {
    let guard = IdentityGuard::with_defaults(make_snapshot(vec![1.0], vec![]), bits(0.5));
    let current = make_snapshot(vec![], vec![("security.zone_override", text("red"))]);
    let proposed = make_snapshot(vec![], vec![("new", json_int(1)), ("security.zone_override", text("green"))]);
    assert_eq!(classify(&guard, &current, &proposed), PermissionChange::Never);
}

#[test]
fn key_change_between() {
    assert_eq!(KeyChange::between(None, &json_int(1), None), KeyChange::Added);
    assert_eq!(KeyChange::between(Some(&json_int(1)), &json_int(1), numbers(&json_int(1), &json_int(1))), KeyChange::Unchanged);
    assert_eq!(
        KeyChange::between(Some(&text("x")), &json_int(1), None),
        KeyChange::Changed(ValueReading::NonNumeric { differs: true })
    );
    assert_eq!(
        KeyChange::between(Some(&json_int(1)), &float(1.0), numbers(&json_int(1), &float(1.0))),
        KeyChange::Changed(ValueReading::Numeric { old: bits(1.0), new: bits(1.0), gap_exceeds_epsilon: false })
    );
}

// ----- permissions -----

#[test]
fn test_never_tier() {
    let config = PermissionConfig::default();
    let result = classify_change(&config, "identity.drift_ceiling", &reading(&float(0.3), &float(0.5)));
    assert_eq!(result, PermissionChange::Never);
}

#[test]
fn test_loosen_on_increase() {
    let config = PermissionConfig::default();
    let result = classify_change(&config, "budget.max_tokens", &reading(&json_int(1000), &json_int(2000)));
    assert_eq!(result, PermissionChange::Loosen);
}

#[test]
fn test_tighten_on_decrease_for_loosen_increase() {
    let config = PermissionConfig::default();
    let result = classify_change(&config, "budget.max_tokens", &reading(&json_int(2000), &json_int(1000)));
    assert_eq!(result, PermissionChange::Tighten);
}

#[test]
fn test_loosen_on_decrease() {
    let config = PermissionConfig::default();
    let result = classify_change(&config, "quality.min_confidence", &reading(&float(0.8), &float(0.5)));
    assert_eq!(result, PermissionChange::Loosen);
}

#[test]
fn test_unknown_param_change_is_loosen() {
    let config = PermissionConfig::default();
    let result = classify_change(&config, "unknown.param", &reading(&json_int(1), &json_int(2)));
    assert_eq!(result, PermissionChange::Loosen);
}

#[test]
fn test_non_numeric_change_is_loosen() {
    let config = PermissionConfig::default();
    let result = classify_change(&config, "some.param", &reading(&text("old"), &text("new")));
    assert_eq!(result, PermissionChange::Loosen);
}

#[test]
fn unchanged_values_are_tightening() {
    let config = PermissionConfig::default();
    assert_eq!(classify_change(&config, "some.param", &reading(&text("x"), &text("x"))), PermissionChange::Tighten);
    assert_eq!(classify_change(&config, "unknown.param", &reading(&json_int(3), &json_int(3))), PermissionChange::Tighten);
    assert_eq!(
        classify_change(&config, "quality.min_confidence", &reading(&float(0.5), &float(0.8))),
        PermissionChange::Tighten
    );
    assert_eq!(
        classify_change(&config, "security.zone_override", &reading(&text("x"), &text("x"))),
        PermissionChange::Never
    );
}

#[test]
fn default_permission_config() {
    let c = PermissionConfig::default();
    assert_eq!(c.never_modify, vec!["identity.drift_ceiling".to_string(), "security.zone_override".to_string()]);
    assert_eq!(c.loosen_on_increase, vec!["budget.max_tokens".to_string(), "retry.max_attempts".to_string()]);
    assert_eq!(
        c.loosen_on_decrease,
        vec!["quality.min_confidence".to_string(), "safety.min_review_score".to_string()]
    );
}

#[test]
fn key_readings_follow_the_proposed_configuration() {
    let current = make_snapshot(vec![], vec![("a", json_int(1)), ("b", text("x")), ("gone", json_int(5))]);
    let proposed = make_snapshot(vec![], vec![("b", text("y")), ("a", json_int(1)), ("new", json_int(2))]);
    let readings = IdentityGuard::key_readings(&current.config, &proposed.config, &numeric(&current, &proposed));
    let got: Vec<(String, KeyChange)> = readings.into_iter().map(|r| (r.key, r.change)).collect();
    assert_eq!(got, vec![
        ("b".to_string(), KeyChange::Changed(ValueReading::NonNumeric { differs: true })),
        ("a".to_string(), KeyChange::Unchanged),
        ("new".to_string(), KeyChange::Added),
    ]);
}

#[test]
fn keys_only_in_current_play_no_part() {
    let guard = IdentityGuard::with_defaults(make_snapshot(vec![1.0], vec![]), bits(0.5));
    let current = make_snapshot(vec![], vec![("identity.drift_ceiling", float(0.5)), ("budget.max_tokens", json_int(10))]);
    let proposed = make_snapshot(vec![], vec![("budget.max_tokens", json_int(5))]);
    assert_eq!(classify(&guard, &current, &proposed), PermissionChange::Tighten);
}
