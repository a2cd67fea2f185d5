use aros_sie::float_bits::FloatBits;
use aros_sie::self_model::{CapabilityState, RegistryState};
use aros_sie::types::Timestamp;

fn state(alpha: f64, beta: f64, n: u64) -> CapabilityState {
    CapabilityState {
        alpha: FloatBits::from_bits(alpha.to_bits()),
        beta: FloatBits::from_bits(beta.to_bits()),
        observation_count: n,
    }
}

#[test]
fn test_snapshot_and_restore() {
    let mut model = RegistryState::new();
    model.set("reasoning", state(2.0, 1.0, 1));
    model.set("code_gen", state(1.5, 1.5, 1));
    let snap = model.snapshot(Timestamp { secs: 1_700_000_000, nanos: 5 });
    assert_eq!(snap.timestamp, Timestamp { secs: 1_700_000_000, nanos: 5 });
    assert_eq!(snap.capabilities.len(), 2);
    let r = snap.capabilities.get("reasoning").unwrap();
    assert_eq!(r.capability.0, "reasoning");
    assert_eq!(f64::from_bits(r.alpha.bits), 2.0);
    assert_eq!(r.observation_count, 1);

    let mut restored = RegistryState::new();
    restored.set("other", state(1.0, 1.0, 0));
    assert_eq!(restored.restore(&snap), Ok(()));
    assert_eq!(restored.len(), 2);
    assert_eq!(restored.get("reasoning"), Some(state(2.0, 1.0, 1)));
    assert_eq!(restored.get("code_gen"), Some(state(1.5, 1.5, 1)));
    assert_eq!(restored.get("other"), None);
}

#[test]
fn registry_state_get_set_and_capabilities() {
    let mut model = RegistryState::new();
    assert_eq!(model.get("x"), None);
    model.set("x", state(1.0, 1.0, 0));
    model.set("y", state(3.0, 1.0, 2));
    model.set("x", state(1.0, 2.0, 1));
    assert_eq!(model.get("x"), Some(state(1.0, 2.0, 1)));
    let mut caps: Vec<String> = model.capabilities().into_iter().map(|c| c.0).collect();
    caps.sort();
    assert_eq!(caps, vec!["x".to_string(), "y".to_string()]);
    assert_eq!(model.len(), 2);
}

#[test]
fn empty_snapshot_restores_empty_state() {
    let mut model = RegistryState::new();
    model.set("x", state(1.0, 1.0, 0));
    let empty = RegistryState::new().snapshot(Timestamp { secs: 0, nanos: 0 });
    assert!(empty.capabilities.is_empty());
    model.restore(&empty).unwrap();
    assert_eq!(model.len(), 0);
}
