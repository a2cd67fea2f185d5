use std::collections::HashMap;

use aros_sie::critic::engine::{CapabilityReading, MetaCognitionEngine};
use aros_sie::critic::output::CriticOutput;
use aros_sie::critic::rules::CriticConfig;
use aros_sie::float_bits::FloatBits;
use aros_sie::identity::guard::IdentityGuard;
use aros_sie::perceive::engine::PerceptionEngine;
use aros_sie::perceive::PerceptionSource;
use aros_sie::persistence::store::InMemoryStateStore;
use aros_sie::persistence::StateStore;
use aros_sie::policy::archive::PolicyArchive;
use aros_sie::policy::snapshot::PolicySnapshot;
use aros_sie::policy::PolicyStore;
use aros_sie::table::StrMap;
use aros_sie::types::{CapabilityId, Observation, TaskOutcome, Timestamp};
use uuid::Uuid;

fn bits(x: f64) -> FloatBits {
    FloatBits::from_bits(x.to_bits())
}

fn value(f: FloatBits) -> f64 {
    f64::from_bits(f.bits)
}

fn stamp() -> Timestamp {
    let t = chrono::Utc::now();
    Timestamp { secs: t.timestamp(), nanos: t.timestamp_subsec_nanos() }
}

fn make_observation(cap: &str, outcome: TaskOutcome) -> Observation {
    Observation {
        capability: CapabilityId::new(cap),
        outcome,
        task_id: Some(Uuid::new_v4().as_u128()),
        dag_id: Some(Uuid::new_v4().as_u128()),
        timestamp: stamp(),
    }
}

fn make_snapshot(score: f64, parent: Option<u128>, feature_vector: Vec<f64>) -> PolicySnapshot {
    PolicySnapshot {
        id: Uuid::new_v4().as_u128(),
        parent_id: parent,
        score: bits(score),
        created_at: stamp(),
        config: StrMap::new(),
        description: format!("policy score={}", score),
        feature_vector: feature_vector.into_iter().map(bits).collect(),
    }
}

/// Cosine distance, 1 - cos(a, b).
fn drift_distance(a: &[FloatBits], b: &[FloatBits]) -> f64 {
    let (mut dot, mut na, mut nb) = (0.0, 0.0, 0.0);
    for (x, y) in a.iter().zip(b.iter()) {
        let (x, y) = (value(*x), value(*y));
        dot += x * y;
        na += x * x;
        nb += y * y;
    }
    if a.len() != b.len() || na == 0.0 || nb == 0.0 {
        return 1.0;
    }
    1.0 - dot / (na.sqrt() * nb.sqrt())
}

#[test]
fn test_happy_path_full_lifecycle() {
    // PERCEIVE
    let mut perception = PerceptionEngine::new();
    let obs = make_observation("code_gen", TaskOutcome::Success);
    perception.ingest(obs.clone());
    let state = perception.perceive(stamp()).unwrap();
    assert_eq!(state.recent_observations.len(), 1);

    // SELF-MODEL UPDATE: Beta(1, 1) prior, one success.
    let mut model: HashMap<String, (f64, f64, u64)> = HashMap::new();
    let d = model.entry(obs.capability.0.clone()).or_insert((1.0, 1.0, 0));
    d.0 += 1.0;
    d.2 += 1;
    let confidence = d.0 / (d.0 + d.1);
    assert!(confidence > 0.5);

    // CRITIQUE
    let engine = MetaCognitionEngine::new(CriticConfig::default());
    let untracked = CapabilityReading { confidence: None, confidence_text: String::new(), observation_count: 0 };
    let outputs = engine.evaluate(&obs, &untracked);
    assert!(outputs.iter().any(|o| matches!(o, CriticOutput::NoAction { .. })));

    // POLICY REVISION
    let mut archive = PolicyArchive::new();
    let policy = make_snapshot(0.8, None, vec![1.0, 0.0]);
    let policy_id = archive.commit(policy, None).unwrap();
    assert!(archive.get(policy_id).is_some());

    // IDENTITY CHECK
    let baseline = make_snapshot(0.0, None, vec![1.0, 0.0]);
    let guard = IdentityGuard::with_defaults(baseline, bits(0.5));
    let current = archive.head().unwrap();
    let drift = drift_distance(&guard.baseline().feature_vector, &current.feature_vector);
    let check = guard.check(bits(drift), &format!("{:.4}", drift), "0.5000");
    assert!(check.allowed);

    // PERSIST
    let mut store = InMemoryStateStore::new();
    let snapshot_bytes = serde_json::to_vec(&model).unwrap();
    store.put("self_model/snapshot", snapshot_bytes).unwrap();
    assert!(store.key_exists("self_model/snapshot").unwrap());
}
