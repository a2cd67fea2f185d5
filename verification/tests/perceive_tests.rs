use aros_sie::float_bits::FloatBits;
use aros_sie::perceive::engine::PerceptionEngine;
use aros_sie::perceive::PerceptionSource;
use aros_sie::types::{CapabilityId, Observation, TaskOutcome, TimeSpan, Timestamp};
use uuid::Uuid;

fn stamp(t: chrono::DateTime<chrono::Utc>) -> Timestamp {
    Timestamp { secs: t.timestamp(), nanos: t.timestamp_subsec_nanos() }
}

fn make_observation(cap: &str) -> Observation {
    Observation {
        capability: CapabilityId::new(cap),
        outcome: TaskOutcome::Success,
        task_id: Some(Uuid::new_v4().as_u128()),
        dag_id: None,
        timestamp: stamp(chrono::Utc::now()),
    }
}

fn at(cap: &str, secs: i64) -> Observation {
    Observation {
        capability: CapabilityId::new(cap),
        outcome: TaskOutcome::Failure,
        task_id: None,
        dag_id: None,
        timestamp: Timestamp { secs, nanos: 0 },
    }
}

/// The span a `chrono::TimeDelta` holds, as whole seconds and the
/// nanoseconds added to them.
fn span(d: chrono::TimeDelta) -> TimeSpan {
    let (secs, nanos) = (d.num_seconds(), d.subsec_nanos());
    if nanos < 0 {
        TimeSpan { secs: secs - 1, nanos: (nanos + 1_000_000_000) as u32 }
    } else {
        TimeSpan { secs, nanos: nanos as u32 }
    }
}

fn bits(x: f64) -> FloatBits {
    FloatBits::from_bits(x.to_bits())
}

fn value(f: FloatBits) -> f64 {
    f64::from_bits(f.bits)
}

#[test]
fn test_ingest_and_perceive() {
    let mut engine = PerceptionEngine::new();
    engine.ingest(make_observation("code_gen"));
    engine.ingest(make_observation("reasoning"));
    let state = engine.perceive(stamp(chrono::Utc::now())).unwrap();
    assert_eq!(state.recent_observations.len(), 2);
}

#[test]
fn test_resource_utilization() {
    let mut engine = PerceptionEngine::new();
    engine.set_resource_utilization(bits(0.75));
    let state = engine.perceive(stamp(chrono::Utc::now())).unwrap();
    assert!((value(state.resource_utilization) - 0.75).abs() < f64::EPSILON);
}

#[test]
fn test_prune() {
    let mut engine = PerceptionEngine::new();
    let mut old_obs = make_observation("old");
    old_obs.timestamp = stamp(chrono::Utc::now() - chrono::Duration::hours(2));
    engine.ingest(old_obs);
    engine.ingest(make_observation("recent"));
    engine.prune(stamp(chrono::Utc::now()), span(chrono::Duration::hours(1)));
    assert_eq!(engine.observation_count(), 1);
}

#[test]
fn test_active_task_count() {
    let mut engine = PerceptionEngine::new();
    engine.set_active_task_count(5);
    let state = engine.perceive(stamp(chrono::Utc::now())).unwrap();
    assert_eq!(state.active_task_count, 5);
}

#[test]
fn test_happy_path_perceive_step() {
    let mut engine = PerceptionEngine::new();
    let obs = make_observation("code_gen");
    engine.ingest(obs.clone());
    let state = engine.perceive(stamp(chrono::Utc::now())).unwrap();
    assert_eq!(state.recent_observations.len(), 1);
    assert_eq!(state.recent_observations[0], obs);
}

#[test]
fn utilization_is_clamped() {
    let mut engine = PerceptionEngine::new();
    engine.set_resource_utilization(bits(1.5));
    assert_eq!(value(engine.perceive(stamp(chrono::Utc::now())).unwrap().resource_utilization), 1.0);
    engine.set_resource_utilization(bits(-0.5));
    assert_eq!(value(engine.perceive(stamp(chrono::Utc::now())).unwrap().resource_utilization), 0.0);
    engine.set_resource_utilization(bits(0.0));
    assert_eq!(value(engine.perceive(stamp(chrono::Utc::now())).unwrap().resource_utilization), 0.0);
}

#[test]
fn new_engine_is_empty() {
    let engine = PerceptionEngine::new();
    let state = engine.perceive(stamp(chrono::Utc::now())).unwrap();
    assert_eq!(engine.observation_count(), 0);
    assert!(state.recent_observations.is_empty());
    assert!(state.by_loop.is_empty());
    assert_eq!(value(state.resource_utilization), 0.0);
    assert_eq!(state.active_task_count, 0);
}

#[test]
fn observations_grouped_by_capability_rendering() {
    let mut engine = PerceptionEngine::new();
    engine.ingest(at("code_gen", 1));
    engine.ingest(at("reasoning", 2));
    engine.ingest(at("code_gen", 3));
    let state = engine.perceive(stamp(chrono::Utc::now())).unwrap();
    assert_eq!(state.by_loop.len(), 2);
    let group = state.by_loop.get("CapabilityId(\"code_gen\")").unwrap();
    assert_eq!(group.len(), 2);
    assert_eq!(group[0].timestamp.secs, 1);
    assert_eq!(group[1].timestamp.secs, 3);
    assert_eq!(state.by_loop.get("CapabilityId(\"reasoning\")").unwrap().len(), 1);
    assert!(state.by_loop.get("code_gen").is_none());
}

#[test]
fn prune_before_keeps_strictly_newer_in_order() {
    let mut engine = PerceptionEngine::new();
    engine.ingest(at("a", 5));
    engine.ingest(at("b", 10));
    engine.ingest(at("c", 20));
    engine.ingest(at("d", 11));
    engine.prune_before(Timestamp { secs: 10, nanos: 0 });
    let state = engine.perceive(stamp(chrono::Utc::now())).unwrap();
    let kept: Vec<i64> = state.recent_observations.iter().map(|o| o.timestamp.secs).collect();
    assert_eq!(kept, vec![20, 11]);
    engine.prune_before(Timestamp { secs: 10, nanos: 0 });
    assert_eq!(engine.observation_count(), 2);
}

#[test]
fn debug_rendering_of_capability() {
    let c = CapabilityId::new("a\"b");
    assert_eq!(c.debug_string(), "CapabilityId(\"a\\\"b\")");
}

#[test]
fn prune_drops_what_is_older_than_max_age() {
    let mut engine = PerceptionEngine::new();
    engine.ingest(at("before_epoch", -10));
    engine.ingest(at("future", i64::MAX));
    engine.prune(Timestamp { secs: 0, nanos: 0 }, TimeSpan { secs: 5, nanos: 0 });
    let state = engine.perceive(stamp(chrono::Utc::now())).unwrap();
    let kept: Vec<i64> = state.recent_observations.iter().map(|o| o.timestamp.secs).collect();
    assert_eq!(kept, vec![i64::MAX]);
}

#[test]
fn prune_keeps_what_is_within_max_age() {
    let mut engine = PerceptionEngine::new();
    let recent = stamp(chrono::Utc::now() - chrono::Duration::minutes(1));
    let mut obs = at("recent", 0);
    obs.timestamp = recent;
    engine.ingest(obs);
    engine.ingest(at("old", 1000));
    engine.prune(stamp(chrono::Utc::now()), span(chrono::Duration::hours(1)));
    assert_eq!(engine.observation_count(), 1);
    engine.prune(stamp(chrono::Utc::now()), span(chrono::Duration::milliseconds(-1500)));
    assert_eq!(engine.observation_count(), 0);
}

#[test]
fn time_span_of_negative_delta() {
    let s = span(chrono::Duration::milliseconds(-1500));
    assert_eq!((s.secs, s.nanos), (-2, 500_000_000));
}

#[test]
fn perceive_stamps_the_given_time() {
    let engine = PerceptionEngine::new();
    let t = Timestamp { secs: 42, nanos: 7 };
    assert_eq!(engine.perceive(t).unwrap().timestamp, t);
}

#[test]
fn prune_cutoff_is_exact_to_the_nanosecond() {
    let mut engine = PerceptionEngine::new();
    let mut a = at("a", 9);
    a.timestamp.nanos = 500_000_000;
    let mut b = at("b", 9);
    b.timestamp.nanos = 500_000_001;
    engine.ingest(a);
    engine.ingest(b);
    // now 10.2 s minus 0.7 s: the cutoff is 9.5 s; only what lies after it stays.
    engine.prune(Timestamp { secs: 10, nanos: 200_000_000 }, TimeSpan { secs: 0, nanos: 700_000_000 });
    let state = engine.perceive(Timestamp { secs: 10, nanos: 0 }).unwrap();
    let kept: Vec<u32> = state.recent_observations.iter().map(|o| o.timestamp.nanos).collect();
    assert_eq!(kept, vec![500_000_001]);
}
