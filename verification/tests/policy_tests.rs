use aros_sie::float_bits::FloatBits;
use aros_sie::json::{JsonNumber, JsonValue};
use aros_sie::policy::archive::PolicyArchive;
use aros_sie::policy::diff::PolicyDiff;
use aros_sie::policy::skill_library::{Skill, SkillLibrary};
use aros_sie::policy::snapshot::PolicySnapshot;
use aros_sie::policy::PolicyStore;
use aros_sie::table::StrMap;
use aros_sie::types::{SkillTier, Timestamp};
use aros_sie::SieError;
use uuid::Uuid;

fn bits(x: f64) -> FloatBits {
    FloatBits::from_bits(x.to_bits())
}

fn value(f: FloatBits) -> f64 {
    f64::from_bits(f.bits)
}

fn now_ts() -> Timestamp {
    let t = chrono::Utc::now();
    Timestamp { secs: t.timestamp(), nanos: t.timestamp_subsec_nanos() }
}

fn new_id() -> u128 {
    Uuid::new_v4().as_u128()
}

fn make_snapshot(score: f64, parent: Option<u128>) -> PolicySnapshot {
    PolicySnapshot {
        id: new_id(),
        parent_id: parent,
        score: bits(score),
        created_at: now_ts(),
        config: StrMap::new(),
        description: format!("test snapshot score={}", score),
        feature_vector: vec![bits(score), bits(1.0 - score)],
    }
}

fn config_snapshot(config: StrMap<JsonValue>) -> PolicySnapshot {
    PolicySnapshot {
        id: new_id(),
        parent_id: None,
        score: bits(0.0),
        created_at: now_ts(),
        config,
        description: "test".to_string(),
        feature_vector: vec![],
    }
}

fn json_int(n: u64) -> JsonValue {
    JsonValue::Number(JsonNumber::PosInt(n))
}

// ----- archive -----

#[test]
fn test_commit_root() {
    let mut archive = PolicyArchive::new();
    let snap = make_snapshot(0.8, None);
    let id = archive.commit(snap, None).unwrap();
    assert_eq!(archive.len(), 1);
    assert!(archive.get(id).is_some());
    assert!(archive.head().is_some());
}

#[test]
fn test_commit_with_parent() {
    let mut archive = PolicyArchive::new();
    let root = make_snapshot(0.5, None);
    let root_id = archive.commit(root, None).unwrap();

    let child = make_snapshot(0.7, Some(root_id));
    let child_id = archive.commit(child, Some(root_id)).unwrap();

    assert_eq!(archive.len(), 2);
    assert_eq!(archive.head().unwrap().id, child_id);
}

#[test]
fn test_commit_invalid_parent() {
    let mut archive = PolicyArchive::new();
    let snap = make_snapshot(0.5, None);
    let result = archive.commit(snap, Some(new_id()));
    assert!(result.is_err());
}

#[test]
fn test_fork_creates_branch() {
    let mut archive = PolicyArchive::new();
    let root = make_snapshot(0.5, None);
    let root_id = archive.commit(root, None).unwrap();

    let branch = make_snapshot(0.9, None);
    let branch_id = archive.fork(root_id, branch).unwrap();

    // HEAD is still the root: a fork does not move HEAD.
    assert_eq!(archive.head().unwrap().id, root_id);
    let branch_snap = archive.get(branch_id).unwrap();
    assert_eq!(branch_snap.parent_id, Some(root_id));
}

#[test]
fn test_fork_from_nonexistent() {
    let mut archive = PolicyArchive::new();
    let snap = make_snapshot(0.5, None);
    let result = archive.fork(new_id(), snap);
    assert!(result.is_err());
}

#[test]
fn test_best_k() {
    let mut archive = PolicyArchive::new();
    for score in [0.3, 0.9, 0.5, 0.7, 0.1] {
        let snap = make_snapshot(score, None);
        archive.commit(snap, None).unwrap();
    }
    let best = archive.best_k(3);
    assert_eq!(best.len(), 3);
    assert!(value(best[0].score) >= value(best[1].score));
    assert!(value(best[1].score) >= value(best[2].score));
    assert!((value(best[0].score) - 0.9).abs() < f64::EPSILON);
}

#[test]
fn test_ancestry_chain() {
    let mut archive = PolicyArchive::new();
    let root = make_snapshot(0.5, None);
    let root_id = archive.commit(root, None).unwrap();

    let child = make_snapshot(0.6, Some(root_id));
    let child_id = archive.commit(child, Some(root_id)).unwrap();

    let grandchild = make_snapshot(0.7, Some(child_id));
    let gc_id = archive.commit(grandchild, Some(child_id)).unwrap();

    let chain = archive.ancestry(gc_id);
    assert_eq!(chain.len(), 3);
    assert_eq!(chain[0], gc_id);
    assert_eq!(chain[1], child_id);
    assert_eq!(chain[2], root_id);
}

#[test]
fn archive_errors_carry_the_uuid_text_and_change_nothing() {
    let mut archive = PolicyArchive::new();
    let root_id = archive.commit(make_snapshot(0.5, None), None).unwrap();
    let missing: u128 = 0x67e5504410b1426f9247bb680e5fe0c8;
    let err = archive.commit(make_snapshot(0.6, None), Some(missing)).unwrap_err();
    assert_eq!(
        err,
        SieError::Policy("Parent snapshot 67e55044-10b1-426f-9247-bb680e5fe0c8 not found".to_string())
    );
    let err = archive.fork(missing, make_snapshot(0.6, None)).unwrap_err();
    assert_eq!(
        err,
        SieError::Policy("Cannot fork from unknown snapshot 67e55044-10b1-426f-9247-bb680e5fe0c8".to_string())
    );
    assert_eq!(archive.len(), 1);
    assert_eq!(archive.head().unwrap().id, root_id);
    assert_eq!(archive.roots(), &vec![root_id]);
}

#[test]
fn archive_best_k_larger_than_archive_and_zero() {
    let mut archive = PolicyArchive::new();
    assert!(archive.best_k(4).is_empty());
    for score in [0.2, 0.8] {
        archive.commit(make_snapshot(score, None), None).unwrap();
    }
    let best = archive.best_k(10);
    assert_eq!(best.len(), 2);
    assert_eq!(value(best[0].score), 0.8);
    assert_eq!(value(best[1].score), 0.2);
    assert!(archive.best_k(0).is_empty());
    let mut ids = archive.list_ids();
    ids.sort();
    let mut expected: Vec<u128> = best.iter().map(|s| s.id).collect();
    expected.sort();
    assert_eq!(ids, expected);
}

#[test]
fn archive_ancestry_of_unknown_and_forked() {
    let mut archive = PolicyArchive::new();
    let unknown = new_id();
    assert_eq!(archive.ancestry(unknown), vec![unknown]);
    let root_id = archive.commit(make_snapshot(0.5, None), None).unwrap();
    let branch_id = archive.fork(root_id, make_snapshot(0.1, None)).unwrap();
    assert_eq!(archive.ancestry(branch_id), vec![branch_id, root_id]);
    // A commit without a parent makes a root, whatever parent the snapshot named.
    let named = make_snapshot(0.3, Some(unknown));
    let named_id = archive.commit(named, None).unwrap();
    assert_eq!(archive.get(named_id).unwrap().parent_id, None);
    assert_eq!(archive.ancestry(named_id), vec![named_id]);
    // A commit under a parent records that parent.
    let orphan = make_snapshot(0.2, None);
    let orphan_id = archive.commit(orphan, Some(branch_id)).unwrap();
    assert_eq!(archive.get(orphan_id).unwrap().parent_id, Some(branch_id));
    assert_eq!(archive.ancestry(orphan_id), vec![orphan_id, branch_id, root_id]);
}

// ----- diff -----

#[test]
fn test_identical_snapshots() {
    let mut config = StrMap::new();
    config.insert("key1".to_string(), JsonValue::text("value1"));
    let snap = config_snapshot(config);
    let diff = PolicyDiff::compute(&snap, &snap);
    assert!(diff.is_empty());
    assert_eq!(diff.unchanged_count, 1);
}

#[test]
fn test_added_keys() {
    let old = config_snapshot(StrMap::new());
    let mut new_config = StrMap::new();
    new_config.insert("new_key".to_string(), json_int(42));
    let new = config_snapshot(new_config);
    let diff = PolicyDiff::compute(&old, &new);
    assert_eq!(diff.added.len(), 1);
    assert!(diff.added.contains_key("new_key"));
}

#[test]
fn test_removed_keys() {
    let mut old_config = StrMap::new();
    old_config.insert("old_key".to_string(), JsonValue::text("gone"));
    let old = config_snapshot(old_config);
    let new = config_snapshot(StrMap::new());
    let diff = PolicyDiff::compute(&old, &new);
    assert_eq!(diff.removed.len(), 1);
}

#[test]
fn test_changed_values() {
    let mut old_config = StrMap::new();
    old_config.insert("key".to_string(), json_int(1));
    let old = config_snapshot(old_config);

    let mut new_config = StrMap::new();
    new_config.insert("key".to_string(), json_int(2));
    let new = config_snapshot(new_config);

    let diff = PolicyDiff::compute(&old, &new);
    assert_eq!(diff.changed.len(), 1);
    assert_eq!(diff.change_count(), 1);
}

#[test]
fn diff_compares_values_as_json() {
    let mut old_config = StrMap::new();
    old_config.insert("zero".to_string(), JsonValue::Number(JsonNumber::Float(bits(0.0))));
    old_config.insert("int_vs_float".to_string(), json_int(1));
    old_config.insert(
        "obj".to_string(),
        JsonValue::Object(vec![("a".to_string(), json_int(1)), ("b".to_string(), JsonValue::Bool(true))]),
    );
    old_config.insert("gone".to_string(), JsonValue::Null);
    let mut new_config = StrMap::new();
    new_config.insert("zero".to_string(), JsonValue::Number(JsonNumber::Float(bits(-0.0))));
    new_config.insert("int_vs_float".to_string(), JsonValue::Number(JsonNumber::Float(bits(1.0))));
    new_config.insert(
        "obj".to_string(),
        JsonValue::Object(vec![("b".to_string(), JsonValue::Bool(true)), ("a".to_string(), json_int(1))]),
    );
    new_config.insert("fresh".to_string(), JsonValue::Array(vec![]));
    let diff = PolicyDiff::compute(&config_snapshot(old_config), &config_snapshot(new_config));
    // 0.0 == -0.0 and objects compare as maps; 1 and 1.0 are different numbers.
    assert_eq!(diff.unchanged_count, 2);
    assert!(diff.changed.contains_key("int_vs_float"));
    assert!(diff.added.contains_key("fresh"));
    assert!(diff.removed.contains_key("gone"));
    assert_eq!(diff.change_count(), 3);
    assert!(!diff.is_empty());
}

// ----- skill library -----

fn make_skill(name: &str, tier: SkillTier, score: f64) -> Skill {
    Skill {
        name: name.to_string(),
        tier,
        description: format!("Test skill: {}", name),
        updated_at: now_ts(),
        score: bits(score),
        data: JsonValue::Object(vec![]),
    }
}

#[test]
fn test_add_and_get() {
    let mut lib = SkillLibrary::new();
    lib.add_skill(make_skill("rust_debugging", SkillTier::TaskSkill, 0.8));
    assert!(lib.get("rust_debugging").is_some());
    assert_eq!(lib.len(), 1);
}

#[test]
fn test_by_tier() {
    let mut lib = SkillLibrary::new();
    lib.add_skill(make_skill("rust_debug", SkillTier::TaskSkill, 0.8));
    lib.add_skill(make_skill("decomposition", SkillTier::MetaSkill, 0.9));
    lib.add_skill(make_skill("sql_opt", SkillTier::TaskSkill, 0.7));

    assert_eq!(lib.by_tier(SkillTier::TaskSkill).len(), 2);
    assert_eq!(lib.by_tier(SkillTier::MetaSkill).len(), 1);
}

#[test]
fn test_top_k() {
    let mut lib = SkillLibrary::new();
    lib.add_skill(make_skill("a", SkillTier::TaskSkill, 0.3));
    lib.add_skill(make_skill("b", SkillTier::TaskSkill, 0.9));
    lib.add_skill(make_skill("c", SkillTier::TaskSkill, 0.6));

    let top = lib.top_k(SkillTier::TaskSkill, 2);
    assert_eq!(top.len(), 2);
    assert!((value(top[0].score) - 0.9).abs() < f64::EPSILON);
    assert!((value(top[1].score) - 0.6).abs() < f64::EPSILON);
}

#[test]
fn test_remove() {
    let mut lib = SkillLibrary::new();
    lib.add_skill(make_skill("temp", SkillTier::TaskSkill, 0.5));
    assert!(lib.remove_skill("temp").is_some());
    assert!(lib.is_empty());
}

#[test]
fn skill_library_replaces_by_name_and_filters_tier() {
    let mut lib = SkillLibrary::new();
    lib.add_skill(make_skill("x", SkillTier::TaskSkill, 0.1));
    lib.add_skill(make_skill("x", SkillTier::MetaSkill, 0.4));
    lib.add_skill(make_skill("y", SkillTier::TaskSkill, 0.9));
    assert_eq!(lib.len(), 2);
    assert_eq!(lib.get("x").unwrap().tier, SkillTier::MetaSkill);
    let meta = lib.top_k(SkillTier::MetaSkill, 5);
    assert_eq!(meta.len(), 1);
    assert_eq!(meta[0].name, "x");
    assert!(lib.remove_skill("missing").is_none());
    assert_eq!(lib.len(), 2);
}
