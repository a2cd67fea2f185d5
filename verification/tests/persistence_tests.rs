use aros_sie::persistence::store::InMemoryStateStore;
use aros_sie::persistence::StateStore;

#[test]
fn test_put_and_get() {
    let mut store = InMemoryStateStore::new();
    store.put("key1", b"value1".to_vec()).unwrap();
    let val = store.get("key1").unwrap().unwrap();
    assert_eq!(val, b"value1");
}

#[test]
fn test_get_nonexistent() {
    let store = InMemoryStateStore::new();
    assert!(store.get("missing").unwrap().is_none());
}

#[test]
fn test_delete() {
    let mut store = InMemoryStateStore::new();
    store.put("key1", b"value1".to_vec()).unwrap();
    store.delete("key1").unwrap();
    assert!(!store.key_exists("key1").unwrap());
}

#[test]
fn test_list_keys_by_prefix() {
    let mut store = InMemoryStateStore::new();
    store.put("self_model/snapshot", b"a".to_vec()).unwrap();
    store.put("self_model/config", b"b".to_vec()).unwrap();
    store.put("policy/head", b"c".to_vec()).unwrap();

    let keys = store.list_keys("self_model/").unwrap();
    assert_eq!(keys.len(), 2);
    assert!(keys.iter().all(|k| k.starts_with("self_model/")));
}

#[test]
fn test_exists() {
    let mut store = InMemoryStateStore::new();
    assert!(!store.key_exists("key1").unwrap());
    store.put("key1", b"value1".to_vec()).unwrap();
    assert!(store.key_exists("key1").unwrap());
}

#[test]
fn test_overwrite() {
    let mut store = InMemoryStateStore::new();
    store.put("key1", b"old".to_vec()).unwrap();
    store.put("key1", b"new".to_vec()).unwrap();
    let val = store.get("key1").unwrap().unwrap();
    assert_eq!(val, b"new");
}

#[test]
fn store_len_and_empty_track_distinct_keys() {
    let mut store = InMemoryStateStore::new();
    assert!(store.is_empty());
    store.put("a", vec![1]).unwrap();
    store.put("b", vec![2]).unwrap();
    store.put("a", vec![3]).unwrap();
    assert_eq!(store.len(), 2);
    assert!(!store.is_empty());
    store.delete("a").unwrap();
    store.delete("a").unwrap();
    assert_eq!(store.len(), 1);
    assert_eq!(store.get("b").unwrap(), Some(vec![2]));
}

#[test]
fn store_list_keys_handles_empty_and_unicode_prefixes() {
    let mut store = InMemoryStateStore::new();
    store.put("päth/one", vec![]).unwrap();
    store.put("päth/two", vec![]).unwrap();
    store.put("pa", vec![]).unwrap();
    let mut all = store.list_keys("").unwrap();
    all.sort();
    assert_eq!(all, vec!["pa".to_string(), "päth/one".to_string(), "päth/two".to_string()]);
    assert_eq!(store.list_keys("pä").unwrap().len(), 2);
    assert!(store.list_keys("pa/longer/than/any").unwrap().is_empty());
}
