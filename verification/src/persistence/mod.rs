//! Persistence: a state-store abstraction and the audit events.
//!
//! Keys are namespaced strings (e.g. "self_model/snapshot", "policy/head");
//! values are opaque bytes (typically JSON).
pub mod events;
pub mod store;

use crate::error::SieError;
use vstd::prelude::*;

verus! {

/// The test "starts with `prefix`".
pub open spec fn starts_with_pred(prefix: Seq<char>) -> spec_fn(Seq<char>) -> bool {
    |k: Seq<char>| prefix.is_prefix_of(k)
}

/// The keys of `m` that start with `prefix`.
pub open spec fn keys_with_prefix(m: Map<Seq<char>, Seq<u8>>, prefix: Seq<char>) -> Set<Seq<char>> {
    m.dom().filter(starts_with_pred(prefix))
}

/// The texts of a vector of strings.
pub open spec fn texts(v: Seq<String>) -> Seq<Seq<char>> {
    v.map_values(|s: String| s@)
}

/// A key-value store for engine state. A store may fail (`Err`); on success
/// each operation does what a map does.
pub trait StateStore {
    /// The store's contents.
    spec fn contents(&self) -> Map<Seq<char>, Seq<u8>>;

    /// Stores `value` under `key`.
    fn put(&mut self, key: &str, value: Vec<u8>) -> (r: Result<(), SieError>)
        ensures
            r is Ok ==> final(self).contents() == old(self).contents().insert(key@, value@),
    ;

    /// The value stored under `key`.
    fn get(&self, key: &str) -> (r: Result<Option<Vec<u8>>, SieError>)
        ensures
            r matches Ok(Some(v)) ==> self.contents().contains_key(key@) && v@
                == self.contents()[key@],
            r matches Ok(None) ==> !self.contents().contains_key(key@),
    ;

    /// Deletes the value stored under `key`.
    fn delete(&mut self, key: &str) -> (r: Result<(), SieError>)
        ensures
            r is Ok ==> final(self).contents() == old(self).contents().remove(key@),
    ;

    /// All keys that start with `prefix`, each once.
    fn list_keys(&self, prefix: &str) -> (r: Result<Vec<String>, SieError>)
        ensures
            r matches Ok(keys) ==> texts(keys@).no_duplicates() && texts(keys@).to_set()
                == keys_with_prefix(self.contents(), prefix@),
    ;

    /// Whether `key` is stored.
    fn key_exists(&self, key: &str) -> (r: Result<bool, SieError>)
        ensures
            r matches Ok(b) ==> b == self.contents().contains_key(key@),
    ;
}

} // verus!
