//! An in-memory state store (for tests and development; production stores
//! are provided by the kernel).
use super::{keys_with_prefix, starts_with_pred, texts, StateStore};
use crate::error::SieError;
use crate::table::StrMap;
use crate::text::starts_with;
use vstd::prelude::*;

verus! {

/// In-memory implementation of `StateStore`.
pub struct InMemoryStateStore {
    data: StrMap<Vec<u8>>,
}

impl View for InMemoryStateStore {
    type V = Map<Seq<char>, Seq<u8>>;

    closed spec fn view(&self) -> Map<Seq<char>, Seq<u8>> {
        self.data@.map_values(|v: Vec<u8>| v@)
    }
}

impl InMemoryStateStore {
    /// An empty store.
    pub fn new() -> (r: InMemoryStateStore)
        ensures
            r@ == Map::<Seq<char>, Seq<u8>>::empty(),
    {
        let r = InMemoryStateStore { data: StrMap::new() };
        assert(r@ =~= Map::<Seq<char>, Seq<u8>>::empty());
        r
    }

    /// The store holds finitely many keys.
    pub proof fn lemma_finite(&self)
        ensures
            self@.dom().finite(),
    {
        self.data.lemma_finite();
        assert(self@.dom() =~= self.data@.dom());
    }

    /// Number of entries.
    pub fn len(&self) -> (r: usize)
        ensures
            r == self@.len(),
    {
        proof {
            assert(self@.dom() =~= self.data@.dom());
        }
        self.data.len()
    }

    /// Whether the store holds nothing.
    pub fn is_empty(&self) -> (r: bool)
        ensures
            r == (self@.len() == 0),
    {
        self.len() == 0
    }

    /// Stores `value` under `key`, replacing any earlier value.
    pub fn put(&mut self, key: &str, value: Vec<u8>) -> (r: Result<(), SieError>)
        ensures
            r is Ok,
            final(self)@ == old(self)@.insert(key@, value@),
    {
        let ghost v = value@;
        self.data.insert(String::from_str(key), value);
        assert(self@ =~= old(self)@.insert(key@, v));
        Ok(())
    }

    /// A copy of the value stored under `key`.
    pub fn get(&self, key: &str) -> (r: Result<Option<Vec<u8>>, SieError>)
        ensures
            r is Ok,
            r matches Ok(Some(v)) ==> self@.contains_key(key@) && v@ == self@[key@],
            r matches Ok(None) ==> !self@.contains_key(key@),
    {
        match self.data.get(key) {
            Some(v) => {
                let c = v.clone();
                assert(c@ =~= v@);
                Ok(Some(c))
            },
            None => Ok(None),
        }
    }

    /// Deletes the value stored under `key` (nothing happens if there is none).
    pub fn delete(&mut self, key: &str) -> (r: Result<(), SieError>)
        ensures
            r is Ok,
            final(self)@ == old(self)@.remove(key@),
    {
        self.data.remove(key);
        assert(self@ =~= old(self)@.remove(key@));
        Ok(())
    }

    /// All keys that start with `prefix`, each once.
    pub fn list_keys(&self, prefix: &str) -> (r: Result<Vec<String>, SieError>)
        ensures
            r is Ok,
            r matches Ok(keys) ==> texts(keys@).no_duplicates() && texts(keys@).to_set()
                == keys_with_prefix(self@, prefix@),
    {
        proof {
            use_type_invariant(&self.data);
            self.data.lemma_storage();
        }
        let n = self.data.len();
        let mut keys: Vec<String> = Vec::new();
        let mut i: usize = 0;
        while i < n
            invariant
                n == self.data.key_seq().len(),
                self.data.key_seq().no_duplicates(),
                i <= n,
                texts(keys@) == self.data.key_seq().take(i as int).filter(starts_with_pred(prefix@)),
            decreases n - i,
        {
            let k = self.data.key_at(i);
            let ghost before = keys@;
            if starts_with(k.as_str(), prefix) {
                keys.push(k.clone());
                assert(texts(keys@) =~= texts(before).push(k@));
            }
            assert(self.data.key_seq().take(i + 1) =~= self.data.key_seq().take(i as int).push(
                self.data.key_seq()[i as int],
            ));
            proof {
                self.data.key_seq().take(i as int).lemma_filter_push(
                    self.data.key_seq()[i as int],
                    starts_with_pred(prefix@),
                );
            }
            i = i + 1;
        }
        proof {
            broadcast use vstd::seq_lib::group_filter_ensures;

            let pred = starts_with_pred(prefix@);
            let ks = self.data.key_seq();
            assert(ks.take(n as int) =~= ks);
            assert(texts(keys@).no_duplicates()) by {
                assert forall|a: int, b: int|
                    0 <= a < texts(keys@).len() && 0 <= b < texts(keys@).len() && a != b implies texts(
                    keys@,
                )[a] != texts(keys@)[b] by {
                    lemma_filter_no_duplicates(ks, pred);
                }
            }
            assert(texts(keys@).to_set() =~= keys_with_prefix(self@, prefix@)) by {
                assert forall|k: Seq<char>| #[trigger] texts(keys@).to_set().contains(k) implies keys_with_prefix(
                    self@,
                    prefix@,
                ).contains(k) by {
                    let j = choose|j: int| 0 <= j < texts(keys@).len() && texts(keys@)[j] == k;
                    assert(ks.filter(pred).contains(k));
                    ks.lemma_filter_contains_rev(pred, k);
                    assert(pred(k));
                }
                assert forall|k: Seq<char>| #[trigger] keys_with_prefix(self@, prefix@).contains(k) implies texts(
                    keys@,
                ).to_set().contains(k) by {
                    let j = choose|j: int| 0 <= j < ks.len() && #[trigger] ks[j] == k;
                    assert(ks.filter(pred).contains(k));
                }
            }
        }
        Ok(keys)
    }

    /// Whether `key` is stored.
    pub fn key_exists(&self, key: &str) -> (r: Result<bool, SieError>)
        ensures
            r == Ok::<bool, SieError>(self@.contains_key(key@)),
    {
        Ok(self.data.contains_key(key))
    }
}

impl Default for InMemoryStateStore {
    fn default() -> (r: Self)
        ensures
            r@ == Map::<Seq<char>, Seq<u8>>::empty(),
    {
        Self::new()
    }
}

/// Filtering keeps a sequence free of duplicates.
proof fn lemma_filter_no_duplicates<A>(s: Seq<A>, pred: spec_fn(A) -> bool)
    requires
        s.no_duplicates(),
    ensures
        s.filter(pred).no_duplicates(),
    decreases s.len(),
{
    if s.len() > 0 {
        let rest = s.drop_last();
        let last = s.last();
        assert(rest.no_duplicates());
        lemma_filter_no_duplicates(rest, pred);
        assert(rest.push(last) =~= s);
        rest.lemma_filter_push(last, pred);
        if pred(last) {
            assert(!rest.contains(last)) by {
                if rest.contains(last) {
                    let j = choose|j: int| 0 <= j < rest.len() && rest[j] == last;
                    assert(s[j] == s[s.len() - 1]);
                }
            }
            if rest.filter(pred).contains(last) {
                rest.lemma_filter_contains_rev(pred, last);
            }
        }
    }
}

impl StateStore for InMemoryStateStore {
    open spec fn contents(&self) -> Map<Seq<char>, Seq<u8>> {
        self@
    }

    fn put(&mut self, key: &str, value: Vec<u8>) -> (r: Result<(), SieError>)
        ensures
            r is Ok,
            final(self)@ == old(self)@.insert(key@, value@),
    {
        InMemoryStateStore::put(self, key, value)
    }

    fn get(&self, key: &str) -> (r: Result<Option<Vec<u8>>, SieError>)
        ensures
            r is Ok,
            r matches Ok(Some(v)) ==> self@.contains_key(key@) && v@ == self@[key@],
            r matches Ok(None) ==> !self@.contains_key(key@),
    {
        InMemoryStateStore::get(self, key)
    }

    fn delete(&mut self, key: &str) -> (r: Result<(), SieError>)
        ensures
            r is Ok,
            final(self)@ == old(self)@.remove(key@),
    {
        InMemoryStateStore::delete(self, key)
    }

    fn list_keys(&self, prefix: &str) -> (r: Result<Vec<String>, SieError>)
        ensures
            r is Ok,
            r matches Ok(keys) ==> texts(keys@).no_duplicates() && texts(keys@).to_set()
                == keys_with_prefix(self@, prefix@),
    {
        InMemoryStateStore::list_keys(self, prefix)
    }

    fn key_exists(&self, key: &str) -> (r: Result<bool, SieError>)
        ensures
            r == Ok::<bool, SieError>(self@.contains_key(key@)),
    {
        InMemoryStateStore::key_exists(self, key)
    }
}


/// A read after a write gives back what was written, and leaves every other
/// key as it was.
pub proof fn law_read_after_write(
    contents: Map<Seq<char>, Seq<u8>>,
    key: Seq<char>,
    value: Seq<u8>,
    other: Seq<char>,
)
    ensures
        contents.insert(key, value).contains_key(key),
        contents.insert(key, value)[key] == value,
        other != key ==> (contents.insert(key, value).contains_key(other) == contents.contains_key(
            other,
        )),
        other != key && contents.contains_key(other) ==> contents.insert(key, value)[other]
            == contents[other],
{
}

/// The last of two writes to a key wins.
pub proof fn law_last_write_wins(
    contents: Map<Seq<char>, Seq<u8>>,
    key: Seq<char>,
    first: Seq<u8>,
    second: Seq<u8>,
)
    ensures
        contents.insert(key, first).insert(key, second) == contents.insert(key, second),
{
    assert(contents.insert(key, first).insert(key, second) =~= contents.insert(key, second));
}

/// After a delete the key no longer exists; deleting twice is deleting once.
pub proof fn law_delete(contents: Map<Seq<char>, Seq<u8>>, key: Seq<char>)
    ensures
        !contents.remove(key).contains_key(key),
        contents.remove(key).remove(key) == contents.remove(key),
{
    assert(contents.remove(key).remove(key) =~= contents.remove(key));
}

/// A written key is listed under every prefix of it, and every listed key
/// carries the prefix.
pub proof fn law_listing(contents: Map<Seq<char>, Seq<u8>>, key: Seq<char>, value: Seq<u8>, prefix: Seq<char>)
    ensures
        prefix.is_prefix_of(key) ==> keys_with_prefix(contents.insert(key, value), prefix).contains(key),
        forall|k: Seq<char>| #[trigger] keys_with_prefix(contents, prefix).contains(k) ==> prefix.is_prefix_of(k)
            && contents.contains_key(k),
{
}

/// A write of a new key adds one entry; a write of a stored key keeps the
/// number of entries (contents are finite: see `lemma_finite`).
pub proof fn law_length_after_write(contents: Map<Seq<char>, Seq<u8>>, key: Seq<char>, value: Seq<u8>)
    requires
        contents.dom().finite(),
    ensures
        contents.insert(key, value).len() == if contents.contains_key(key) {
            contents.len()
        } else {
            contents.len() + 1
        },
{
    if contents.contains_key(key) {
        assert(contents.insert(key, value).dom() =~= contents.dom());
    }
}

} // verus!
