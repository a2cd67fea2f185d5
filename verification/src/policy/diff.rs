//! Policy diff: comparison of two snapshots' configurations.
use super::snapshot::PolicySnapshot;
use crate::json::{json_eq, json_equal, json_same, json_wf, law_json_eq_reflexive, JsonValue};
use crate::table::StrMap;
use vstd::prelude::*;

verus! {

/// A configuration: key to JSON value.
pub type Config = Map<Seq<char>, JsonValue>;

/// The test "is not a key of `m`".
pub open spec fn absent_from(m: Config) -> spec_fn(Seq<char>) -> bool {
    |k: Seq<char>| !m.contains_key(k)
}

/// The test "is a key of `old` whose value differs in `new`".
pub open spec fn differs_between(old: Config, new: Config) -> spec_fn(Seq<char>) -> bool {
    |k: Seq<char>| old.contains_key(k) && !json_eq(old[k], new[k])
}

/// The test "is a key of `old` whose value is equal in `new`".
pub open spec fn agrees_between(old: Config, new: Config) -> spec_fn(Seq<char>) -> bool {
    |k: Seq<char>| old.contains_key(k) && json_eq(old[k], new[k])
}

/// Keys present in `new` but not in `old`.
pub open spec fn added_keys(old: Config, new: Config) -> Set<Seq<char>> {
    new.dom().filter(absent_from(old))
}

/// Keys present in `old` but not in `new`.
pub open spec fn removed_keys(old: Config, new: Config) -> Set<Seq<char>> {
    old.dom().filter(absent_from(new))
}

/// Keys present in both whose values differ.
pub open spec fn changed_keys(old: Config, new: Config) -> Set<Seq<char>> {
    new.dom().filter(differs_between(old, new))
}

/// Keys present in both whose values are equal.
pub open spec fn unchanged_keys(old: Config, new: Config) -> Set<Seq<char>> {
    new.dom().filter(agrees_between(old, new))
}

/// A diff between two policy snapshots' configurations.
#[derive(Debug)]
pub struct PolicyDiff {
    /// Keys added (present in `new` but not `old`), with their new values.
    pub added: StrMap<JsonValue>,
    /// Keys removed (present in `old` but not `new`), with their old values.
    pub removed: StrMap<JsonValue>,
    /// Keys whose value changed, with (old, new) values.
    pub changed: StrMap<(JsonValue, JsonValue)>,
    /// Number of keys that kept their value.
    pub unchanged_count: usize,
}

/// Filtering a sequence without duplicates, then taking its set, is the same
/// as filtering its set; the filtered sequence has no duplicates either.
proof fn lemma_filter_set<A>(s: Seq<A>, p: spec_fn(A) -> bool)
    requires
        s.no_duplicates(),
    ensures
        s.filter(p).to_set() == s.to_set().filter(p),
        s.filter(p).no_duplicates(),
        s.filter(p).len() == s.to_set().filter(p).len(),
    decreases s.len(),
{
    broadcast use vstd::seq_lib::group_filter_ensures;

    if s.len() == 0 {
        assert(s.filter(p) =~= Seq::<A>::empty());
        assert(s.to_set().filter(p) =~= Set::<A>::empty());
    } else {
        let rest = s.drop_last();
        let last = s.last();
        assert(rest.push(last) =~= s);
        lemma_filter_set(rest, p);
        rest.lemma_filter_push(last, p);
        assert(!rest.contains(last)) by {
            if rest.contains(last) {
                let j = choose|j: int| 0 <= j < rest.len() && rest[j] == last;
                assert(s[j] == s[s.len() - 1]);
            }
        }
        assert(s.to_set() =~= rest.to_set().insert(last));
        if p(last) {
            assert(s.filter(p).to_set() =~= rest.filter(p).to_set().insert(last));
            assert(s.to_set().filter(p) =~= rest.to_set().filter(p).insert(last));
            if rest.filter(p).contains(last) {
                rest.lemma_filter_contains_rev(p, last);
            }
        } else {
            assert(s.to_set().filter(p) =~= rest.to_set().filter(p));
        }
        s.filter(p).unique_seq_to_set();
    }
}

impl PolicyDiff {
    /// The diff between `old` and `new` configurations.
    pub fn compute(old: &PolicySnapshot, new: &PolicySnapshot) -> (r: PolicyDiff)
        ensures
            r.added@.dom() == added_keys(old.config@, new.config@),
            forall|k: Seq<char>| #[trigger] r.added@.contains_key(k) ==> json_same(new.config@[k], r.added@[k]),
            r.removed@.dom() == removed_keys(old.config@, new.config@),
            forall|k: Seq<char>| #[trigger] r.removed@.contains_key(k) ==> json_same(old.config@[k], r.removed@[k]),
            r.changed@.dom() == changed_keys(old.config@, new.config@),
            forall|k: Seq<char>|
                #[trigger] r.changed@.contains_key(k) ==> json_same(old.config@[k], r.changed@[k].0)
                    && json_same(new.config@[k], r.changed@[k].1),
            r.unchanged_count == unchanged_keys(old.config@, new.config@).len(),
    {
        let ghost o = old.config@;
        let ghost nw = new.config@;
        proof {
            use_type_invariant(&old.config);
            use_type_invariant(&new.config);
            old.config.lemma_storage();
            new.config.lemma_storage();
        }
        let ghost kn = new.config.key_seq();
        let ghost ko = old.config.key_seq();
        let mut added: StrMap<JsonValue> = StrMap::new();
        let mut changed: StrMap<(JsonValue, JsonValue)> = StrMap::new();
        let mut unchanged_count: usize = 0;
        let n = new.config.len();
        let mut i: usize = 0;
        while i < n
            invariant
                o == old.config@,
                nw == new.config@,
                kn == new.config.key_seq(),
                n == kn.len(),
                kn.no_duplicates(),
                kn.to_set() == nw.dom(),
                forall|j: int| 0 <= j < kn.len() ==> #[trigger] nw[kn[j]] == new.config.value_seq()[j],
                i <= n,
                added@.dom() == kn.take(i as int).filter(absent_from(o)).to_set(),
                changed@.dom() == kn.take(i as int).filter(differs_between(o, nw)).to_set(),
                unchanged_count == kn.take(i as int).filter(agrees_between(o, nw)).len(),
                forall|k: Seq<char>| #[trigger] added@.contains_key(k) ==> json_same(nw[k], added@[k]),
                forall|k: Seq<char>|
                    #[trigger] changed@.contains_key(k) ==> json_same(o[k], changed@[k].0) && json_same(
                        nw[k],
                        changed@[k].1,
                    ),
            decreases n - i,
        {
            let key = new.config.key_at(i);
            let value = new.config.value_at(i);
            let ghost kv = kn[i as int];
            proof {
                assert(kn.take(i + 1) =~= kn.take(i as int).push(kv));
                kn.take(i as int).lemma_filter_push(kv, absent_from(o));
                kn.take(i as int).lemma_filter_push(kv, differs_between(o, nw));
                kn.take(i as int).lemma_filter_push(kv, agrees_between(o, nw));
                kn.take(i as int).filter(absent_from(o)).lemma_push_to_set_commute(kv);
                kn.take(i as int).filter(differs_between(o, nw)).lemma_push_to_set_commute(kv);
                assert(kn.take(i as int).filter(agrees_between(o, nw)).len() <= kn.take(i as int).len()) by {
                    broadcast use vstd::seq_lib::group_filter_ensures;
                }
            }
            match old.config.get(key.as_str()) {
                None => {
                    let copy = value.deep_copy();
                    let ghost before = added@.dom();
                    added.insert(key.clone(), copy);
                    assert(absent_from(o)(kv));
                    assert(added@.dom() =~= before.insert(kv));
                    assert(kn.take(i as int).push(kv).filter(absent_from(o)) == kn.take(i as int).filter(absent_from(o)).push(kv));
                    assert(added@.dom() =~= kn.take(i + 1).filter(absent_from(o)).to_set());
                },
                Some(old_value) => {
                    if json_equal(old_value, value) {
                        unchanged_count = unchanged_count + 1;
                    } else {
                        let a = old_value.deep_copy();
                        let b = value.deep_copy();
                        changed.insert(key.clone(), (a, b));
                    }
                },
            }
            i = i + 1;
        }
        let mut removed: StrMap<JsonValue> = StrMap::new();
        let m = old.config.len();
        let mut j: usize = 0;
        while j < m
            invariant
                o == old.config@,
                nw == new.config@,
                ko == old.config.key_seq(),
                m == ko.len(),
                ko.no_duplicates(),
                ko.to_set() == o.dom(),
                forall|t: int| 0 <= t < ko.len() ==> #[trigger] o[ko[t]] == old.config.value_seq()[t],
                j <= m,
                removed@.dom() == ko.take(j as int).filter(absent_from(nw)).to_set(),
                forall|k: Seq<char>| #[trigger] removed@.contains_key(k) ==> json_same(o[k], removed@[k]),
            decreases m - j,
        {
            let key = old.config.key_at(j);
            let value = old.config.value_at(j);
            let ghost kv = ko[j as int];
            proof {
                assert(ko.take(j + 1) =~= ko.take(j as int).push(kv));
                ko.take(j as int).lemma_filter_push(kv, absent_from(nw));
                ko.take(j as int).filter(absent_from(nw)).lemma_push_to_set_commute(kv);
            }
            if !new.config.contains_key(key.as_str()) {
                let copy = value.deep_copy();
                removed.insert(key.clone(), copy);
            }
            j = j + 1;
        }
        proof {
            assert(kn.take(n as int) =~= kn);
            assert(ko.take(m as int) =~= ko);
            lemma_filter_set(kn, absent_from(o));
            lemma_filter_set(kn, differs_between(o, nw));
            lemma_filter_set(kn, agrees_between(o, nw));
            lemma_filter_set(ko, absent_from(nw));
            assert(added@.dom() =~= added_keys(o, nw));
            assert(changed@.dom() =~= changed_keys(o, nw));
            assert(removed@.dom() =~= removed_keys(o, nw));
            assert(unchanged_keys(o, nw) =~= kn.to_set().filter(agrees_between(o, nw)));
        }
        PolicyDiff { added, removed, changed, unchanged_count }
    }

    /// Whether the two configurations agree (nothing added, removed or changed).
    pub fn is_empty(&self) -> (r: bool)
        ensures
            r == (self.added@.len() == 0 && self.removed@.len() == 0 && self.changed@.len() == 0),
    {
        self.added.is_empty() && self.removed.is_empty() && self.changed.is_empty()
    }

    /// Total number of changes (added + removed + changed).
    pub fn change_count(&self) -> (r: usize)
        requires
            self.added@.len() + self.removed@.len() + self.changed@.len() <= usize::MAX,
        ensures
            r == self.added@.len() + self.removed@.len() + self.changed@.len(),
    {
        self.added.len() + self.removed.len() + self.changed.len()
    }
}

/// Added, changed and unchanged keys split the new configuration's keys;
/// removed, changed and unchanged keys split the old one's.
pub proof fn law_diff_partition(old: Config, new: Config)
    ensures
        added_keys(old, new).disjoint(changed_keys(old, new)),
        added_keys(old, new).disjoint(unchanged_keys(old, new)),
        changed_keys(old, new).disjoint(unchanged_keys(old, new)),
        added_keys(old, new) + changed_keys(old, new) + unchanged_keys(old, new) == new.dom(),
        removed_keys(old, new) + changed_keys(old, new) + unchanged_keys(old, new) == old.dom(),
{
    assert(added_keys(old, new) + changed_keys(old, new) + unchanged_keys(old, new) =~= new.dom());
    assert(removed_keys(old, new) + changed_keys(old, new) + unchanged_keys(old, new) =~= old.dom());
}

/// A configuration compared with itself has no difference: every key is
/// unchanged (for values serde_json can hold).
pub proof fn law_diff_of_identical(config: Config)
    requires
        forall|k: Seq<char>| #[trigger] config.contains_key(k) ==> json_wf(config[k]),
    ensures
        added_keys(config, config) == Set::<Seq<char>>::empty(),
        removed_keys(config, config) == Set::<Seq<char>>::empty(),
        changed_keys(config, config) == Set::<Seq<char>>::empty(),
        unchanged_keys(config, config) == config.dom(),
{
    assert forall|k: Seq<char>| #[trigger] config.contains_key(k) implies json_eq(config[k], config[k]) by {
        law_json_eq_reflexive(config[k]);
    }
    assert(added_keys(config, config) =~= Set::<Seq<char>>::empty());
    assert(removed_keys(config, config) =~= Set::<Seq<char>>::empty());
    assert(changed_keys(config, config) =~= Set::<Seq<char>>::empty());
    assert(unchanged_keys(config, config) =~= config.dom());
}

/// A key present in both configurations whose value changed is reported as
/// changed and not as unchanged: a flipped boolean, say, or an edited string.
pub proof fn law_diff_reports_changed_values(old: Config, new: Config, k: Seq<char>, s: String, t: String)
    requires
        old.contains_key(k),
        new.contains_key(k),
    ensures
        old[k] == JsonValue::Bool(true) && new[k] == JsonValue::Bool(false) ==> changed_keys(
            old,
            new,
        ).contains(k) && !unchanged_keys(old, new).contains(k),
        old[k] == JsonValue::String(s) && new[k] == JsonValue::String(t) && s@ != t@
            ==> changed_keys(old, new).contains(k) && !unchanged_keys(old, new).contains(k),
        old[k] == JsonValue::Bool(true) && new[k] == JsonValue::Bool(true) ==> unchanged_keys(
            old,
            new,
        ).contains(k) && !changed_keys(old, new).contains(k),
{
}

/// A key only in the new configuration is added (and nothing else); a key
/// only in the old one is removed (and nothing else); a key in neither is in
/// no part of the diff.
pub proof fn law_diff_sides(old: Config, new: Config, k: Seq<char>)
    ensures
        new.contains_key(k) && !old.contains_key(k) ==> added_keys(old, new).contains(k)
            && !removed_keys(old, new).contains(k) && !changed_keys(old, new).contains(k)
            && !unchanged_keys(old, new).contains(k),
        old.contains_key(k) && !new.contains_key(k) ==> removed_keys(old, new).contains(k)
            && !added_keys(old, new).contains(k) && !changed_keys(old, new).contains(k)
            && !unchanged_keys(old, new).contains(k),
        !old.contains_key(k) && !new.contains_key(k) ==> !added_keys(old, new).contains(k)
            && !removed_keys(old, new).contains(k) && !changed_keys(old, new).contains(k)
            && !unchanged_keys(old, new).contains(k),
{
}

} // verus!
