//! PolicyArchive: the DAG-based branching evolution log.
use super::snapshot::{with_parent, PolicySnapshot};
use super::{
    ancestry_chain, ancestry_ends, chain_within, is_best_k, lemma_chain_unique, missing_parent_text,
    parent_of, unknown_origin_text, PolicyStore,
};
use crate::error::SieError;
use crate::float_bits::FloatBits;
use crate::ranking::{is_top_selection, top_indices};
use crate::table::{lists_entries, IdMap};
use crate::text::{concat2, concat3, uuid_string};
use vstd::prelude::*;

verus! {

/// A DAG-based archive of policy snapshots supporting branching evolution.
pub struct PolicyArchive {
    /// All snapshots, by identifier.
    snapshots: IdMap<PolicySnapshot>,
    /// The current HEAD (most recently committed on the main branch).
    head_id: Option<u128>,
    /// Root nodes (committed without a parent), in commit order.
    roots: Vec<u128>,
}

impl PolicyArchive {
    /// Each snapshot is stored under its own identifier and HEAD names a
    /// stored snapshot.
    #[verifier::type_invariant]
    pub closed spec fn wf(&self) -> bool {
        &&& (self.head_id matches Some(h) ==> self.snapshots@.contains_key(h))
        &&& forall|k: u128| #[trigger] self.snapshots@.contains_key(k) ==> self.snapshots@[k].id == k
    }

    /// An empty archive.
    pub fn new() -> (r: PolicyArchive)
        ensures
            r.stored() == Map::<u128, PolicySnapshot>::empty(),
            r.head_id() is None,
            r.root_ids() == Seq::<u128>::empty(),
    {
        PolicyArchive { snapshots: IdMap::new(), head_id: None, roots: Vec::new() }
    }

    /// The archive stores finitely many snapshots.
    pub proof fn lemma_finite(&self)
        ensures
            self.stored().dom().finite(),
    {
        self.snapshots.lemma_finite();
    }

    /// Number of stored snapshots.
    pub fn len(&self) -> (r: usize)
        ensures
            r == self.stored().len(),
    {
        self.snapshots.len()
    }

    /// Whether no snapshot is stored.
    pub fn is_empty(&self) -> (r: bool)
        ensures
            r == (self.stored().len() == 0),
    {
        self.snapshots.len() == 0
    }

    /// The identifiers of the root nodes, in commit order.
    pub fn roots(&self) -> (r: &Vec<u128>)
        ensures
            r@ == self.root_ids(),
    {
        &self.roots
    }

    fn store(&mut self, snapshot: PolicySnapshot)
        ensures
            final(self).stored() == old(self).stored().insert(snapshot.id, snapshot),
            final(self).head_id() == old(self).head_id(),
            final(self).root_ids() == old(self).root_ids(),
    {
        proof {
            use_type_invariant(&*self);
        }
        let head = self.head_id;
        self.head_id = None;
        let mut snapshots = IdMap::new();
        std::mem::swap(&mut snapshots, &mut self.snapshots);
        let id = snapshot.id;
        snapshots.insert(id, snapshot);
        self.snapshots = snapshots;
        self.head_id = head;
    }
}

impl Default for PolicyArchive {
    fn default() -> (r: Self)
        ensures
            r.stored() == Map::<u128, PolicySnapshot>::empty(),
            r.head_id() is None,
            r.root_ids() == Seq::<u128>::empty(),
    {
        Self::new()
    }
}

impl PolicyStore for PolicyArchive {
    closed spec fn stored(&self) -> Map<u128, PolicySnapshot> {
        self.snapshots@
    }

    closed spec fn head_id(&self) -> Option<u128> {
        self.head_id
    }

    closed spec fn root_ids(&self) -> Seq<u128> {
        self.roots@
    }

    fn commit(&mut self, snapshot: PolicySnapshot, parent_id: Option<u128>) -> (r: Result<
        u128,
        SieError,
    >) {
        proof {
            use_type_invariant(&*self);
        }
        let id = snapshot.id;
        if let Some(pid) = parent_id {
            if !self.snapshots.contains_key(pid) {
                let text = uuid_string(pid);
                return Err(SieError::Policy(concat3("Parent snapshot ", text.as_str(), " not found")));
            }
        }
        if parent_id.is_none() {
            let mut roots: Vec<u128> = Vec::new();
            std::mem::swap(&mut roots, &mut self.roots);
            roots.push(id);
            self.roots = roots;
        }
        let mut child = snapshot;
        child.parent_id = parent_id;
        self.store(child);
        proof {
            use_type_invariant(&*self);
        }
        self.head_id = Some(id);
        Ok(id)
    }

    fn fork(&mut self, from_id: u128, snapshot: PolicySnapshot) -> (r: Result<u128, SieError>) {
        if !self.snapshots.contains_key(from_id) {
            let text = uuid_string(from_id);
            return Err(SieError::Policy(concat2("Cannot fork from unknown snapshot ", text.as_str())));
        }
        let id = snapshot.id;
        let mut forked = snapshot;
        forked.parent_id = Some(from_id);
        self.store(forked);
        Ok(id)
    }

    fn get(&self, id: u128) -> (r: Option<&PolicySnapshot>) {
        self.snapshots.get(id)
    }

    fn head(&self) -> (r: Option<&PolicySnapshot>) {
        proof {
            use_type_invariant(self);
        }
        match self.head_id {
            Some(h) => self.snapshots.get(h),
            None => None,
        }
    }

    fn best_k(&self, k: usize) -> (r: Vec<&PolicySnapshot>) {
        proof {
            use_type_invariant(self);
        }
        let es = self.snapshots.entries();
        let ghost stored = self.snapshots@;
        let n = es.len();
        let mut scores: Vec<FloatBits> = Vec::new();
        let mut i: usize = 0;
        while i < n
            invariant
                n == es@.len(),
                i <= n,
                scores@.len() == i,
                forall|j: int| 0 <= j < i ==> scores@[j] == (#[trigger] es@[j]).1.score,
            decreases n - i,
        {
            scores.push(es[i].1.score);
            i = i + 1;
        }
        let idx = top_indices(&scores, k);
        let mut best: Vec<&PolicySnapshot> = Vec::new();
        let mut t: usize = 0;
        while t < idx.len()
            invariant
                n == es@.len(),
                scores@.len() == n,
                is_top_selection(scores@, k as nat, idx@),
                t <= idx@.len(),
                best@.len() == t,
                forall|j: int| 0 <= j < t ==> best@[j] == es@[#[trigger] idx@[j] as int].1,
            decreases idx@.len() - t,
        {
            best.push(es[idx[t]].1);
            t = t + 1;
        }
        proof {
            assert(lists_entries(stored, es@));
            assert forall|j: int| 0 <= j < n implies (#[trigger] es@[j]).1.id == es@[j].0 by {
                assert(stored.contains_key(es@[j].0));
            }
            assert forall|i: int|
                0 <= i < best@.len() implies stored.contains_key(#[trigger] best@[i].id)
                && stored[best@[i].id] == *best@[i] by {
                let p = idx@[i] as int;
                assert(es@[p].1.id == es@[p].0);
            }
            assert forall|i: int, j: int| 0 <= i < j < best@.len() implies best@[i].id != best@[j].id by {
                let p = idx@[i] as int;
                let q = idx@[j] as int;
                assert(es@[p].1.id == es@[p].0);
                assert(es@[q].1.id == es@[q].0);
                if p < q {
                    assert(es@[p].0 != es@[q].0);
                } else {
                    assert(es@[q].0 != es@[p].0);
                }
            }
            assert forall|i: int, j: int|
                0 <= i < j < best@.len() implies !(#[trigger] best@[i].score).spec_lt(
                #[trigger] best@[j].score,
            ) by {
                assert(scores@[idx@[i] as int] == es@[idx@[i] as int].1.score);
                assert(scores@[idx@[j] as int] == es@[idx@[j] as int].1.score);
            }
            assert forall|i: int, id: u128|
                0 <= i < best@.len() && stored.contains_key(id) && (forall|j: int|
                    0 <= j < best@.len() ==> best@[j].id != id) implies !(
            #[trigger] best@[i].score).spec_lt(#[trigger] stored[id].score) by {
                let q = choose|q: int| 0 <= q < es@.len() && es@[q].0 == id;
                assert(*es@[q].1 == stored[id]);
                if idx@.contains(q as usize) {
                    let j = choose|j: int| 0 <= j < idx@.len() && idx@[j] == q as usize;
                    assert(best@[j].id == es@[q].1.id);
                    assert(es@[q].1.id == es@[q].0);
                }
                assert(scores@[q] == es@[q].1.score);
                assert(scores@[idx@[i] as int] == es@[idx@[i] as int].1.score);
            }
        }
        best
    }

    fn list_ids(&self) -> (r: Vec<u128>) {
        let es = self.snapshots.entries();
        let ghost stored = self.snapshots@;
        let n = es.len();
        let mut ids: Vec<u128> = Vec::new();
        let mut i: usize = 0;
        while i < n
            invariant
                n == es@.len(),
                i <= n,
                ids@.len() == i,
                forall|j: int| 0 <= j < i ==> ids@[j] == (#[trigger] es@[j]).0,
            decreases n - i,
        {
            ids.push(es[i].0);
            i = i + 1;
        }
        proof {
            assert(lists_entries(stored, es@));
            assert forall|a: int, b: int| 0 <= a < ids@.len() && 0 <= b < ids@.len() && a != b implies ids@[a] != ids@[b] by {
                if a < b {
                    assert(es@[a].0 != es@[b].0);
                } else {
                    assert(es@[b].0 != es@[a].0);
                }
            }
            assert forall|x: u128| ids@.to_set().contains(x) <==> stored.dom().contains(x) by {
                if stored.contains_key(x) {
                    let q = choose|q: int| 0 <= q < es@.len() && es@[q].0 == x;
                    assert(ids@[q] == x);
                }
                if ids@.contains(x) {
                    let q = choose|q: int| 0 <= q < ids@.len() && ids@[q] == x;
                    assert(stored.contains_key(es@[q].0));
                }
            }
            assert(ids@.to_set() =~= stored.dom());
        }
        ids
    }

    fn ancestry(&self, id: u128) -> (r: Vec<u128>) {
        let ghost stored = self.snapshots@;
        let ghost fuel = choose|fuel: nat| #[trigger] chain_within(stored, id, fuel) is Some;
        let ghost full = chain_within(stored, id, fuel)->0;
        let mut chain: Vec<u128> = Vec::new();
        let mut current: Option<u128> = Some(id);
        let ghost mut left: nat = fuel;
        while current.is_some()
            invariant
                stored == self.snapshots@,
                full == chain_within(stored, id, fuel)->0,
                chain_within(stored, id, fuel) is Some,
                current matches Some(c) ==> chain_within(stored, c, left) is Some && full == chain@
                    + chain_within(stored, c, left)->0,
                current is None ==> full == chain@,
            decreases left,
        {
            let c = current.unwrap();
            chain.push(c);
            current = match self.snapshots.get(c) {
                Some(s) => s.parent_id,
                None => None,
            };
            proof {
                assert(current == parent_of(stored, c));
                match parent_of(stored, c) {
                    None => {
                        assert(chain_within(stored, c, left) == Some(seq![c]));
                    },
                    Some(p) => {
                        let rest = chain_within(stored, p, (left - 1) as nat)->0;
                        assert(chain_within(stored, c, left) == Some(seq![c] + rest));
                        assert(chain@ + rest =~= chain@.drop_last() + (seq![c] + rest));
                    },
                }
                left = (left - 1) as nat;
            }
        }
        proof {
            let f2 = choose|f: nat| #[trigger] chain_within(stored, id, f) is Some;
            lemma_chain_unique(stored, id, fuel, f2);
        }
        chain
    }
}

} // verus!
