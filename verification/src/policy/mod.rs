//! Policy archive: a branching evolution log of policy snapshots.
//!
//! Snapshots form a DAG (not a linear log); a branch may be forked from any
//! node. Also a two-tier skill library and snapshot diffs.
pub mod archive;
pub mod diff;
pub mod skill_library;
pub mod snapshot;

use crate::error::SieError;
use crate::text::uuid_text;
use snapshot::{with_parent, with_parent_id, PolicySnapshot};
use vstd::prelude::*;

verus! {

/// The error text of a commit under an unknown parent.
pub open spec fn missing_parent_text(parent: u128) -> Seq<char> {
    "Parent snapshot "@ + uuid_text(parent) + " not found"@
}

/// The error text of a fork from an unknown snapshot.
pub open spec fn unknown_origin_text(origin: u128) -> Seq<char> {
    "Cannot fork from unknown snapshot "@ + uuid_text(origin)
}

/// The parent recorded for `id`, if `id` is stored and has one.
pub open spec fn parent_of(stored: Map<u128, PolicySnapshot>, id: u128) -> Option<u128> {
    if stored.contains_key(id) {
        stored[id].parent_id
    } else {
        None
    }
}

/// The chain `id`, parent of `id`, grandparent, ... up to a snapshot that is
/// not stored or has no parent; `None` if that takes more than `fuel` links.
pub open spec fn chain_within(stored: Map<u128, PolicySnapshot>, id: u128, fuel: nat) -> Option<
    Seq<u128>,
>
    decreases fuel,
{
    if fuel == 0 {
        None
    } else {
        match parent_of(stored, id) {
            None => Some(seq![id]),
            Some(p) => match chain_within(stored, p, (fuel - 1) as nat) {
                Some(rest) => Some(seq![id] + rest),
                None => None,
            },
        }
    }
}

/// Following parents from `id` ends (no cycle is reached).
pub open spec fn ancestry_ends(stored: Map<u128, PolicySnapshot>, id: u128) -> bool {
    exists|fuel: nat| #[trigger] chain_within(stored, id, fuel) is Some
}

/// The chain of parents from `id` back to a root (when it ends).
pub open spec fn ancestry_chain(stored: Map<u128, PolicySnapshot>, id: u128) -> Seq<u128> {
    chain_within(stored, id, choose|fuel: nat| #[trigger] chain_within(stored, id, fuel) is Some)->0
}

/// Once the chain ends within some fuel, more fuel gives the same chain.
pub proof fn lemma_chain_stable(stored: Map<u128, PolicySnapshot>, id: u128, f1: nat, f2: nat)
    requires
        chain_within(stored, id, f1) is Some,
        f1 <= f2,
    ensures
        chain_within(stored, id, f2) == chain_within(stored, id, f1),
    decreases f1,
{
    if let Some(p) = parent_of(stored, id) {
        lemma_chain_stable(stored, p, (f1 - 1) as nat, (f2 - 1) as nat);
    }
}

/// All chains that end agree: the chain does not depend on the fuel.
pub proof fn lemma_chain_unique(stored: Map<u128, PolicySnapshot>, id: u128, f1: nat, f2: nat)
    requires
        chain_within(stored, id, f1) is Some,
        chain_within(stored, id, f2) is Some,
    ensures
        chain_within(stored, id, f1) == chain_within(stored, id, f2),
{
    if f1 <= f2 {
        lemma_chain_stable(stored, id, f1, f2);
    } else {
        lemma_chain_stable(stored, id, f2, f1);
    }
}

/// `best` are `min(k, n)` distinct stored snapshots, best score first, and
/// none of them scores below a snapshot left out.
pub open spec fn is_best_k(stored: Map<u128, PolicySnapshot>, k: nat, best: Seq<&PolicySnapshot>) -> bool {
    &&& best.len() == if k < stored.len() {
        k
    } else {
        stored.len()
    }
    &&& forall|i: int|
        0 <= i < best.len() ==> stored.contains_key(#[trigger] best[i].id) && stored[best[i].id]
            == *best[i]
    &&& forall|i: int, j: int| 0 <= i < j < best.len() ==> best[i].id != best[j].id
    &&& forall|i: int, j: int|
        0 <= i < j < best.len() ==> !(#[trigger] best[i].score).spec_lt(#[trigger] best[j].score)
    &&& forall|i: int, id: u128|
        0 <= i < best.len() && stored.contains_key(id) && (forall|j: int|
            0 <= j < best.len() ==> best[j].id != id) ==> !(#[trigger] best[i].score).spec_lt(
            #[trigger] stored[id].score,
        )
}

/// Storage of policy snapshots organized as a DAG for quality-diversity
/// exploration.
pub trait PolicyStore {
    /// The stored snapshots, by identifier.
    spec fn stored(&self) -> Map<u128, PolicySnapshot>;

    /// The current HEAD (most recent commit on the main branch).
    spec fn head_id(&self) -> Option<u128>;

    /// The root nodes, in commit order.
    spec fn root_ids(&self) -> Seq<u128>;

    /// Commits `snapshot` as a child of `parent_id` (a root when `None`): it
    /// is stored with `parent_id` as its parent, and HEAD moves to it. Fails,
    /// changing nothing, when the parent is not stored.
    fn commit(&mut self, snapshot: PolicySnapshot, parent_id: Option<u128>) -> (r: Result<
        u128,
        SieError,
    >)
        ensures
            match parent_id {
                Some(p) if !old(self).stored().contains_key(p) => {
                    &&& r matches Err(SieError::Policy(m)) && m@ == missing_parent_text(p)
                    &&& final(self).stored() == old(self).stored()
                    &&& final(self).head_id() == old(self).head_id()
                    &&& final(self).root_ids() == old(self).root_ids()
                },
                _ => {
                    &&& r == Ok::<u128, SieError>(snapshot.id)
                    &&& final(self).stored() == old(self).stored().insert(
                        snapshot.id,
                        with_parent_id(snapshot, parent_id),
                    )
                    &&& final(self).head_id() == Some(snapshot.id)
                    &&& final(self).root_ids() == if parent_id is None {
                        old(self).root_ids().push(snapshot.id)
                    } else {
                        old(self).root_ids()
                    }
                },
            },
    ;

    /// Stores `snapshot` as a new branch whose parent is `from_id`. HEAD does
    /// not move. Fails, changing nothing, when `from_id` is not stored.
    fn fork(&mut self, from_id: u128, snapshot: PolicySnapshot) -> (r: Result<u128, SieError>)
        ensures
            !old(self).stored().contains_key(from_id) ==> {
                &&& r matches Err(SieError::Policy(m)) && m@ == unknown_origin_text(from_id)
                &&& final(self).stored() == old(self).stored()
            },
            old(self).stored().contains_key(from_id) ==> {
                &&& r == Ok::<u128, SieError>(snapshot.id)
                &&& final(self).stored() == old(self).stored().insert(
                    snapshot.id,
                    with_parent(snapshot, from_id),
                )
            },
            final(self).head_id() == old(self).head_id(),
            final(self).root_ids() == old(self).root_ids(),
    ;

    /// The snapshot stored under `id`.
    fn get(&self, id: u128) -> (r: Option<&PolicySnapshot>)
        ensures
            r matches Some(s) ==> self.stored().contains_key(id) && *s == self.stored()[id],
            r is None ==> !self.stored().contains_key(id),
    ;

    /// The HEAD snapshot.
    fn head(&self) -> (r: Option<&PolicySnapshot>)
        ensures
            r matches Some(s) ==> self.head_id() matches Some(h) && self.stored().contains_key(h)
                && *s == self.stored()[h],
            r is None ==> self.head_id() is None,
    ;

    /// The `k` best-scoring snapshots across all branches, best first.
    fn best_k(&self, k: usize) -> (r: Vec<&PolicySnapshot>)
        ensures
            is_best_k(self.stored(), k as nat, r@),
    ;

    /// All stored identifiers, each once.
    fn list_ids(&self) -> (r: Vec<u128>)
        ensures
            r@.no_duplicates(),
            r@.to_set() == self.stored().dom(),
    ;

    /// The chain of parents from `id` back to a root: `id` first, then its
    /// parent, and so on, ending at a snapshot that is unknown or has no
    /// parent. Only defined where that chain ends (a cycle of parents would
    /// make it endless).
    fn ancestry(&self, id: u128) -> (r: Vec<u128>)
        requires
            ancestry_ends(self.stored(), id),
        ensures
            r@ == ancestry_chain(self.stored(), id),
    ;
}

/// Storing a snapshot whose identifier no chain passes through leaves that
/// chain as it was.
proof fn lemma_chain_unaffected(
    stored: Map<u128, PolicySnapshot>,
    s: PolicySnapshot,
    id: u128,
    fuel: nat,
)
    requires
        chain_within(stored, id, fuel) is Some,
        !chain_within(stored, id, fuel)->0.contains(s.id),
    ensures
        chain_within(stored.insert(s.id, s), id, fuel) == chain_within(stored, id, fuel),
    decreases fuel,
{
    let c = chain_within(stored, id, fuel)->0;
    assert(c[0] == id);
    assert(id != s.id);
    assert(parent_of(stored.insert(s.id, s), id) == parent_of(stored, id));
    if let Some(p) = parent_of(stored, id) {
        let rest = chain_within(stored, p, (fuel - 1) as nat)->0;
        assert(c == seq![id] + rest);
        assert forall|j: int| 0 <= j < rest.len() implies rest[j] != s.id by {
            assert(c[j + 1] == rest[j]);
        }
        lemma_chain_unaffected(stored, s, p, (fuel - 1) as nat);
    }
}

/// The ancestry of a snapshot committed (or forked) as a child of `parent`
/// is the child followed by the ancestry of `parent`, as long as the child's
/// identifier does not occur in that ancestry.
pub proof fn law_child_ancestry(stored: Map<u128, PolicySnapshot>, child: PolicySnapshot, parent: u128)
    requires
        child.parent_id == Some(parent),
        ancestry_ends(stored, parent),
        !ancestry_chain(stored, parent).contains(child.id),
    ensures
        ancestry_ends(stored.insert(child.id, child), child.id),
        ancestry_chain(stored.insert(child.id, child), child.id) == seq![child.id] + ancestry_chain(
            stored,
            parent,
        ),
{
    let fuel = choose|fuel: nat| #[trigger] chain_within(stored, parent, fuel) is Some;
    let after = stored.insert(child.id, child);
    lemma_chain_unaffected(stored, child, parent, fuel);
    assert(parent_of(after, child.id) == Some(parent));
    assert(chain_within(after, child.id, fuel + 1) == Some(
        seq![child.id] + chain_within(stored, parent, fuel)->0,
    ));
    let f2 = choose|f: nat| #[trigger] chain_within(after, child.id, f) is Some;
    lemma_chain_unique(after, child.id, fuel + 1, f2);
}

/// A commit stores the snapshot under its identifier with the given parent
/// (none for a root) and makes it the HEAD: the HEAD snapshot after a commit
/// is the committed snapshot, a child of `parent_id`.
pub proof fn law_commit_then_head(
    stored: Map<u128, PolicySnapshot>,
    snapshot: PolicySnapshot,
    parent_id: Option<u128>,
)
    ensures
        stored.insert(snapshot.id, with_parent_id(snapshot, parent_id)).contains_key(snapshot.id),
        stored.insert(snapshot.id, with_parent_id(snapshot, parent_id))[snapshot.id].parent_id
            == parent_id,
        stored.insert(snapshot.id, with_parent_id(snapshot, parent_id))[snapshot.id].id
            == snapshot.id,
        stored.insert(snapshot.id, with_parent_id(snapshot, parent_id))[snapshot.id].score
            == snapshot.score,
        stored.insert(snapshot.id, with_parent_id(snapshot, parent_id))[snapshot.id].config
            == snapshot.config,
{
}

/// A fork records the origin as the branch's parent, and otherwise stores the
/// snapshot as given.
pub proof fn law_fork_records_origin(
    stored: Map<u128, PolicySnapshot>,
    snapshot: PolicySnapshot,
    origin: u128,
)
    ensures
        stored.insert(snapshot.id, with_parent(snapshot, origin))[snapshot.id].parent_id == Some(
            origin,
        ),
        stored.insert(snapshot.id, with_parent(snapshot, origin))[snapshot.id].score == snapshot.score,
        stored.insert(snapshot.id, with_parent(snapshot, origin))[snapshot.id].id == snapshot.id,
{
}

/// The first of a best-`k` selection scores at least every stored snapshot.
pub proof fn law_best_first(stored: Map<u128, PolicySnapshot>, k: nat, best: Seq<&PolicySnapshot>, id: u128)
    requires
        is_best_k(stored, k, best),
        best.len() > 0,
        stored.contains_key(id),
    ensures
        !best[0].score.spec_lt(stored[id].score),
{
    if exists|j: int| 0 <= j < best.len() && best[j].id == id {
        let j = choose|j: int| 0 <= j < best.len() && best[j].id == id;
        if j > 0 {
            assert(!best[0].score.spec_lt(best[j].score));
        }
        assert(stored[best[j].id] == *best[j]);
        crate::float_bits::lemma_float_order(best[0].score, best[0].score, best[0].score);
    }
}

/// A chain that ends, seen from its `i`-th element, is its own suffix.
proof fn lemma_chain_suffix(stored: Map<u128, PolicySnapshot>, id: u128, fuel: nat, i: int)
    requires
        chain_within(stored, id, fuel) is Some,
        0 <= i < chain_within(stored, id, fuel)->0.len(),
    ensures
        i <= fuel,
        chain_within(stored, chain_within(stored, id, fuel)->0[i], (fuel - i) as nat) == Some(
            chain_within(stored, id, fuel)->0.subrange(i, chain_within(stored, id, fuel)->0.len() as int),
        ),
    decreases fuel,
{
    let c = chain_within(stored, id, fuel)->0;
    if i == 0 {
        assert(c.subrange(0, c.len() as int) =~= c);
    } else {
        let p = parent_of(stored, id)->0;
        let rest = chain_within(stored, p, (fuel - 1) as nat)->0;
        assert(c == seq![id] + rest);
        lemma_chain_suffix(stored, p, (fuel - 1) as nat, i - 1);
        assert(rest[i - 1] == c[i]);
        assert(rest.subrange(i - 1, rest.len() as int) =~= c.subrange(i, c.len() as int));
    }
}

/// The steps of a chain that ends.
proof fn lemma_chain_steps(stored: Map<u128, PolicySnapshot>, id: u128, fuel: nat)
    requires
        chain_within(stored, id, fuel) is Some,
    ensures
        chain_within(stored, id, fuel)->0.len() >= 1,
        chain_within(stored, id, fuel)->0[0] == id,
        forall|i: int|
            0 <= i < chain_within(stored, id, fuel)->0.len() - 1 ==> parent_of(
                stored,
                #[trigger] chain_within(stored, id, fuel)->0[i],
            ) == Some(chain_within(stored, id, fuel)->0[i + 1]),
        parent_of(stored, chain_within(stored, id, fuel)->0.last()) is None,
    decreases fuel,
{
    let c = chain_within(stored, id, fuel)->0;
    if let Some(p) = parent_of(stored, id) {
        let rest = chain_within(stored, p, (fuel - 1) as nat)->0;
        lemma_chain_steps(stored, p, (fuel - 1) as nat);
        assert(c == seq![id] + rest);
        assert forall|i: int| 0 <= i < c.len() - 1 implies parent_of(stored, #[trigger] c[i]) == Some(
            c[i + 1],
        ) by {
            if i > 0 {
                assert(c[i] == rest[i - 1]);
                assert(c[i + 1] == rest[i]);
            }
        }
        assert(c.last() == rest.last());
    }
}

/// The ancestry of a snapshot, where it ends: it starts at `id`, each next
/// element is the parent of the one before, the last one has no parent (or
/// is not stored), and no snapshot occurs twice.
pub proof fn law_ancestry_steps(stored: Map<u128, PolicySnapshot>, id: u128)
    requires
        ancestry_ends(stored, id),
    ensures
        ancestry_chain(stored, id).len() >= 1,
        ancestry_chain(stored, id)[0] == id,
        forall|i: int|
            0 <= i < ancestry_chain(stored, id).len() - 1 ==> parent_of(
                stored,
                #[trigger] ancestry_chain(stored, id)[i],
            ) == Some(ancestry_chain(stored, id)[i + 1]),
        parent_of(stored, ancestry_chain(stored, id).last()) is None,
        ancestry_chain(stored, id).no_duplicates(),
{
    let fuel = choose|fuel: nat| #[trigger] chain_within(stored, id, fuel) is Some;
    let c = chain_within(stored, id, fuel)->0;
    lemma_chain_steps(stored, id, fuel);
    assert forall|i: int, j: int| 0 <= i < c.len() && 0 <= j < c.len() && i != j implies c[i]
        != c[j] by {
        if c[i] == c[j] {
            lemma_chain_suffix(stored, id, fuel, i);
            lemma_chain_suffix(stored, id, fuel, j);
            lemma_chain_unique(stored, c[i], (fuel - i) as nat, (fuel - j) as nat);
            assert(c.subrange(i, c.len() as int).len() != c.subrange(j, c.len() as int).len());
        }
    }
}

/// Storing a snapshot under a new identifier adds one snapshot; under a
/// stored one it keeps the number (the archive is finite: see
/// `PolicyArchive::lemma_finite`).
pub proof fn law_length_after_store(stored: Map<u128, PolicySnapshot>, s: PolicySnapshot)
    requires
        stored.dom().finite(),
    ensures
        stored.insert(s.id, s).len() == if stored.contains_key(s.id) {
            stored.len()
        } else {
            stored.len() + 1
        },
{
    if stored.contains_key(s.id) {
        assert(stored.insert(s.id, s).dom() =~= stored.dom());
    }
}

} // verus!
