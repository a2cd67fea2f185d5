//! The state of the self-model: per capability, the Beta(alpha, beta)
//! distribution of confidence and the number of observations, with
//! snapshots for persistence and restore.
//!
//! The distributions' parameters are binary64 values held by their bit
//! pattern; updating them (success, failure, decay) is arithmetic that the
//! calibration code does outside this module, reading and writing whole
//! `CapabilityState`s.
use crate::error::SieError;
use crate::float_bits::FloatBits;
use crate::table::StrMap;
use crate::types::{CapabilityId, Timestamp};
use vstd::prelude::*;

verus! {

/// The Beta(alpha, beta) distribution of one capability and its number of
/// observations.
#[derive(Clone, Copy, Debug, PartialEq, Eq, Structural)]
pub struct CapabilityState {
    pub alpha: FloatBits,
    pub beta: FloatBits,
    pub observation_count: u64,
}

/// The snapshot of one capability's distribution.
#[derive(Debug, Clone)]
pub struct CapabilitySnapshot {
    pub capability: CapabilityId,
    pub alpha: FloatBits,
    pub beta: FloatBits,
    pub observation_count: u64,
}

/// A snapshot of the whole self-model, for persistence and restore.
#[derive(Debug, Clone)]
pub struct ModelSnapshot {
    /// The capabilities' snapshots, by capability.
    pub capabilities: StrMap<CapabilitySnapshot>,
    /// When the snapshot was taken.
    pub timestamp: Timestamp,
}

/// The state a capability snapshot records.
pub open spec fn state_of(c: CapabilitySnapshot) -> CapabilityState {
    CapabilityState { alpha: c.alpha, beta: c.beta, observation_count: c.observation_count }
}

/// The states a snapshot's capabilities record, by capability.
pub open spec fn restored(snap: Map<Seq<char>, CapabilitySnapshot>) -> Map<Seq<char>, CapabilityState> {
    snap.map_values(|c: CapabilitySnapshot| state_of(c))
}

/// `snap` records `state`: the same capabilities, each entry naming its own
/// capability and holding its state.
pub open spec fn records(snap: Map<Seq<char>, CapabilitySnapshot>, state: Map<Seq<char>, CapabilityState>) -> bool {
    &&& snap.dom() == state.dom()
    &&& forall|k: Seq<char>|
        #[trigger] snap.contains_key(k) ==> snap[k].capability.0@ == k && state_of(snap[k]) == state[k]
}

/// The names of a sequence of capabilities.
pub open spec fn ids(caps: Seq<CapabilityId>) -> Seq<Seq<char>> {
    caps.map_values(|c: CapabilityId| c.0@)
}

/// The self-model's state: one distribution per tracked capability.
#[derive(Debug, Clone)]
pub struct RegistryState {
    capabilities: StrMap<CapabilityState>,
}

impl View for RegistryState {
    type V = Map<Seq<char>, CapabilityState>;

    closed spec fn view(&self) -> Map<Seq<char>, CapabilityState> {
        self.capabilities@
    }
}

impl RegistryState {
    /// The state tracks finitely many capabilities.
    pub proof fn lemma_finite(&self)
        ensures
            self@.dom().finite(),
    {
        self.capabilities.lemma_finite();
    }

    /// No capability tracked.
    pub fn new() -> (r: RegistryState)
        ensures
            r@ == Map::<Seq<char>, CapabilityState>::empty(),
    {
        RegistryState { capabilities: StrMap::new() }
    }

    /// Number of tracked capabilities.
    pub fn len(&self) -> (r: usize)
        ensures
            r == self@.len(),
    {
        self.capabilities.len()
    }

    /// The state of `capability`, if tracked.
    pub fn get(&self, capability: &str) -> (r: Option<CapabilityState>)
        ensures
            r matches Some(c) ==> self@.contains_key(capability@) && c == self@[capability@],
            r is None ==> !self@.contains_key(capability@),
    {
        match self.capabilities.get(capability) {
            Some(c) => Some(*c),
            None => None,
        }
    }

    /// Sets the state of `capability` (tracking it if it was not).
    pub fn set(&mut self, capability: &str, state: CapabilityState)
        ensures
            final(self)@ == old(self)@.insert(capability@, state),
    {
        self.capabilities.insert(String::from_str(capability), state);
    }

    /// The tracked capabilities, each once.
    pub fn capabilities(&self) -> (r: Vec<CapabilityId>)
        ensures
            ids(r@).no_duplicates(),
            ids(r@).to_set() == self@.dom(),
    {
        proof {
            use_type_invariant(&self.capabilities);
            self.capabilities.lemma_storage();
        }
        let ghost ks = self.capabilities.key_seq();
        let n = self.capabilities.len();
        let mut out: Vec<CapabilityId> = Vec::new();
        let mut i: usize = 0;
        while i < n
            invariant
                n == ks.len(),
                ks == self.capabilities.key_seq(),
                i <= n,
                ids(out@) == ks.take(i as int),
            decreases n - i,
        {
            let key = self.capabilities.key_at(i);
            let ghost prev = out@;
            assert(ids(prev).len() == prev.len());
            assert(prev.len() == i);
            let id = CapabilityId(key.clone());
            out.push(id);
            proof {
                assert(out@ == prev.push(id));
                assert(id.0@ == ks[i as int]);
                assert forall|j: int| 0 <= j < i + 1 implies #[trigger] ids(out@)[j] == ks.take(
                    i + 1,
                )[j] by {
                    if j < i {
                        assert(out@[j] == prev[j]);
                        assert(ids(prev)[j] == ks.take(i as int)[j]);
                    }
                }
                assert(ids(out@) =~= ks.take(i + 1));
            }
            i = i + 1;
        }
        assert(ks.take(n as int) =~= ks);
        out
    }

    /// A snapshot of the state, stamped `taken_at`.
    pub fn snapshot(&self, taken_at: Timestamp) -> (r: ModelSnapshot)
        ensures
            r.timestamp == taken_at,
            records(r.capabilities@, self@),
            restored(r.capabilities@) == self@,
            r.capabilities@.dom() == self@.dom(),
            forall|k: Seq<char>|
                #[trigger] r.capabilities@.contains_key(k) ==> r.capabilities@[k].alpha == self@[k].alpha
                    && r.capabilities@[k].beta == self@[k].beta
                    && r.capabilities@[k].observation_count == self@[k].observation_count,
    {
        proof {
            use_type_invariant(&self.capabilities);
            self.capabilities.lemma_storage();
        }
        let ghost m = self@;
        let ghost ks = self.capabilities.key_seq();
        let n = self.capabilities.len();
        let mut out: StrMap<CapabilitySnapshot> = StrMap::new();
        let mut i: usize = 0;
        while i < n
            invariant
                n == ks.len(),
                ks == self.capabilities.key_seq(),
                m == self@,
                ks.no_duplicates(),
                forall|j: int| 0 <= j < ks.len() ==> #[trigger] m[ks[j]] == self.capabilities.value_seq()[j],
                i <= n,
                out@.dom() == ks.take(i as int).to_set(),
                forall|k: Seq<char>|
                    #[trigger] out@.contains_key(k) ==> out@[k].capability.0@ == k && state_of(out@[k])
                        == m[k],
            decreases n - i,
        {
            let key = self.capabilities.key_at(i);
            let c = *self.capabilities.value_at(i);
            let ghost kk = ks[i as int];
            let entry = CapabilitySnapshot {
                capability: CapabilityId(key.clone()),
                alpha: c.alpha,
                beta: c.beta,
                observation_count: c.observation_count,
            };
            out.insert(key.clone(), entry);
            proof {
                assert(ks.take(i + 1) =~= ks.take(i as int).push(kk));
                ks.take(i as int).lemma_push_to_set_commute(kk);
                assert(m[kk] == c);
            }
            i = i + 1;
        }
        proof {
            assert(ks.take(n as int) =~= ks);
            assert(out@.dom() =~= m.dom());
            assert(restored(out@) =~= m);
        }
        ModelSnapshot { capabilities: out, timestamp: taken_at }
    }

    /// Replaces the state by the one `snapshot` records (each capability
    /// under the key it is stored by in the snapshot).
    pub fn restore(&mut self, snapshot: &ModelSnapshot) -> (r: Result<(), SieError>)
        ensures
            r is Ok,
            final(self)@ == restored(snapshot.capabilities@),
            final(self)@.dom() == snapshot.capabilities@.dom(),
            forall|k: Seq<char>|
                #[trigger] final(self)@.contains_key(k) ==> final(self)@[k].alpha
                    == snapshot.capabilities@[k].alpha && final(self)@[k].beta
                    == snapshot.capabilities@[k].beta && final(self)@[k].observation_count
                    == snapshot.capabilities@[k].observation_count,
    {
        let snap = &snapshot.capabilities;
        proof {
            use_type_invariant(snap);
            snap.lemma_storage();
        }
        let ghost s = snap@;
        let ghost ks = snap.key_seq();
        let n = snap.len();
        let mut states: StrMap<CapabilityState> = StrMap::new();
        let mut i: usize = 0;
        while i < n
            invariant
                n == ks.len(),
                ks == snap.key_seq(),
                s == snap@,
                ks.no_duplicates(),
                forall|j: int| 0 <= j < ks.len() ==> #[trigger] s[ks[j]] == snap.value_seq()[j],
                i <= n,
                states@.dom() == ks.take(i as int).to_set(),
                forall|k: Seq<char>| #[trigger] states@.contains_key(k) ==> states@[k] == state_of(s[k]),
            decreases n - i,
        {
            let key = snap.key_at(i);
            let c = snap.value_at(i);
            let ghost kk = ks[i as int];
            let state = CapabilityState {
                alpha: c.alpha,
                beta: c.beta,
                observation_count: c.observation_count,
            };
            states.insert(key.clone(), state);
            proof {
                assert(ks.take(i + 1) =~= ks.take(i as int).push(kk));
                ks.take(i as int).lemma_push_to_set_commute(kk);
                assert(s[kk] == *c);
            }
            i = i + 1;
        }
        proof {
            assert(ks.take(n as int) =~= ks);
            assert(states@ =~= restored(s));
        }
        self.capabilities = states;
        Ok(())
    }
}

/// Restoring a snapshot gives back the state it records: a snapshot of a
/// state, restored, is that state.
pub proof fn law_snapshot_round_trip(
    state: Map<Seq<char>, CapabilityState>,
    snap: Map<Seq<char>, CapabilitySnapshot>,
)
    requires
        records(snap, state),
    ensures
        restored(snap) == state,
        records(snap, restored(snap)),
{
    assert(restored(snap) =~= state);
}

/// A snapshot copies each capability's parameters unchanged, and restoring
/// copies them back unchanged: the alpha, beta and observation count that a
/// snapshot records for a capability are the state's, and those a restored
/// state holds are the snapshot's.
pub proof fn law_snapshot_copies_parameters(
    state: Map<Seq<char>, CapabilityState>,
    snap: Map<Seq<char>, CapabilitySnapshot>,
    k: Seq<char>,
)
    ensures
        records(snap, state) && snap.contains_key(k) ==> snap[k].alpha == state[k].alpha
            && snap[k].beta == state[k].beta && snap[k].observation_count
            == state[k].observation_count && snap[k].capability.0@ == k,
        snap.contains_key(k) ==> restored(snap).contains_key(k) && restored(snap)[k].alpha
            == snap[k].alpha && restored(snap)[k].beta == snap[k].beta
            && restored(snap)[k].observation_count == snap[k].observation_count,
        restored(snap).dom() == snap.dom(),
{
    assert(restored(snap).dom() =~= snap.dom());
}

} // verus!
