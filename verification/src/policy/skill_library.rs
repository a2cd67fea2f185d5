//! Two-tier skill library: task-skills (domain-specific) and meta-skills
//! (domain-general).
use crate::float_bits::FloatBits;
use crate::json::JsonValue;
use crate::ranking::{is_top_selection, top_indices};
use crate::table::StrMap;
use crate::types::{SkillTier, Timestamp};
use vstd::prelude::*;

verus! {

/// A learned skill.
#[derive(Debug, Clone)]
pub struct Skill {
    /// Unique name of the skill.
    pub name: String,
    /// The tier the skill belongs to.
    pub tier: SkillTier,
    /// Human-readable description.
    pub description: String,
    /// When the skill was learned or last updated.
    pub updated_at: Timestamp,
    /// Quality score from evaluation (higher is better), as a binary64 bit pattern.
    pub score: FloatBits,
    /// Serialized strategy or template data.
    pub data: JsonValue,
}

/// The test "names a skill of `tier`".
pub open spec fn of_tier(lib: Map<Seq<char>, Skill>, tier: SkillTier) -> spec_fn(Seq<char>) -> bool {
    |k: Seq<char>| lib[k].tier == tier
}

/// The names of the skills of `tier`.
pub open spec fn tier_names(lib: Map<Seq<char>, Skill>, tier: SkillTier) -> Set<Seq<char>> {
    lib.dom().filter(of_tier(lib, tier))
}

/// `r` lists each skill of `tier` exactly once.
pub open spec fn lists_tier(lib: Map<Seq<char>, Skill>, tier: SkillTier, r: Seq<&Skill>) -> bool {
    &&& r.len() == tier_names(lib, tier).len()
    &&& forall|i: int|
        #![trigger r[i]]
        0 <= i < r.len() ==> lib.contains_key(r[i].name@) && lib[r[i].name@] == *r[i] && r[i].tier
            == tier
    &&& forall|i: int, j: int| 0 <= i < j < r.len() ==> r[i].name@ != r[j].name@
    &&& forall|k: Seq<char>|
        #[trigger] lib.contains_key(k) && lib[k].tier == tier ==> exists|i: int|
            0 <= i < r.len() && r[i].name@ == k
}

/// `r` holds `min(k, n)` distinct skills of `tier`, best score first, none
/// scoring below a skill of `tier` left out.
pub open spec fn is_top_of_tier(
    lib: Map<Seq<char>, Skill>,
    tier: SkillTier,
    k: nat,
    r: Seq<&Skill>,
) -> bool {
    &&& r.len() == if k < tier_names(lib, tier).len() {
        k
    } else {
        tier_names(lib, tier).len()
    }
    &&& forall|i: int|
        #![trigger r[i]]
        0 <= i < r.len() ==> lib.contains_key(r[i].name@) && lib[r[i].name@] == *r[i] && r[i].tier
            == tier
    &&& forall|i: int, j: int| 0 <= i < j < r.len() ==> r[i].name@ != r[j].name@
    &&& forall|i: int, j: int|
        0 <= i < j < r.len() ==> !(#[trigger] r[i].score).spec_lt(#[trigger] r[j].score)
    &&& forall|i: int, name: Seq<char>|
        0 <= i < r.len() && lib.contains_key(name) && lib[name].tier == tier && (forall|j: int|
            0 <= j < r.len() ==> r[j].name@ != name) ==> !(#[trigger] r[i].score).spec_lt(
            #[trigger] lib[name].score,
        )
}

/// Two-tier skill library keyed by skill name.
pub struct SkillLibrary {
    skills: StrMap<Skill>,
}

impl View for SkillLibrary {
    type V = Map<Seq<char>, Skill>;

    closed spec fn view(&self) -> Map<Seq<char>, Skill> {
        self.skills@
    }
}

impl Default for SkillLibrary {
    fn default() -> (r: Self)
        ensures
            r@ == Map::<Seq<char>, Skill>::empty(),
    {
        Self::new()
    }
}

impl SkillLibrary {
    /// Every skill is stored under its own name.
    #[verifier::type_invariant]
    pub closed spec fn wf(&self) -> bool {
        forall|k: Seq<char>| #[trigger] self.skills@.contains_key(k) ==> self.skills@[k].name@ == k
    }

    /// The library holds finitely many skills.
    pub proof fn lemma_finite(&self)
        ensures
            self@.dom().finite(),
    {
        self.skills.lemma_finite();
    }

    /// An empty library.
    pub fn new() -> (r: SkillLibrary)
        ensures
            r@ == Map::<Seq<char>, Skill>::empty(),
    {
        SkillLibrary { skills: StrMap::new() }
    }

    /// Adds a skill, replacing any skill of the same name.
    pub fn add_skill(&mut self, skill: Skill)
        ensures
            final(self)@ == old(self)@.insert(skill.name@, skill),
    {
        proof {
            use_type_invariant(&*self);
        }
        let mut skills = StrMap::new();
        std::mem::swap(&mut skills, &mut self.skills);
        let name = skill.name.clone();
        skills.insert(name, skill);
        self.skills = skills;
    }

    /// Removes the skill called `name`; returns it, if there was one.
    pub fn remove_skill(&mut self, name: &str) -> (r: Option<Skill>)
        ensures
            final(self)@ == old(self)@.remove(name@),
            old(self)@.contains_key(name@) ==> r == Some(old(self)@[name@]),
            !old(self)@.contains_key(name@) ==> r is None,
    {
        proof {
            use_type_invariant(&*self);
        }
        let mut skills = StrMap::new();
        std::mem::swap(&mut skills, &mut self.skills);
        let r = skills.remove(name);
        self.skills = skills;
        r
    }

    /// The skill called `name`.
    pub fn get(&self, name: &str) -> (r: Option<&Skill>)
        ensures
            r matches Some(s) ==> self@.contains_key(name@) && *s == self@[name@],
            r is None ==> !self@.contains_key(name@),
    {
        self.skills.get(name)
    }

    /// All skills of `tier`.
    pub fn by_tier(&self, tier: SkillTier) -> (r: Vec<&Skill>)
        ensures
            lists_tier(self@, tier, r@),
    {
        proof {
            use_type_invariant(self);
            use_type_invariant(&self.skills);
            self.skills.lemma_storage();
        }
        let ghost lib = self.skills@;
        let ghost ks = self.skills.key_seq();
        let ghost vs = self.skills.value_seq();
        let n = self.skills.len();
        let mut r: Vec<&Skill> = Vec::new();
        let ghost mut pos: Seq<int> = Seq::empty();
        let mut i: usize = 0;
        while i < n
            invariant
                lib == self.skills@,
                ks == self.skills.key_seq(),
                vs == self.skills.value_seq(),
                n == ks.len(),
                n == vs.len(),
                ks.no_duplicates(),
                forall|j: int| 0 <= j < n ==> #[trigger] lib[ks[j]] == vs[j],
                forall|j: int| 0 <= j < n ==> lib.contains_key(#[trigger] ks[j]),
                forall|k: Seq<char>| #[trigger] lib.contains_key(k) ==> lib[k].name@ == k,
                i <= n,
                r@.len() == pos.len(),
                forall|t: int| 0 <= t < pos.len() ==> 0 <= #[trigger] pos[t] < i,
                forall|t: int, u: int| 0 <= t < u < pos.len() ==> pos[t] < pos[u],
                forall|t: int| 0 <= t < pos.len() ==> *r@[t] == vs[#[trigger] pos[t]] && vs[pos[t]].tier == tier,
                forall|j: int| 0 <= j < i && vs[j].tier == tier ==> #[trigger] pos.contains(j),
            decreases n - i,
        {
            let s = self.skills.value_at(i);
            let ghost old_pos = pos;
            if s.tier == tier {
                r.push(s);
                proof {
                    pos = pos.push(i as int);
                }
            }
            proof {
                assert forall|j: int| 0 <= j < i + 1 && vs[j].tier == tier implies #[trigger] pos.contains(j) by {
                    if j == i {
                        assert(pos[pos.len() - 1] == j);
                    } else {
                        assert(old_pos.contains(j));
                        let t = choose|t: int| 0 <= t < old_pos.len() && old_pos[t] == j;
                        assert(pos[t] == j);
                    }
                }
            }
            i = i + 1;
        }
        proof {
            assert forall|j: int| 0 <= j < n implies #[trigger] vs[j].name@ == ks[j] by {
                assert(lib.contains_key(ks[j]));
            }
            let names = Seq::new(r@.len(), |t: int| r@[t].name@);
            assert forall|t: int, u: int| 0 <= t < u < r@.len() implies r@[t].name@ != r@[u].name@ by {
                assert(vs[pos[t]].name@ == ks[pos[t]]);
                assert(vs[pos[u]].name@ == ks[pos[u]]);
            }
            assert(names.no_duplicates());
            assert(names.to_set() =~= tier_names(lib, tier)) by {
                assert forall|k: Seq<char>| #[trigger] names.to_set().contains(k) implies tier_names(
                    lib,
                    tier,
                ).contains(k) by {
                    let t = choose|t: int| 0 <= t < names.len() && names[t] == k;
                    assert(vs[pos[t]].name@ == ks[pos[t]]);
                }
                assert forall|k: Seq<char>| #[trigger] tier_names(lib, tier).contains(k) implies names.to_set().contains(
                    k,
                ) by {
                    let j = choose|j: int| 0 <= j < ks.len() && #[trigger] ks[j] == k;
                    assert(pos.contains(j));
                    let t = choose|t: int| 0 <= t < pos.len() && pos[t] == j;
                    assert(names[t] == k);
                }
            }
            names.unique_seq_to_set();
            assert forall|i: int| #![trigger r@[i]] 0 <= i < r@.len() implies lib.contains_key(r@[i].name@)
                && lib[r@[i].name@] == *r@[i] && r@[i].tier == tier by {
                assert(vs[pos[i]].name@ == ks[pos[i]]);
            }
            assert forall|k: Seq<char>| #[trigger] lib.contains_key(k) && lib[k].tier == tier implies exists|i: int|
                0 <= i < r@.len() && r@[i].name@ == k by {
                assert(tier_names(lib, tier).contains(k));
                assert(names.to_set().contains(k));
                let t = choose|t: int| 0 <= t < names.len() && names[t] == k;
                assert(r@[t].name@ == k);
            }
            assert(self@ == lib);

        }
        r
    }

    /// The `k` best-scoring skills of `tier`, best first.
    pub fn top_k(&self, tier: SkillTier, k: usize) -> (r: Vec<&Skill>)
        ensures
            is_top_of_tier(self@, tier, k as nat, r@),
    {
        let members = self.by_tier(tier);
        let n = members.len();
        let mut scores: Vec<FloatBits> = Vec::new();
        let mut i: usize = 0;
        while i < n
            invariant
                n == members@.len(),
                i <= n,
                scores@.len() == i,
                forall|j: int| 0 <= j < i ==> scores@[j] == #[trigger] members@[j].score,
            decreases n - i,
        {
            scores.push(members[i].score);
            i = i + 1;
        }
        let idx = top_indices(&scores, k);
        let mut best: Vec<&Skill> = Vec::new();
        let mut t: usize = 0;
        while t < idx.len()
            invariant
                n == members@.len(),
                scores@.len() == n,
                is_top_selection(scores@, k as nat, idx@),
                t <= idx@.len(),
                best@.len() == t,
                forall|j: int| 0 <= j < t ==> best@[j] == members@[#[trigger] idx@[j] as int],
            decreases idx@.len() - t,
        {
            best.push(members[idx[t]]);
            t = t + 1;
        }
        proof {
            let lib = self@;
            assert forall|i: int|
                #![trigger best@[i]]
                0 <= i < best@.len() implies lib.contains_key(best@[i].name@)
                && lib[best@[i].name@] == *best@[i] && best@[i].tier == tier by {
                let p = idx@[i] as int;
                assert(lib.contains_key(members@[p].name@));
            }
            assert forall|i: int, j: int| 0 <= i < j < best@.len() implies best@[i].name@ != best@[j].name@ by {
                let p = idx@[i] as int;
                let q = idx@[j] as int;
                if p < q {
                    assert(members@[p].name@ != members@[q].name@);
                } else {
                    assert(members@[q].name@ != members@[p].name@);
                }
            }
            assert forall|i: int, j: int|
                0 <= i < j < best@.len() implies !(#[trigger] best@[i].score).spec_lt(
                #[trigger] best@[j].score,
            ) by {
                assert(scores@[idx@[i] as int] == members@[idx@[i] as int].score);
                assert(scores@[idx@[j] as int] == members@[idx@[j] as int].score);
            }
            assert forall|i: int, name: Seq<char>|
                0 <= i < best@.len() && lib.contains_key(name) && lib[name].tier == tier && (forall|
                    j: int,
                | 0 <= j < best@.len() ==> best@[j].name@ != name) implies !(
            #[trigger] best@[i].score).spec_lt(#[trigger] lib[name].score) by {
                let q = choose|q: int| 0 <= q < members@.len() && members@[q].name@ == name;
                if idx@.contains(q as usize) {
                    let j = choose|j: int| 0 <= j < idx@.len() && idx@[j] == q as usize;
                    assert(best@[j].name@ == name);
                }
                assert(scores@[q] == members@[q].score);
                assert(lib[members@[q].name@] == *members@[q]);
                assert(scores@[idx@[i] as int] == members@[idx@[i] as int].score);
            }
        }
        best
    }

    /// Total number of skills.
    pub fn len(&self) -> (r: usize)
        ensures
            r == self@.len(),
    {
        self.skills.len()
    }

    /// Whether the library holds no skill.
    pub fn is_empty(&self) -> (r: bool)
        ensures
            r == (self@.len() == 0),
    {
        self.skills.len() == 0
    }
}

} // verus!
