use vstd::prelude::*;

use crate::components::LevelIid;

verus! {

/// Component that determines the desired levels to be loaded for an LDtk world.
///
/// The set holds each level iid once.
#[derive(Debug)]
pub struct LevelSet {
    iids: Vec<LevelIid>,
}

impl View for LevelSet {
    type V = Set<Seq<char>>;

    closed spec fn view(&self) -> Set<Seq<char>> {
        self.iids@.map_values(|iid: LevelIid| iid@).to_set()
    }
}

impl LevelSet {
    #[verifier::type_invariant]
    spec fn no_duplicates(self) -> bool {
        forall|i: int, j: int|
            0 <= i < j < self.iids@.len() ==> (#[trigger] self.iids@[i])@ != (#[trigger] self.iids@[
                j])@
    }

    /// An empty set of levels.
    pub fn new() -> (level_set: LevelSet)
        ensures
            level_set@ == Set::<Seq<char>>::empty(),
    {
        let level_set = LevelSet { iids: Vec::new() };
        assert(level_set@ =~= Set::<Seq<char>>::empty());
        level_set
    }

    /// Whether the set holds the level iid `iid`.
    pub fn contains(&self, iid: &LevelIid) -> (found: bool)
        ensures
            found == self@.contains(iid@),
    {
        let mut i: usize = 0;
        while i < self.iids.len()
            invariant
                i <= self.iids@.len(),
                forall|k: int| 0 <= k < i ==> (#[trigger] self.iids@[k])@ != iid@,
            decreases self.iids@.len() - i,
        {
            if *self.iids[i].get() == *iid.get() {
                assert(self.iids@.map_values(|v: LevelIid| v@)[i as int] == iid@);
                return true;
            }
            i = i + 1;
        }
        assert(!self@.contains(iid@)) by {
            let views = self.iids@.map_values(|v: LevelIid| v@);
            if self@.contains(iid@) {
                assert(views.contains(iid@));
                let k = choose|k: int| 0 <= k < views.len() && #[trigger] views[k] == iid@;
                assert(self.iids@[k]@ != iid@);
            }
        }
        false
    }

    /// Add the level iid `iid`; returns whether it was new to the set.
    pub fn insert(&mut self, iid: LevelIid) -> (added: bool)
        ensures
            added == !old(self)@.contains(iid@),
            final(self)@ == old(self)@.insert(iid@),
    {
        proof {
            use_type_invariant(&*self);
        }
        if self.contains(&iid) {
            assert(self@.insert(iid@) =~= self@);
            return false;
        }
        let ghost before = self.iids@;
        let ghost key = iid@;
        let mut iids: Vec<LevelIid> = Vec::new();
        std::mem::swap(&mut iids, &mut self.iids);
        iids.push(iid);
        proof {
            let views = before.map_values(|v: LevelIid| v@);
            assert(iids@.map_values(|v: LevelIid| v@) =~= views.push(key));
            views.lemma_push_to_set_commute(key);
            assert forall|i: int, j: int|
                0 <= i < j < iids@.len() implies (#[trigger] iids@[i])@ != (#[trigger] iids@[j])@ by {
                if j == before.len() {
                    assert(iids@[i] == before[i]);
                    assert(views[i] == before[i]@);
                } else {
                    assert(iids@[i] == before[i] && iids@[j] == before[j]);
                }
            }
        }
        self.iids = iids;
        true
    }

    /// A set of the given level iids.
    pub fn from_iids(iids: Vec<String>) -> (level_set: LevelSet)
        ensures
            level_set@ == iids@.map_values(|iid: String| iid@).to_set(),
    {
        let mut level_set = LevelSet::new();
        let ghost all = iids@;
        proof {
            assert(all.take(0).map_values(|iid: String| iid@).to_set() =~= Set::empty());
        }
        for iid in it: iids
            invariant
                it.seq() == all,
                level_set@ == all.take(it.index() as int).map_values(|s: String| s@).to_set(),
        {
            let ghost n = it.index() as int;
            let ghost key = iid@;
            level_set.insert(LevelIid::new(iid));
            proof {
                assert(all.take(n + 1).map_values(|s: String| s@) =~= all.take(n).map_values(
                    |s: String| s@,
                ).push(key));
                all.take(n).map_values(|s: String| s@).lemma_push_to_set_commute(key);
            }
        }
        assert(all.take(all.len() as int) =~= all);
        level_set
    }

    /// A set of the given level iids.
    pub fn from_iter(iids: Vec<LevelIid>) -> (level_set: LevelSet)
        ensures
            level_set@ == iids@.map_values(|iid: LevelIid| iid@).to_set(),
    {
        let mut level_set = LevelSet::new();
        let ghost all = iids@;
        proof {
            assert(all.take(0).map_values(|iid: LevelIid| iid@).to_set() =~= Set::empty());
        }
        for iid in it: iids
            invariant
                it.seq() == all,
                level_set@ == all.take(it.index() as int).map_values(|v: LevelIid| v@).to_set(),
        {
            let ghost n = it.index() as int;
            let ghost key = iid@;
            level_set.insert(iid);
            proof {
                assert(all.take(n + 1).map_values(|v: LevelIid| v@) =~= all.take(n).map_values(
                    |v: LevelIid| v@,
                ).push(key));
                all.take(n).map_values(|v: LevelIid| v@).lemma_push_to_set_commute(key);
            }
        }
        assert(all.take(all.len() as int) =~= all);
        level_set
    }

    /// The level iids of the set, each once.
    pub fn into_iter(self) -> (iids: Vec<LevelIid>)
        ensures
            iids@.map_values(|iid: LevelIid| iid@).to_set() == self@,
            iids@.map_values(|iid: LevelIid| iid@).no_duplicates(),
    {
        proof {
            use_type_invariant(&self);
        }
        let ghost ids = self.iids@;
        let iids = self.iids;
        proof {
            let views = ids.map_values(|iid: LevelIid| iid@);
            assert forall|i: int, j: int| 0 <= i < views.len() && 0 <= j < views.len() && i != j implies views[i] != views[j] by {
                if i < j {
                    assert(ids[i]@ != ids[j]@);
                } else {
                    assert(ids[j]@ != ids[i]@);
                }
            }
        }
        iids
    }
}

/// The level iids that `iids` hold, as a set.
pub open spec fn iid_set(iids: Seq<LevelIid>) -> Set<Seq<char>> {
    iids.map_values(|iid: LevelIid| iid@).to_set()
}

/// A list that holds no level iid twice has as many iids as its set.
proof fn lemma_iid_set_len(iids: Seq<LevelIid>)
    requires
        forall|i: int, j: int| 0 <= i < j < iids.len() ==> (#[trigger] iids[i])@ != (#[trigger] iids[j])@,
    ensures
        iid_set(iids).finite(),
        iid_set(iids).len() == iids.len(),
{
    let views = iids.map_values(|iid: LevelIid| iid@);
    assert forall|i: int, j: int|
        0 <= i < views.len() && 0 <= j < views.len() && i != j implies views[i] != views[j] by {
        if i < j {
            assert(iids[i]@ != iids[j]@);
        } else {
            assert(iids[j]@ != iids[i]@);
        }
    }
    views.unique_seq_to_set();
    vstd::seq_lib::seq_to_set_is_finite(views);
}

impl Clone for LevelSet {
    fn clone(&self) -> (copy: Self)
        ensures
            copy@ == self@,
    {
        let mut copy = LevelSet::new();
        let mut i: usize = 0;
        proof {
            assert(iid_set(self.iids@.take(0)) =~= Set::empty());
        }
        while i < self.iids.len()
            invariant
                i <= self.iids@.len(),
                copy@ == iid_set(self.iids@.take(i as int)),
            decreases self.iids@.len() - i,
        {
            let iid = LevelIid::new(self.iids[i].get().clone());
            let ghost key = iid@;
            copy.insert(iid);
            proof {
                assert(self.iids@.take(i + 1).map_values(|v: LevelIid| v@) =~= self.iids@.take(
                    i as int,
                ).map_values(|v: LevelIid| v@).push(key));
                self.iids@.take(i as int).map_values(|v: LevelIid| v@).lemma_push_to_set_commute(
                    key,
                );
            }
            i = i + 1;
        }
        assert(self.iids@.take(i as int) =~= self.iids@);
        copy
    }
}

impl PartialEq for LevelSet {
    fn eq(&self, other: &Self) -> (equal: bool) {
        proof {
            use_type_invariant(self);
            use_type_invariant(other);
            lemma_iid_set_len(self.iids@);
            lemma_iid_set_len(other.iids@);
        }
        if self.iids.len() != other.iids.len() {
            return false;
        }
        let mut i: usize = 0;
        while i < self.iids.len()
            invariant
                i <= self.iids@.len(),
                forall|k: int| 0 <= k < i ==> other@.contains((#[trigger] self.iids@[k])@),
            decreases self.iids@.len() - i,
        {
            if !other.contains(&self.iids[i]) {
                assert(self.iids@.map_values(|v: LevelIid| v@)[i as int] == self.iids@[i as int]@);
                assert(self@.contains(self.iids@[i as int]@));
                return false;
            }
            i = i + 1;
        }
        proof {
            let views = self.iids@.map_values(|v: LevelIid| v@);
            assert forall|x: Seq<char>| self@.contains(x) implies other@.contains(x) by {
                assert(views.contains(x));
                let k = choose|k: int| 0 <= k < views.len() && #[trigger] views[k] == x;
                assert(self.iids@[k]@ == x);
            }
            vstd::set_lib::lemma_subset_equality(self@, other@);
        }
        true
    }
}

impl vstd::std_specs::cmp::PartialEqSpecImpl for LevelSet {
    open spec fn obeys_eq_spec() -> bool {
        true
    }

    open spec fn eq_spec(&self, other: &LevelSet) -> bool {
        self@ == other@
    }
}

impl Default for LevelSet {
    fn default() -> (level_set: LevelSet)
        ensures
            level_set@ == Set::<Seq<char>>::empty(),
    {
        LevelSet::new()
    }
}

} // verus!
