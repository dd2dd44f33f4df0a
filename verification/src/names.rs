//! Identity of top-level definitions: interned, value-compared names
//! (`Name`), opaque per-definition handles (`DefId`), and the bijective
//! table (`DefNames`) relating them.

use vstd::prelude::*;

verus! {

/// An identifier, compared by value.
#[derive(Debug)]
pub struct Name(pub String);

impl View for Name {
    type V = Seq<char>;

    open spec fn view(&self) -> Seq<char> {
        self.0@
    }
}

impl Clone for Name {
    fn clone(&self) -> (r: Self)
        ensures
            r == *self,
    {
        Name(self.0.clone())
    }
}

impl PartialEq for Name {
    fn eq(&self, other: &Self) -> (r: bool)
        ensures
            r == (self@ == other@),
    {
        self.0 == other.0
    }
}

impl vstd::std_specs::cmp::PartialEqSpecImpl for Name {
    open spec fn obeys_eq_spec() -> bool {
        true
    }

    open spec fn eq_spec(&self, other: &Self) -> bool {
        self@ == other@
    }
}

/// An opaque handle, unique per top-level definition within one program.
#[derive(Debug, Clone, Copy, PartialEq, Eq, Structural)]
pub struct DefId(pub u64);

/// The forward index of a sequence of id/name pairs: definition id to name.
pub open spec fn map_of(s: Seq<(DefId, Name)>) -> Map<u64, Seq<char>>
    decreases s.len(),
{
    if s.len() == 0 {
        Map::empty()
    } else {
        map_of(s.drop_last()).insert(s.last().0.0, s.last().1@)
    }
}

/// The reverse index of a sequence of id/name pairs: name to definition id.
pub open spec fn rev_of(s: Seq<(DefId, Name)>) -> Map<Seq<char>, u64>
    decreases s.len(),
{
    if s.len() == 0 {
        Map::empty()
    } else {
        rev_of(s.drop_last()).insert(s.last().1@, s.last().0.0)
    }
}

/// A bijection between definition ids and display names, kept as one list of
/// pairs read through two synchronized indices (`view` forward, `rev`
/// reverse). Bijectivity is checked at every insertion.
#[derive(Debug, Clone)]
pub struct DefNames {
    entries: Vec<(DefId, Name)>,
}

impl View for DefNames {
    type V = Map<u64, Seq<char>>;

    closed spec fn view(&self) -> Map<u64, Seq<char>> {
        map_of(self.entries@)
    }
}

impl DefNames {
    /// The reverse index: display name to definition id.
    pub closed spec fn rev(self) -> Map<Seq<char>, u64> {
        rev_of(self.entries@)
    }

    /// No two entries share an id, and no two entries share a name.
    pub closed spec fn wf(self) -> bool {
        forall|i: int, j: int|
            0 <= i < j < self.entries@.len() ==> {
                &&& self.entries@[i].0.0 != self.entries@[j].0.0
                &&& self.entries@[i].1@ != self.entries@[j].1@
            }
    }

    pub fn new() -> (r: Self)
        ensures
            r.wf(),
            r@ == Map::<u64, Seq<char>>::empty(),
            r.rev() == Map::<Seq<char>, u64>::empty(),
    {
        DefNames { entries: Vec::new() }
    }

    /// Adds one id/name pair; refuses, leaving the table unchanged, any pair
    /// whose id or name is already present, so that the table stays a
    /// bijection.
    pub fn insert(&mut self, id: DefId, name: Name) -> (r: bool)
        requires
            old(self).wf(),
        ensures
            final(self).wf(),
            r == (!old(self)@.contains_key(id.0) && !old(self).rev().contains_key(name@)),
            r ==> final(self)@ == old(self)@.insert(id.0, name@),
            r ==> final(self).rev() == old(self).rev().insert(name@, id.0),
            !r ==> *final(self) == *old(self),
    {
        if self.contains_id(id) || self.contains_name(&name) {
            return false;
        }
        proof {
            lemma_map_of_contains(self.entries@, id.0);
            lemma_rev_of_contains(self.entries@, name@);
        }
        let ghost prev = self.entries@;
        self.entries.push((id, name));
        proof {
            assert(self.entries@.drop_last() =~= prev);
            assert forall|i: int, j: int| 0 <= i < j < self.entries@.len() implies {
                &&& (#[trigger] self.entries@[i]).0.0 != (#[trigger] self.entries@[j]).0.0
                &&& self.entries@[i].1@ != self.entries@[j].1@
            } by {
                if j == self.entries@.len() - 1 {
                    assert(self.entries@[i] == prev[i]);
                }
            }
        }
        true
    }

    /// Whether some definition has this id.
    pub fn contains_id(&self, id: DefId) -> (r: bool)
        ensures
            r == self@.contains_key(id.0),
    {
        proof {
            lemma_map_of_contains(self.entries@, id.0);
        }
        let n = self.entries.len();
        for i in 0..n
            invariant
                n == self.entries@.len(),
                forall|k: int| 0 <= k < i ==> (#[trigger] self.entries@[k]).0.0 != id.0,
        {
            if self.entries[i].0.0 == id.0 {
                proof {
                    lemma_map_of_contains(self.entries@, id.0);
                    assert(self.entries@[i as int].0.0 == id.0);
                }
                return true;
            }
        }
        false
    }

    /// Whether some definition has this display name.
    pub fn contains_name(&self, name: &Name) -> (r: bool)
        ensures
            r == self.rev().contains_key(name@),
    {
        proof {
            lemma_rev_of_contains(self.entries@, name@);
        }
        let n = self.entries.len();
        for i in 0..n
            invariant
                n == self.entries@.len(),
                forall|k: int| 0 <= k < i ==> (#[trigger] self.entries@[k]).1@ != name@,
        {
            if &self.entries[i].1 == name {
                proof {
                    lemma_rev_of_contains(self.entries@, name@);
                    assert(self.entries@[i as int].1@ == name@);
                }
                return true;
            }
        }
        false
    }

    /// The display name of a definition id, if the id is in the table.
    pub fn name_of(&self, id: DefId) -> (r: Option<&Name>)
        requires
            self.wf(),
        ensures
            match r {
                Some(n) => self@.contains_key(id.0) && n@ == self@[id.0],
                None => !self@.contains_key(id.0),
            },
    {
        proof {
            lemma_map_of_contains(self.entries@, id.0);
        }
        let n = self.entries.len();
        for i in 0..n
            invariant
                n == self.entries@.len(),
                self.wf(),
                forall|k: int| 0 <= k < i ==> (#[trigger] self.entries@[k]).0.0 != id.0,
        {
            if self.entries[i].0.0 == id.0 {
                proof {
                    lemma_map_of_index(self.entries@, i as int);
                }
                return Some(&self.entries[i].1);
            }
        }
        None
    }

    /// The definition id of a display name, if the name is in the table.
    pub fn id_of(&self, name: &Name) -> (r: Option<DefId>)
        requires
            self.wf(),
        ensures
            match r {
                Some(id) => self.rev().contains_key(name@) && id.0 == self.rev()[name@],
                None => !self.rev().contains_key(name@),
            },
    {
        proof {
            lemma_rev_of_contains(self.entries@, name@);
        }
        let n = self.entries.len();
        for i in 0..n
            invariant
                n == self.entries@.len(),
                self.wf(),
                forall|k: int| 0 <= k < i ==> (#[trigger] self.entries@[k]).1@ != name@,
        {
            if &self.entries[i].1 == name {
                proof {
                    lemma_rev_of_index(self.entries@, i as int);
                }
                return Some(self.entries[i].0);
            }
        }
        None
    }
}

/// The forward index holds a key exactly when some entry carries that id.
proof fn lemma_map_of_contains(s: Seq<(DefId, Name)>, k: u64)
    ensures
        map_of(s).contains_key(k) <==> exists|i: int| 0 <= i < s.len() && (#[trigger] s[i]).0.0 == k,
    decreases s.len(),
{
    if s.len() > 0 {
        lemma_map_of_contains(s.drop_last(), k);
        if s.last().0.0 == k {
            assert(s[s.len() - 1].0.0 == k);
        } else {
            if map_of(s).contains_key(k) {
                let i = choose|i: int|
                    0 <= i < s.drop_last().len() && (#[trigger] s.drop_last()[i]).0.0 == k;
                assert(s[i].0.0 == k);
            }
            if exists|i: int| 0 <= i < s.len() && (#[trigger] s[i]).0.0 == k {
                let i = choose|i: int| 0 <= i < s.len() && (#[trigger] s[i]).0.0 == k;
                assert(s.drop_last()[i] == s[i]);
            }
        }
    }
}

/// The reverse index holds a key exactly when some entry carries that name.
proof fn lemma_rev_of_contains(s: Seq<(DefId, Name)>, v: Seq<char>)
    ensures
        rev_of(s).contains_key(v) <==> exists|i: int| 0 <= i < s.len() && (#[trigger] s[i]).1@ == v,
    decreases s.len(),
{
    if s.len() > 0 {
        lemma_rev_of_contains(s.drop_last(), v);
        if s.last().1@ == v {
            assert(s[s.len() - 1].1@ == v);
        } else {
            if rev_of(s).contains_key(v) {
                let i = choose|i: int|
                    0 <= i < s.drop_last().len() && (#[trigger] s.drop_last()[i]).1@ == v;
                assert(s[i].1@ == v);
            }
            if exists|i: int| 0 <= i < s.len() && (#[trigger] s[i]).1@ == v {
                let i = choose|i: int| 0 <= i < s.len() && (#[trigger] s[i]).1@ == v;
                assert(s.drop_last()[i] == s[i]);
            }
        }
    }
}

/// An entry whose id no later entry repeats decides the forward index at its id.
proof fn lemma_map_of_index(s: Seq<(DefId, Name)>, i: int)
    requires
        0 <= i < s.len(),
        forall|j: int| i < j < s.len() ==> (#[trigger] s[j]).0.0 != s[i].0.0,
    ensures
        map_of(s).contains_key(s[i].0.0),
        map_of(s)[s[i].0.0] == s[i].1@,
    decreases s.len(),
{
    if i == s.len() - 1 {
        assert(s.last() == s[i]);
    } else {
        assert(forall|j: int|
            i < j < s.drop_last().len() ==> (#[trigger] s.drop_last()[j]).0.0 != s.drop_last()[i].0.0);
        lemma_map_of_index(s.drop_last(), i);
        assert(s.drop_last()[i] == s[i]);
        assert(s[s.len() - 1].0.0 != s[i].0.0);
    }
}

/// An entry whose name no later entry repeats decides the reverse index at its name.
proof fn lemma_rev_of_index(s: Seq<(DefId, Name)>, i: int)
    requires
        0 <= i < s.len(),
        forall|j: int| i < j < s.len() ==> (#[trigger] s[j]).1@ != s[i].1@,
    ensures
        rev_of(s).contains_key(s[i].1@),
        rev_of(s)[s[i].1@] == s[i].0.0,
    decreases s.len(),
{
    if i == s.len() - 1 {
        assert(s.last() == s[i]);
    } else {
        assert(forall|j: int|
            i < j < s.drop_last().len() ==> (#[trigger] s.drop_last()[j]).1@ != s.drop_last()[i].1@);
        lemma_rev_of_index(s.drop_last(), i);
        assert(s.drop_last()[i] == s[i]);
        assert(s[s.len() - 1].1@ != s[i].1@);
    }
}

} // verus!
