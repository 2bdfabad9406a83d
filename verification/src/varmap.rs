//! The mapping from variable names to dynamic values used for supplied
//! arguments and for resolved variable environments. Keys are unique; the
//! mathematical reading is a finite map from name to value text.

use vstd::prelude::*;

use crate::dynval::DynVal;
use crate::dynval::VarName;
use crate::strutil::str_eq;

verus! {

/// The map denoted by an association list, later entries winning.
pub open spec fn map_of(s: Seq<(VarName, DynVal)>) -> Map<Seq<char>, Seq<char>>
    decreases s.len(),
{
    if s.len() == 0 {
        Map::empty()
    } else {
        map_of(s.drop_last()).insert(s.last().0@, s.last().1@)
    }
}

/// No two entries share a key.
pub open spec fn keys_unique(s: Seq<(VarName, DynVal)>) -> bool {
    forall|i: int, j: int| 0 <= i < j < s.len() ==> s[i].0@ != s[j].0@
}

/// Some entry of `s` has key `k`.
pub open spec fn seq_has_key(s: Seq<(VarName, DynVal)>, k: Seq<char>) -> bool {
    exists|i: int| 0 <= i < s.len() && s[i].0@ == k
}

pub proof fn lemma_map_of_contains(s: Seq<(VarName, DynVal)>, k: Seq<char>)
    ensures
        map_of(s).contains_key(k) == seq_has_key(s, k),
    decreases s.len(),
{
    if s.len() > 0 {
        lemma_map_of_contains(s.drop_last(), k);
        if s.last().0@ == k {
            assert(s[s.len() - 1].0@ == k);
        } else {
            if seq_has_key(s.drop_last(), k) {
                let i = choose|i: int| 0 <= i < s.drop_last().len() && s.drop_last()[i].0@ == k;
                assert(s[i].0@ == k);
            }
            if seq_has_key(s, k) {
                let i = choose|i: int| 0 <= i < s.len() && s[i].0@ == k;
                assert(s.drop_last()[i].0@ == k);
            }
        }
    }
}

pub proof fn lemma_map_of_index(s: Seq<(VarName, DynVal)>, i: int)
    requires
        keys_unique(s),
        0 <= i < s.len(),
    ensures
        map_of(s).contains_key(s[i].0@),
        map_of(s)[s[i].0@] == s[i].1@,
    decreases s.len(),
{
    if i == s.len() - 1 {
    } else {
        assert(s[i].0@ != s.last().0@);
        lemma_map_of_index(s.drop_last(), i);
        assert(s.drop_last()[i] == s[i]);
    }
}

pub proof fn lemma_map_of_finite(s: Seq<(VarName, DynVal)>)
    ensures
        map_of(s).dom().finite(),
    decreases s.len(),
{
    if s.len() > 0 {
        lemma_map_of_finite(s.drop_last());
    }
}

pub proof fn lemma_map_of_len(s: Seq<(VarName, DynVal)>)
    requires
        keys_unique(s),
    ensures
        map_of(s).dom().finite(),
        map_of(s).dom().len() == s.len(),
    decreases s.len(),
{
    lemma_map_of_finite(s);
    if s.len() > 0 {
        lemma_map_of_len(s.drop_last());
        lemma_map_of_contains(s.drop_last(), s.last().0@);
        assert(forall|i: int| 0 <= i < s.drop_last().len() ==> s.drop_last()[i] == s[i]);
        assert(!seq_has_key(s.drop_last(), s.last().0@));
        assert(!map_of(s.drop_last()).contains_key(s.last().0@));
    }
}

/// Removing the entry at index `i` removes exactly its key from the map.
pub proof fn lemma_map_of_remove(s: Seq<(VarName, DynVal)>, i: int)
    requires
        keys_unique(s),
        0 <= i < s.len(),
    ensures
        map_of(s.remove(i)) =~= map_of(s).remove(s[i].0@),
    decreases s.len(),
{
    if i == s.len() - 1 {
        assert(s.remove(i) =~= s.drop_last());
        lemma_map_of_contains(s.drop_last(), s[i].0@);
        assert(forall|j: int| 0 <= j < s.drop_last().len() ==> s.drop_last()[j] == s[j]);
        assert(!seq_has_key(s.drop_last(), s[i].0@));
        assert(map_of(s.drop_last()) =~= map_of(s).remove(s[i].0@));
    } else {
        let t = s.remove(i);
        assert(t.drop_last() =~= s.drop_last().remove(i));
        assert(t.last() == s.last());
        lemma_map_of_remove(s.drop_last(), i);
        assert(s.drop_last()[i] == s[i]);
        assert(s[i].0@ != s.last().0@);
        assert(map_of(t) == map_of(s.drop_last().remove(i)).insert(s.last().0@, s.last().1@));
        assert(map_of(t) =~= map_of(s).remove(s[i].0@));
    }
}

/// Removing an entry keeps the remaining keys unique.
pub proof fn lemma_keys_unique_remove(s: Seq<(VarName, DynVal)>, i: int)
    requires
        keys_unique(s),
        0 <= i < s.len(),
    ensures
        keys_unique(s.remove(i)),
{
    let t = s.remove(i);
    assert forall|a: int, b: int| 0 <= a < b < t.len() implies t[a].0@ != t[b].0@ by {
        let a2 = if a < i {
            a
        } else {
            a + 1
        };
        let b2 = if b < i {
            b
        } else {
            b + 1
        };
        assert(t[a] == s[a2]);
        assert(t[b] == s[b2]);
        assert(s[a2].0@ != s[b2].0@);
    }
}

/// An ordered collection of name/value bindings with unique names, read as a
/// finite map from variable name to value text.
#[derive(Debug)]
pub struct VarMap {
    pub entries: Vec<(VarName, DynVal)>,
}

impl View for VarMap {
    type V = Map<Seq<char>, Seq<char>>;

    open spec fn view(&self) -> Map<Seq<char>, Seq<char>> {
        map_of(self.entries@)
    }
}

impl Clone for VarMap {
    fn clone(&self) -> (r: Self)
        ensures
            r@ == self@,
            r.wf() == self.wf(),
    {
        let mut out: Vec<(VarName, DynVal)> = Vec::new();
        let mut i: usize = 0;
        while i < self.entries.len()
            invariant
                0 <= i <= self.entries.len(),
                out@.len() == i,
                forall|k: int|
                    0 <= k < i ==> out@[k].0@ == self.entries@[k].0@ && out@[k].1@
                        == self.entries@[k].1@,
            decreases self.entries.len() - i,
        {
            let entry = &self.entries[i];
            out.push((entry.0.clone(), entry.1.clone()));
            i += 1;
        }
        proof {
            lemma_map_of_pointwise(out@, self.entries@);
        }
        VarMap { entries: out }
    }
}

/// Association lists with pointwise equal keys and value texts denote the
/// same map and agree on key uniqueness.
pub proof fn lemma_map_of_pointwise(a: Seq<(VarName, DynVal)>, b: Seq<(VarName, DynVal)>)
    requires
        a.len() == b.len(),
        forall|k: int| 0 <= k < a.len() ==> a[k].0@ == b[k].0@ && a[k].1@ == b[k].1@,
    ensures
        map_of(a) == map_of(b),
        keys_unique(a) == keys_unique(b),
    decreases a.len(),
{
    if a.len() > 0 {
        assert(forall|k: int|
            0 <= k < a.drop_last().len() ==> a.drop_last()[k].0@ == b.drop_last()[k].0@
                && a.drop_last()[k].1@ == b.drop_last()[k].1@);
        lemma_map_of_pointwise(a.drop_last(), b.drop_last());
        assert(a.last().0@ == b.last().0@ && a.last().1@ == b.last().1@);
    }
    if keys_unique(a) {
        assert forall|i: int, j: int| 0 <= i < j < b.len() implies b[i].0@ != b[j].0@ by {
            assert(a[i].0@ != a[j].0@);
        }
    }
    if keys_unique(b) {
        assert forall|i: int, j: int| 0 <= i < j < a.len() implies a[i].0@ != a[j].0@ by {
            assert(b[i].0@ != b[j].0@);
        }
    }
}

impl VarMap {
    /// Every binding's name occurs once.
    pub open spec fn wf(&self) -> bool {
        keys_unique(self.entries@)
    }

    /// The empty map.
    pub fn new() -> (r: VarMap)
        ensures
            r.wf(),
            r@ == Map::<Seq<char>, Seq<char>>::empty(),
            r.entries@.len() == 0,
    {
        VarMap { entries: Vec::new() }
    }

    /// How many bindings the map holds.
    pub fn len(&self) -> (r: usize)
        requires
            self.wf(),
        ensures
            r == self@.dom().len(),
            r == self.entries@.len(),
    {
        proof {
            lemma_map_of_len(self.entries@);
        }
        self.entries.len()
    }

    /// The position of the binding named `name`, if there is one.
    fn index_of(&self, name: &str) -> (r: Option<usize>)
        ensures
            match r {
                Some(i) => i < self.entries@.len() && self.entries@[i as int].0@ == name@,
                None => !seq_has_key(self.entries@, name@),
            },
    {
        let mut i: usize = 0;
        while i < self.entries.len()
            invariant
                0 <= i <= self.entries.len(),
                forall|k: int| 0 <= k < i ==> self.entries@[k].0@ != name@,
            decreases self.entries.len() - i,
        {
            if str_eq(self.entries[i].0.0.as_str(), name) {
                return Some(i);
            }
            i += 1;
        }
        None
    }

    /// Whether a binding named `name` is present.
    pub fn contains_key(&self, name: &str) -> (r: bool)
        ensures
            r == self@.contains_key(name@),
    {
        proof {
            lemma_map_of_contains(self.entries@, name@);
        }
        match self.index_of(name) {
            Some(_) => true,
            None => false,
        }
    }

    /// Look up the value bound to `name`.
    pub fn get(&self, name: &str) -> (r: Option<&DynVal>)
        requires
            self.wf(),
        ensures
            match r {
                Some(v) => self@.contains_key(name@) && v@ == self@[name@],
                None => !self@.contains_key(name@),
            },
    {
        proof {
            lemma_map_of_contains(self.entries@, name@);
        }
        match self.index_of(name) {
            Some(i) => {
                proof {
                    lemma_map_of_index(self.entries@, i as int);
                }
                Some(&self.entries[i].1)
            },
            None => None,
        }
    }

    /// Bind `name` to `value`, replacing any previous binding of that name.
    pub fn insert(&mut self, name: VarName, value: DynVal)
        requires
            old(self).wf(),
        ensures
            final(self).wf(),
            final(self)@ == old(self)@.insert(name@, value@),
    {
        let ghost s0 = self.entries@;
        match self.index_of(name.0.as_str()) {
            Some(i) => {
                proof {
                    lemma_map_of_remove(s0, i as int);
                    lemma_keys_unique_remove(s0, i as int);
                }
                let _ = self.entries.remove(i);
                proof {
                    assert(keys_unique(self.entries@));
                    lemma_map_of_contains(self.entries@, name@);
                    assert(!seq_has_key(self.entries@, name@));
                }
                let ghost s1 = self.entries@;
                self.entries.push((name, value));
                proof {
                    assert(self.entries@.drop_last() =~= s1);
                    assert(map_of(self.entries@) =~= old(self)@.insert(
                        self.entries@.last().0@,
                        self.entries@.last().1@,
                    ));
                    assert(forall|a: int|
                        0 <= a < s1.len() ==> #[trigger] self.entries@[a] == s1[a]);
                }
            },
            None => {
                let ghost s1 = self.entries@;
                self.entries.push((name, value));
                proof {
                    assert(self.entries@.drop_last() =~= s1);
                    assert(map_of(self.entries@) == old(self)@.insert(
                        self.entries@.last().0@,
                        self.entries@.last().1@,
                    ));
                    assert(forall|a: int|
                        0 <= a < s1.len() ==> #[trigger] self.entries@[a] == s1[a]);
                }
            },
        }
    }

    /// Drop the binding named `name`, handing back its value if it was there.
    pub fn remove(&mut self, name: &str) -> (r: Option<DynVal>)
        requires
            old(self).wf(),
        ensures
            final(self).wf(),
            final(self)@ == old(self)@.remove(name@),
            match r {
                Some(v) => old(self)@.contains_key(name@) && v@ == old(self)@[name@],
                None => !old(self)@.contains_key(name@),
            },
    {
        proof {
            lemma_map_of_contains(self.entries@, name@);
        }
        match self.index_of(name) {
            Some(i) => {
                proof {
                    lemma_map_of_index(self.entries@, i as int);
                    lemma_map_of_remove(self.entries@, i as int);
                    lemma_keys_unique_remove(self.entries@, i as int);
                }
                let entry = self.entries.remove(i);
                Some(entry.1)
            },
            None => {
                proof {
                    assert(old(self)@ =~= old(self)@.remove(name@));
                }
                None
            },
        }
    }
}

} // verus!
