//! A list of values under string keys, each key once, in the order keys were first added.
use vstd::prelude::*;
use crate::text::{owned, str_eq};

verus! {

/// Keys `s[i].0` are pairwise distinct.
pub open spec fn distinct_names<V>(s: Seq<(String, V)>) -> bool {
    forall|i: int, j: int| 0 <= i < s.len() && 0 <= j < s.len() && i != j ==> s[i].0@ != s[j].0@
}

/// The map that a list of distinct keys spells.
pub open spec fn named_map<V>(s: Seq<(String, V)>) -> Map<Seq<char>, V> {
    Map::new(
        |k: Seq<char>| exists|i: int| 0 <= i < s.len() && s[i].0@ == k,
        |k: Seq<char>| s[choose|i: int| 0 <= i < s.len() && s[i].0@ == k].1,
    )
}

/// In a list with distinct keys, entry `i` is what its key maps to.
pub proof fn lemma_named_map_at<V>(s: Seq<(String, V)>, i: int)
    requires
        distinct_names(s),
        0 <= i < s.len(),
    ensures
        named_map(s).dom().contains(s[i].0@),
        named_map(s)[s[i].0@] == s[i].1,
{
    let k = s[i].0@;
    assert(exists|j: int| 0 <= j < s.len() && s[j].0@ == k);
    let j = choose|j: int| 0 <= j < s.len() && s[j].0@ == k;
    assert(j == i);
}

/// Values under string keys, in the order keys were first added.
#[derive(Debug)]
pub struct KeyedList<V> {
    entries: Vec<(String, V)>,
}

impl<V> KeyedList<V> {
    #[verifier::type_invariant]
    spec fn inv(self) -> bool {
        distinct_names(self.entries@)
    }

    /// The entries, in the order their keys were first added.
    pub closed spec fn spec_entries(&self) -> Seq<(String, V)> {
        self.entries@
    }

    /// The values by key.
    pub open spec fn spec_map(&self) -> Map<Seq<char>, V> {
        named_map(self.spec_entries())
    }

    /// The keys, in order.
    pub open spec fn spec_keys(&self) -> Seq<Seq<char>> {
        self.spec_entries().map_values(|e: (String, V)| e.0@)
    }

    /// An empty list.
    pub fn new() -> (r: Self)
        ensures
            r.spec_entries().len() == 0,
    {
        KeyedList { entries: Vec::new() }
    }

    /// The number of entries.
    pub fn len(&self) -> (r: usize)
        ensures
            r == self.spec_entries().len(),
            distinct_names(self.spec_entries()),
    {
        proof {
            use_type_invariant(self);
        }
        self.entries.len()
    }

    /// Entry `i`.
    pub fn entry(&self, i: usize) -> (r: &(String, V))
        requires
            i < self.spec_entries().len(),
        ensures
            *r == self.spec_entries()[i as int],
            self.spec_map().dom().contains(r.0@),
            self.spec_map()[r.0@] == r.1,
    {
        proof {
            use_type_invariant(self);
            lemma_named_map_at(self.entries@, i as int);
        }
        &self.entries[i]
    }

    /// The position of `key`, if present.
    pub fn find(&self, key: &str) -> (r: Option<usize>)
        ensures
            r matches Some(i) ==> i < self.spec_entries().len() && self.spec_entries()[i as int].0@ == key@,
            r is None <==> !self.spec_map().dom().contains(key@),
    {
        proof {
            use_type_invariant(self);
        }
        let mut i: usize = 0;
        while i < self.entries.len()
            invariant
                i <= self.entries@.len(),
                forall|j: int| 0 <= j < i ==> self.entries@[j].0@ != key@,
            decreases self.entries@.len() - i,
        {
            if str_eq(self.entries[i].0.as_str(), key) {
                return Some(i);
            }
            i = i + 1;
        }
        None
    }

    /// The value under `key`, if any.
    pub fn get(&self, key: &str) -> (r: Option<&V>)
        ensures
            r is Some <==> self.spec_map().dom().contains(key@),
            r matches Some(v) ==> *v == self.spec_map()[key@],
    {
        proof {
            use_type_invariant(self);
        }
        match self.find(key) {
            Some(i) => {
                proof {
                    lemma_named_map_at(self.entries@, i as int);
                }
                Some(&self.entries[i].1)
            },
            None => None,
        }
    }

    /// Put `value` under `key`: an existing entry is replaced in place, a new key goes last.
    pub fn insert(&mut self, key: &str, value: V)
        ensures
            final(self).spec_map() == old(self).spec_map().insert(key@, value),
            old(self).spec_map().dom().contains(key@) ==> final(self).spec_keys() == old(self).spec_keys(),
            !old(self).spec_map().dom().contains(key@) ==> final(self).spec_keys() == old(self).spec_keys().push(key@),
    {
        proof {
            use_type_invariant(&*self);
        }
        let ghost k = key@;
        let ghost before = self.entries@;
        let found = self.find(key);
        let mut list: Vec<(String, V)> = Vec::new();
        std::mem::swap(&mut list, &mut self.entries);
        let entry = (owned(key), value);
        let ghost v = entry.1;
        match found {
            Some(i) => {
                list.set(i, entry);
                let ghost after = list@;
                assert(distinct_names(after));
                assert forall|q: Seq<char>|
                    #![trigger named_map(after).dom().contains(q)]
                    named_map(after).dom().contains(q) == named_map(before).insert(k, v).dom().contains(q) by {
                    if exists|j: int| 0 <= j < before.len() && before[j].0@ == q {
                        let j = choose|j: int| 0 <= j < before.len() && before[j].0@ == q;
                        assert(after[j].0@ == q);
                    }
                    if exists|j: int| 0 <= j < after.len() && after[j].0@ == q {
                        let j = choose|j: int| 0 <= j < after.len() && after[j].0@ == q;
                        if j != i {
                            assert(before[j].0@ == q);
                        }
                    }
                }
                assert forall|q: Seq<char>| named_map(after).dom().contains(q) implies named_map(after)[q] == named_map(before).insert(k, v)[q] by {
                    let j = choose|j: int| 0 <= j < after.len() && after[j].0@ == q;
                    lemma_named_map_at(after, j);
                    if j != i {
                        lemma_named_map_at(before, j);
                    }
                }
                assert(named_map(after) =~= named_map(before).insert(k, v));
                assert(after.map_values(|e: (String, V)| e.0@) =~= before.map_values(|e: (String, V)| e.0@));
            },
            None => {
                list.push(entry);
                let ghost after = list@;
                assert(distinct_names(after));
                assert forall|q: Seq<char>|
                    #![trigger named_map(after).dom().contains(q)]
                    named_map(after).dom().contains(q) == named_map(before).insert(k, v).dom().contains(q) by {
                    if exists|j: int| 0 <= j < before.len() && before[j].0@ == q {
                        let j = choose|j: int| 0 <= j < before.len() && before[j].0@ == q;
                        assert(after[j].0@ == q);
                    }
                    if exists|j: int| 0 <= j < after.len() && after[j].0@ == q {
                        let j = choose|j: int| 0 <= j < after.len() && after[j].0@ == q;
                        if j < before.len() {
                            assert(before[j].0@ == q);
                        }
                    }
                    if q == k {
                        assert(after[before.len() as int].0@ == q);
                    }
                }
                assert forall|q: Seq<char>| named_map(after).dom().contains(q) implies named_map(after)[q] == named_map(before).insert(k, v)[q] by {
                    let j = choose|j: int| 0 <= j < after.len() && after[j].0@ == q;
                    lemma_named_map_at(after, j);
                    if j < before.len() {
                        lemma_named_map_at(before, j);
                    }
                }
                assert(named_map(after) =~= named_map(before).insert(k, v));
                assert(after.map_values(|e: (String, V)| e.0@) =~= before.map_values(|e: (String, V)| e.0@).push(k));
            },
        }
        self.entries = list;
    }
    /// Take `key` and its value out; the other entries keep their order. Returns whether
    /// `key` was present.
    pub fn remove(&mut self, key: &str) -> (r: bool)
        ensures
            r == old(self).spec_map().dom().contains(key@),
            final(self).spec_map() == old(self).spec_map().remove(key@),
            !r ==> final(self).spec_keys() == old(self).spec_keys(),
            r ==> exists|i: int| 0 <= i < old(self).spec_keys().len()
                && old(self).spec_keys()[i] == key@
                && final(self).spec_keys() == #[trigger] old(self).spec_keys().remove(i),
    {
        proof {
            use_type_invariant(&*self);
        }
        let ghost k = key@;
        let ghost before = self.entries@;
        match self.find(key) {
            None => {
                assert(named_map(before).remove(k) =~= named_map(before));
                false
            },
            Some(i) => {
                let mut list: Vec<(String, V)> = Vec::new();
                std::mem::swap(&mut list, &mut self.entries);
                let _ = list.remove(i);
                let ghost after = list@;
                assert(after =~= before.remove(i as int));
                assert(distinct_names(after)) by {
                    assert forall|a: int, b: int| 0 <= a < after.len() && 0 <= b < after.len() && a != b
                        implies after[a].0@ != after[b].0@ by {
                        let a0 = if a < i { a } else { a + 1 };
                        let b0 = if b < i { b } else { b + 1 };
                        assert(after[a] == before[a0]);
                        assert(after[b] == before[b0]);
                    }
                }
                assert forall|q: Seq<char>|
                    #![trigger named_map(after).dom().contains(q)]
                    named_map(after).dom().contains(q) == named_map(before).remove(k).dom().contains(q) by {
                    if exists|j: int| 0 <= j < before.len() && before[j].0@ == q {
                        let j = choose|j: int| 0 <= j < before.len() && before[j].0@ == q;
                        if q != k {
                            assert(j != i);
                            let j1 = if j < i { j } else { j - 1 };
                            assert(after[j1] == before[j]);
                        }
                    }
                    if exists|j: int| 0 <= j < after.len() && after[j].0@ == q {
                        let j = choose|j: int| 0 <= j < after.len() && after[j].0@ == q;
                        let j0 = if j < i { j } else { j + 1 };
                        assert(after[j] == before[j0]);
                        assert(j0 != i);
                    }
                }
                assert forall|q: Seq<char>| named_map(after).dom().contains(q) implies named_map(after)[q] == named_map(before).remove(k)[q] by {
                    let j = choose|j: int| 0 <= j < after.len() && after[j].0@ == q;
                    lemma_named_map_at(after, j);
                    let j0 = if j < i { j } else { j + 1 };
                    assert(after[j] == before[j0]);
                    lemma_named_map_at(before, j0);
                }
                assert(named_map(after) =~= named_map(before).remove(k));
                assert(after.map_values(|e: (String, V)| e.0@) =~= before.map_values(|e: (String, V)| e.0@).remove(i as int));
                self.entries = list;
                proof {
                    assert(old(self).spec_keys()[i as int] == k);
                    assert(self.spec_keys() == old(self).spec_keys().remove(i as int));
                }
                true
            },
        }
    }
}

} // verus!
