//! A small map from strings to strings, kept as a list with each key once.
use vstd::prelude::*;
use crate::text::{owned, str_eq};

verus! {

/// Keys `s[i].0` are pairwise distinct.
pub open spec fn distinct_keys(s: Seq<(String, String)>) -> bool {
    forall|i: int, j: int| 0 <= i < s.len() && 0 <= j < s.len() && i != j ==> s[i].0@ != s[j].0@
}

/// The map that a list of distinct keys spells.
pub open spec fn pairs_map(s: Seq<(String, String)>) -> Map<Seq<char>, Seq<char>> {
    Map::new(
        |k: Seq<char>| exists|i: int| 0 <= i < s.len() && s[i].0@ == k,
        |k: Seq<char>| s[choose|i: int| 0 <= i < s.len() && s[i].0@ == k].1@,
    )
}

proof fn lemma_pairs_map_at(s: Seq<(String, String)>, i: int)
    requires
        distinct_keys(s),
        0 <= i < s.len(),
    ensures
        pairs_map(s).dom().contains(s[i].0@),
        pairs_map(s)[s[i].0@] == s[i].1@,
{
    let k = s[i].0@;
    assert(exists|j: int| 0 <= j < s.len() && s[j].0@ == k);
    let j = choose|j: int| 0 <= j < s.len() && s[j].0@ == k;
    assert(j == i);
}

/// A map from strings to strings, in the order keys were first inserted.
#[derive(Debug)]
pub struct StringMap {
    entries: Vec<(String, String)>,
}

impl View for StringMap {
    type V = Map<Seq<char>, Seq<char>>;

    closed spec fn view(&self) -> Map<Seq<char>, Seq<char>> {
        pairs_map(self.entries@)
    }
}

impl StringMap {
    #[verifier::type_invariant]
    spec fn inv(self) -> bool {
        distinct_keys(self.entries@)
    }

    /// An empty map.
    pub fn new() -> (r: Self)
        ensures
            r@ == Map::<Seq<char>, Seq<char>>::empty(),
    {
        let r = StringMap { entries: Vec::new() };
        assert(r@ =~= Map::<Seq<char>, Seq<char>>::empty());
        r
    }

    fn find(&self, key: &str) -> (r: Option<usize>)
        ensures
            r matches Some(i) ==> i < self.entries@.len() && self.entries@[i as int].0@ == key@
                && self@.dom().contains(key@) && self@[key@] == self.entries@[i as int].1@,
            r is None ==> !self@.dom().contains(key@),
    {
        proof {
            use_type_invariant(self);
        }
        let mut i: usize = 0;
        while i < self.entries.len()
            invariant
                i <= self.entries@.len(),
                distinct_keys(self.entries@),
                forall|j: int| 0 <= j < i ==> self.entries@[j].0@ != key@,
            decreases self.entries@.len() - i,
        {
            if str_eq(self.entries[i].0.as_str(), key) {
                proof {
                    lemma_pairs_map_at(self.entries@, i as int);
                }
                return Some(i);
            }
            i = i + 1;
        }
        None
    }

    /// Insert `value` under `key`, replacing any earlier value.
    pub fn insert(&mut self, key: &str, value: &str)
        ensures
            final(self)@ == old(self)@.insert(key@, value@),
    {
        proof {
            use_type_invariant(&*self);
        }
        let ghost k = key@;
        let ghost v = value@;
        let ghost before = self.entries@;
        let found = self.find(key);
        let mut list: Vec<(String, String)> = Vec::new();
        std::mem::swap(&mut list, &mut self.entries);
        let entry = (owned(key), owned(value));
        match found {
            Some(i) => {
                list.set(i, entry);
                let ghost after = list@;
                assert(distinct_keys(after));
                assert forall|q: Seq<char>|
                    #![trigger pairs_map(after).dom().contains(q)]
                    pairs_map(after).dom().contains(q) == pairs_map(before).insert(k, v).dom().contains(q) by {
                    if exists|j: int| 0 <= j < before.len() && before[j].0@ == q {
                        let j = choose|j: int| 0 <= j < before.len() && before[j].0@ == q;
                        assert(after[j].0@ == q);
                    }
                    if exists|j: int| 0 <= j < after.len() && after[j].0@ == q {
                        let j = choose|j: int| 0 <= j < after.len() && after[j].0@ == q;
                        if j != i {
                            assert(before[j].0@ == q);
                        }
                    }
                }
                assert forall|q: Seq<char>| pairs_map(after).dom().contains(q) implies pairs_map(after)[q] == pairs_map(before).insert(k, v)[q] by {
                    let j = choose|j: int| 0 <= j < after.len() && after[j].0@ == q;
                    lemma_pairs_map_at(after, j);
                    if j != i {
                        lemma_pairs_map_at(before, j);
                    }
                }
                assert(pairs_map(after) =~= pairs_map(before).insert(k, v));
            },
            None => {
                list.push(entry);
                let ghost after = list@;
                assert(distinct_keys(after));
                assert forall|q: Seq<char>|
                    #![trigger pairs_map(after).dom().contains(q)]
                    pairs_map(after).dom().contains(q) == pairs_map(before).insert(k, v).dom().contains(q) by {
                    if exists|j: int| 0 <= j < before.len() && before[j].0@ == q {
                        let j = choose|j: int| 0 <= j < before.len() && before[j].0@ == q;
                        assert(after[j].0@ == q);
                    }
                    if exists|j: int| 0 <= j < after.len() && after[j].0@ == q {
                        let j = choose|j: int| 0 <= j < after.len() && after[j].0@ == q;
                        if j < before.len() {
                            assert(before[j].0@ == q);
                        }
                    }
                    if q == k {
                        assert(after[before.len() as int].0@ == q);
                    }
                }
                assert forall|q: Seq<char>| pairs_map(after).dom().contains(q) implies pairs_map(after)[q] == pairs_map(before).insert(k, v)[q] by {
                    let j = choose|j: int| 0 <= j < after.len() && after[j].0@ == q;
                    lemma_pairs_map_at(after, j);
                    if j < before.len() {
                        lemma_pairs_map_at(before, j);
                    }
                }
                assert(pairs_map(after) =~= pairs_map(before).insert(k, v));
            },
        }
        self.entries = list;
    }

    /// The value under `key`, if any.
    pub fn get(&self, key: &str) -> (r: Option<&str>)
        ensures
            r is Some <==> self@.dom().contains(key@),
            r matches Some(v) ==> v@ == self@[key@],
    {
        match self.find(key) {
            Some(i) => Some(self.entries[i].1.as_str()),
            None => None,
        }
    }

    /// The number of keys.
    pub fn len(&self) -> (r: usize)
        ensures
            r == self@.dom().len(),
    {
        proof {
            use_type_invariant(self);
            self.lemma_len();
        }
        self.entries.len()
    }

    proof fn lemma_len(&self)
        requires
            distinct_keys(self.entries@),
        ensures
            self@.dom().len() == self.entries@.len(),
    {
        let s = self.entries@;
        let keys = s.map_values(|e: (String, String)| e.0@);
        assert(keys.no_duplicates()) by {
            assert forall|i: int, j: int| 0 <= i < keys.len() && 0 <= j < keys.len() && i != j implies keys[i] != keys[j] by {
                assert(s[i].0@ != s[j].0@);
            }
        }
        keys.unique_seq_to_set();
        assert(keys.to_set() =~= self@.dom()) by {
            assert forall|q: Seq<char>| keys.to_set().contains(q) implies self@.dom().contains(q) by {
                let i = choose|i: int| 0 <= i < keys.len() && keys[i] == q;
                assert(s[i].0@ == q);
            }
            assert forall|q: Seq<char>| self@.dom().contains(q) implies keys.to_set().contains(q) by {
                let i = choose|i: int| 0 <= i < s.len() && s[i].0@ == q;
                assert(keys[i] == q);
            }
        }
    }

    /// A copy of this map.
    pub fn duplicate(&self) -> (r: Self)
        ensures
            r@ == self@,
    {
        proof {
            use_type_invariant(self);
        }
        let mut list: Vec<(String, String)> = Vec::new();
        let mut i: usize = 0;
        while i < self.entries.len()
            invariant
                i <= self.entries@.len(),
                list@.len() == i,
                forall|j: int| 0 <= j < i ==> (#[trigger] list@[j]).0@ == self.entries@[j].0@ && list@[j].1@ == self.entries@[j].1@,
            decreases self.entries@.len() - i,
        {
            list.push((owned(self.entries[i].0.as_str()), owned(self.entries[i].1.as_str())));
            i = i + 1;
        }
        let r = StringMap { entries: list };
        proof {
            assert forall|a: int, b: int| 0 <= a < list@.len() && 0 <= b < list@.len() && a != b implies list@[a].0@ != list@[b].0@ by {
                assert(self.entries@[a].0@ != self.entries@[b].0@);
            }
            assert forall|q: Seq<char>| #![trigger r@.dom().contains(q)] r@.dom().contains(q) == self@.dom().contains(q) by {
                if r@.dom().contains(q) {
                    let j = choose|j: int| 0 <= j < list@.len() && list@[j].0@ == q;
                    assert(self.entries@[j].0@ == q);
                }
                if self@.dom().contains(q) {
                    let j = choose|j: int| 0 <= j < self.entries@.len() && self.entries@[j].0@ == q;
                    assert(list@[j].0@ == q);
                }
            }
            assert forall|q: Seq<char>| r@.dom().contains(q) implies r@[q] == self@[q] by {
                let j = choose|j: int| 0 <= j < list@.len() && list@[j].0@ == q;
                lemma_pairs_map_at(list@, j);
                lemma_pairs_map_at(self.entries@, j);
            }
            assert(r@ =~= self@);
        }
        r
    }

    /// The keys, in the order they were first inserted.
    pub closed spec fn spec_keys(&self) -> Seq<Seq<char>> {
        self.entries@.map_values(|e: (String, String)| e.0@)
    }

    /// The keys, in the order they were first inserted; each is a key of the map.
    pub fn keys(&self) -> (r: Vec<String>)
        ensures
            r@.len() == self.spec_keys().len(),
            forall|i: int| 0 <= i < r@.len() ==> (#[trigger] r@[i])@ == self.spec_keys()[i],
            forall|i: int| 0 <= i < self.spec_keys().len() ==> self@.dom().contains(#[trigger] self.spec_keys()[i]),
    {
        proof {
            use_type_invariant(self);
        }
        let mut out: Vec<String> = Vec::new();
        let mut i: usize = 0;
        while i < self.entries.len()
            invariant
                i <= self.entries@.len(),
                out@.len() == i,
                forall|j: int| 0 <= j < i ==> (#[trigger] out@[j])@ == self.entries@[j].0@,
            decreases self.entries@.len() - i,
        {
            out.push(owned(self.entries[i].0.as_str()));
            i = i + 1;
        }
        proof {
            assert forall|j: int| 0 <= j < self.spec_keys().len() implies self@.dom().contains(#[trigger] self.spec_keys()[j]) by {
                lemma_pairs_map_at(self.entries@, j);
            }
        }
        out
    }
}

} // verus!
