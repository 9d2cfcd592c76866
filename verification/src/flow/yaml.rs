//! Parsed YAML values, as the flow logic reads them.
use vstd::prelude::*;
use crate::text::{owned, str_eq};

verus! {

/// A parsed YAML value. A mapping keeps its entries, keys and values, in order. A number
/// holds its value when it is an integer that fits `i64`, and in any case its text as YAML
/// writes it; a tagged value holds its tag's text.
#[derive(Debug)]
pub enum YamlValue {
    /// `null`.
    Null,
    /// A boolean.
    Bool(bool),
    /// A number: its value when it is an integer that fits `i64`, and its text.
    Number(Option<i64>, String),
    /// A string.
    String(String),
    /// A sequence.
    Sequence(Vec<YamlValue>),
    /// A mapping.
    Mapping(Vec<(YamlValue, YamlValue)>),
    /// A tagged value: the tag's text and the value.
    Tagged(String, Box<YamlValue>),
}

/// The value under any number of tags.
pub open spec fn untagged(v: YamlValue) -> YamlValue
    decreases v,
{
    match v {
        YamlValue::Tagged(_, inner) => untagged(*inner),
        _ => v,
    }
}

/// The entry is under the string key `key` (a plain string, as a string index of a
/// mapping finds it).
pub open spec fn has_key(e: (YamlValue, YamlValue), key: Seq<char>) -> bool {
    match e.0 {
        YamlValue::String(k) => k@ == key,
        _ => false,
    }
}

/// The position of the first entry of `entries` under the string key `key`, if any.
pub open spec fn key_position(entries: Seq<(YamlValue, YamlValue)>, key: Seq<char>) -> Option<int> {
    if exists|i: int| 0 <= i < entries.len() && has_key(entries[i], key) {
        Some(choose|i: int| 0 <= i < entries.len() && has_key(entries[i], key)
            && forall|j: int| 0 <= j < i ==> !has_key(#[trigger] entries[j], key))
    } else {
        None
    }
}

/// The value a mapping holds under the string key `key` (looking through tags).
pub open spec fn lookup(v: YamlValue, key: Seq<char>) -> Option<YamlValue> {
    match untagged(v) {
        YamlValue::Mapping(entries) => match key_position(entries@, key) {
            Some(i) => Some(entries@[i].1),
            None => None,
        },
        _ => None,
    }
}

/// The string a value holds (looking through tags).
pub open spec fn string_of(v: YamlValue) -> Option<Seq<char>> {
    match untagged(v) {
        YamlValue::String(s) => Some(s@),
        _ => None,
    }
}

/// The integer a value holds (looking through tags).
pub open spec fn int_of(v: YamlValue) -> Option<i64> {
    match untagged(v) {
        YamlValue::Number(n, _) => n,
        _ => None,
    }
}

/// The boolean a value holds (looking through tags).
pub open spec fn bool_of(v: YamlValue) -> Option<bool> {
    match untagged(v) {
        YamlValue::Bool(b) => Some(b),
        _ => None,
    }
}

/// The string a mapping holds under the string key `key`.
pub open spec fn string_at(v: YamlValue, key: Seq<char>) -> Option<Seq<char>> {
    match lookup(v, key) {
        Some(x) => string_of(x),
        None => None,
    }
}

/// The integer a mapping holds under the string key `key`.
pub open spec fn int_at(v: YamlValue, key: Seq<char>) -> Option<i64> {
    match lookup(v, key) {
        Some(x) => int_of(x),
        None => None,
    }
}

/// The boolean a mapping holds under the string key `key`.
pub open spec fn bool_at(v: YamlValue, key: Seq<char>) -> Option<bool> {
    match lookup(v, key) {
        Some(x) => bool_of(x),
        None => None,
    }
}

/// The value reached from `v` by looking up the keys of `path` in turn.
pub open spec fn nested(v: YamlValue, path: Seq<Seq<char>>) -> Option<YamlValue>
    decreases path.len(),
{
    if path.len() == 0 {
        Some(v)
    } else {
        match nested(v, path.drop_last()) {
            Some(x) => lookup(x, path.last()),
            None => None,
        }
    }
}

/// The nesting depth of a value: 1 for a scalar or a tagged value, one more than its
/// deepest element for a sequence or its deepest value for a mapping (1 when empty).
pub open spec fn depth(v: YamlValue) -> nat
    decreases v, 0nat,
{
    match v {
        YamlValue::Sequence(c) => 1 + elements_depth(c@, c@.len() as int),
        YamlValue::Mapping(c) => 1 + values_depth(c@, c@.len() as int),
        _ => 1,
    }
}

/// The greatest depth among the first `n` elements of `s` (0 when `n` is 0).
pub open spec fn elements_depth(s: Seq<YamlValue>, n: int) -> nat
    decreases s, n,
{
    if n <= 0 || n > s.len() {
        0
    } else {
        let rest = elements_depth(s, n - 1);
        let d = depth(s[n - 1]);
        if d > rest { d } else { rest }
    }
}

/// The greatest depth among the values of the first `n` entries of `s` (0 when `n` is 0).
pub open spec fn values_depth(s: Seq<(YamlValue, YamlValue)>, n: int) -> nat
    decreases s, n,
{
    if n <= 0 || n > s.len() {
        0
    } else {
        let rest = values_depth(s, n - 1);
        let d = depth(s[n - 1].1);
        if d > rest { d } else { rest }
    }
}

/// Two values hold the same YAML: the same kind, and the same scalar, text, elements,
/// entries (keys and values) or tagged value.
pub open spec fn same_yaml(a: YamlValue, b: YamlValue) -> bool
    decreases a, 0nat,
{
    match a {
        YamlValue::Null => b is Null,
        YamlValue::Bool(x) => b == YamlValue::Bool(x),
        YamlValue::Number(x, t) => match b {
            YamlValue::Number(y, u) => x == y && t@ == u@,
            _ => false,
        },
        YamlValue::String(s) => match b {
            YamlValue::String(t) => s@ == t@,
            _ => false,
        },
        YamlValue::Sequence(xs) => match b {
            YamlValue::Sequence(ys) => xs@.len() == ys@.len() && same_elements(xs@, ys@, xs@.len() as int),
            _ => false,
        },
        YamlValue::Mapping(xs) => match b {
            YamlValue::Mapping(ys) => xs@.len() == ys@.len() && same_entries(xs@, ys@, xs@.len() as int),
            _ => false,
        },
        YamlValue::Tagged(tx, x) => match b {
            YamlValue::Tagged(ty, y) => tx@ == ty@ && same_yaml(*x, *y),
            _ => false,
        },
    }
}

/// The first `n` elements of two sequences hold the same YAML, pairwise.
pub open spec fn same_elements(xs: Seq<YamlValue>, ys: Seq<YamlValue>, n: int) -> bool
    decreases xs, n,
{
    if n <= 0 || n > xs.len() {
        true
    } else {
        same_elements(xs, ys, n - 1) && same_yaml(xs[n - 1], ys[n - 1])
    }
}

/// The first `n` entries of two mappings have the same keys and hold the same YAML.
pub open spec fn same_entries(xs: Seq<(YamlValue, YamlValue)>, ys: Seq<(YamlValue, YamlValue)>, n: int) -> bool
    decreases xs, n,
{
    if n <= 0 || n > xs.len() {
        true
    } else {
        &&& same_entries(xs, ys, n - 1)
        &&& same_yaml(xs[n - 1].0, ys[n - 1].0)
        &&& same_yaml(xs[n - 1].1, ys[n - 1].1)
    }
}

impl YamlValue {

    /// A copy of this value.
    pub fn duplicate(&self) -> (r: YamlValue)
        ensures
            same_yaml(*self, r),
        decreases self,
    {
        match self {
            YamlValue::Null => YamlValue::Null,
            YamlValue::Bool(b) => YamlValue::Bool(*b),
            YamlValue::Number(n, t) => YamlValue::Number(*n, owned(t.as_str())),
            YamlValue::String(t) => YamlValue::String(owned(t.as_str())),
            YamlValue::Sequence(xs) => {
                let mut out: Vec<YamlValue> = Vec::new();
                let mut i: usize = 0;
                while i < xs.len()
                    invariant
                        *self == YamlValue::Sequence(*xs),
                        i <= xs@.len(),
                        out@.len() == i,
                        same_elements(xs@, out@, i as int),
                    decreases xs@.len() - i,
                {
                    proof {
                        assert(decreases_to!(*self => (*self)->Sequence_0));
                        assert(decreases_to!(*xs => xs@));
                        assert(decreases_to!(xs@ => xs@[i as int]));
                    }
                    let d = xs[i].duplicate();
                    let ghost before = out@;
                    out.push(d);
                    proof {
                        lemma_same_elements_extend(xs@, before, out@, i as int);
                    }
                    i = i + 1;
                }
                YamlValue::Sequence(out)
            },
            YamlValue::Mapping(xs) => {
                let mut out: Vec<(YamlValue, YamlValue)> = Vec::new();
                let mut i: usize = 0;
                while i < xs.len()
                    invariant
                        *self == YamlValue::Mapping(*xs),
                        i <= xs@.len(),
                        out@.len() == i,
                        same_entries(xs@, out@, i as int),
                    decreases xs@.len() - i,
                {
                    proof {
                        assert(decreases_to!(*self => (*self)->Mapping_0));
                        assert(decreases_to!(*xs => xs@));
                        assert(decreases_to!(xs@ => xs@[i as int]));
                        assert(decreases_to!(xs@[i as int] => xs@[i as int].1));
                        assert(decreases_to!(xs@[i as int] => xs@[i as int].0));
                    }
                    let d = xs[i].1.duplicate();
                    let k = xs[i].0.duplicate();
                    let ghost before = out@;
                    out.push((k, d));
                    proof {
                        lemma_same_entries_extend(xs@, before, out@, i as int);
                    }
                    i = i + 1;
                }
                YamlValue::Mapping(out)
            },
            YamlValue::Tagged(t, x) => YamlValue::Tagged(owned(t.as_str()), Box::new((**x).duplicate())),
        }
    }
    /// The value under any number of tags.
    pub fn untag(&self) -> (r: &YamlValue)
        ensures
            *r == untagged(*self),
        decreases self,
    {
        match self {
            YamlValue::Tagged(_, inner) => inner.untag(),
            _ => self,
        }
    }

    /// The value under a string key of a mapping (`None` for other values).
    pub fn get(&self, key: &str) -> (r: Option<&YamlValue>)
        ensures
            match lookup(*self, key@) {
                Some(v) => r matches Some(x) && *x == v,
                None => r is None,
            },
    {
        let u = self.untag();
        match u {
            YamlValue::Mapping(entries) => {
                assert(untagged(*self) == YamlValue::Mapping(*entries));
                let mut i: usize = 0;
                while i < entries.len()
                    invariant
                        i <= entries@.len(),
                        untagged(*self) == YamlValue::Mapping(*entries),
                        forall|j: int| 0 <= j < i ==> !has_key(#[trigger] entries@[j], key@),
                    decreases entries@.len() - i,
                {
                    match &entries[i].0 {
                        YamlValue::String(k) => {
                            if str_eq(k.as_str(), key) {
                                proof {
                                    assert(has_key(entries@[i as int], key@));
                                    let p = key_position(entries@, key@);
                                    assert(p == Some(i as int)) by {
                                        let c = choose|c: int| 0 <= c < entries@.len() && has_key(entries@[c], key@)
                                            && forall|j: int| 0 <= j < c ==> !has_key(#[trigger] entries@[j], key@);
                                        if c < i {
                                            assert(!has_key(entries@[c], key@));
                                        } else if c > i {
                                            assert(!has_key(entries@[i as int], key@));
                                        }
                                    }
                                }
                                assert(lookup(*self, key@) == Some(entries@[i as int].1));
                                return Some(&entries[i].1);
                            }
                        },
                        _ => {},
                    }
                    i = i + 1;
                }
                None
            },
            _ => None,
        }
    }

    /// The string this value holds.
    pub fn as_str(&self) -> (r: Option<&str>)
        ensures
            match string_of(*self) {
                Some(s) => r matches Some(x) && x@ == s,
                None => r is None,
            },
    {
        match self.untag() {
            YamlValue::String(s) => Some(s.as_str()),
            _ => None,
        }
    }

    /// The integer this value holds.
    pub fn as_i64(&self) -> (r: Option<i64>)
        ensures
            r == int_of(*self),
    {
        match self.untag() {
            YamlValue::Number(n, _) => *n,
            _ => None,
        }
    }

    /// The boolean this value holds.
    pub fn as_bool(&self) -> (r: Option<bool>)
        ensures
            r == bool_of(*self),
    {
        match self.untag() {
            YamlValue::Bool(b) => Some(*b),
            _ => None,
        }
    }
}

proof fn lemma_same_elements_extend(xs: Seq<YamlValue>, before: Seq<YamlValue>, after: Seq<YamlValue>, i: int)
    requires
        0 <= i < xs.len(),
        before.len() == i,
        after.len() == i + 1,
        forall|j: int| 0 <= j < i ==> after[j] == before[j],
        same_elements(xs, before, i),
        same_yaml(xs[i], after[i]),
    ensures
        same_elements(xs, after, i + 1),
    decreases i,
{
    lemma_same_elements_prefix(xs, before, after, i);
}

proof fn lemma_same_elements_prefix(xs: Seq<YamlValue>, before: Seq<YamlValue>, after: Seq<YamlValue>, n: int)
    requires
        0 <= n <= before.len(),
        before.len() <= after.len(),
        forall|j: int| 0 <= j < before.len() ==> after[j] == before[j],
        same_elements(xs, before, n),
    ensures
        same_elements(xs, after, n),
    decreases n,
{
    if n > 0 && n <= xs.len() {
        lemma_same_elements_prefix(xs, before, after, n - 1);
    }
}

proof fn lemma_same_entries_extend(
    xs: Seq<(YamlValue, YamlValue)>,
    before: Seq<(YamlValue, YamlValue)>,
    after: Seq<(YamlValue, YamlValue)>,
    i: int,
)
    requires
        0 <= i < xs.len(),
        before.len() == i,
        after.len() == i + 1,
        forall|j: int| 0 <= j < i ==> after[j] == before[j],
        same_entries(xs, before, i),
        same_yaml(xs[i].0, after[i].0),
        same_yaml(xs[i].1, after[i].1),
    ensures
        same_entries(xs, after, i + 1),
{
    lemma_same_entries_prefix(xs, before, after, i);
}

proof fn lemma_same_entries_prefix(
    xs: Seq<(YamlValue, YamlValue)>,
    before: Seq<(YamlValue, YamlValue)>,
    after: Seq<(YamlValue, YamlValue)>,
    n: int,
)
    requires
        0 <= n <= before.len(),
        before.len() <= after.len(),
        forall|j: int| 0 <= j < before.len() ==> after[j] == before[j],
        same_entries(xs, before, n),
    ensures
        same_entries(xs, after, n),
    decreases n,
{
    if n > 0 && n <= xs.len() {
        lemma_same_entries_prefix(xs, before, after, n - 1);
    }
}

} // verus!
