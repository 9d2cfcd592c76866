//! Migrations between schema versions, and the registry that finds chains of them.
//!
//! A migration is an edge from one schema hash to another; the registry finds the
//! shortest chain of registered migrations between two hashes by breadth-first search.
use vstd::prelude::*;
use vstd::set_lib::lemma_len_subset;
use super::version::{SchemaVersion, parsed_version};
use crate::text::{chars_of, decimal_text, owned, push_char, string_of, u64_text};
use crate::error::XervError;

verus! {

/// The part of `s` after its last `c` (all of `s` when it has none).
pub open spec fn after_last(s: Seq<char>, c: char) -> Seq<char>
    decreases s.len(),
{
    if s.len() == 0 {
        s
    } else if s.last() == c {
        Seq::empty()
    } else {
        after_last(s.drop_last(), c).push(s.last())
    }
}

/// The version that a schema name such as `"OrderInput@v1"` carries after its last `@`.
pub open spec fn name_version(name: Seq<char>) -> Option<SchemaVersion> {
    parsed_version(after_last(name, '@'))
}

/// `after_last` is the suffix after position `i` when `i` holds the last `c`.
proof fn lemma_after_last(s: Seq<char>, c: char, i: int)
    requires
        -1 <= i < s.len(),
        i >= 0 ==> s[i] == c,
        forall|j: int| i < j < s.len() ==> s[j] != c,
    ensures
        after_last(s, c) == s.skip(i + 1),
    decreases s.len(),
{
    if s.len() > 0 {
        if s.last() == c {
            assert(i == s.len() - 1);
            assert(s.skip(i + 1) =~= Seq::<char>::empty());
        } else {
            lemma_after_last(s.drop_last(), c, i);
            assert(s.skip(i + 1) =~= s.drop_last().skip(i + 1).push(s.last()));
        }
    } else {
        assert(s.skip(i + 1) =~= s);
    }
}

/// Extract the version from a schema name like `"OrderInput@v1"`: the text after the
/// last `@` (the whole name when it has none), parsed as a version.
pub fn extract_version(schema_name: &str) -> (r: Option<SchemaVersion>)
    ensures
        r == name_version(schema_name@),
{
    let cs = chars_of(schema_name);
    let n = cs.len();
    let mut i = n;
    while i > 0 && cs[i - 1] != '@'
        invariant
            i <= n,
            n == cs@.len(),
            forall|j: int| i <= j < n ==> cs@[j] != '@',
        decreases i,
    {
        i = i - 1;
    }
    proof {
        lemma_after_last(cs@, '@', i - 1);
    }
    let mut tail: Vec<char> = Vec::new();
    let mut k = i;
    while k < n
        invariant
            i <= k <= n,
            n == cs@.len(),
            tail@ == cs@.subrange(i as int, k as int),
        decreases n - k,
    {
        tail.push(cs[k]);
        proof {
            assert(cs@.subrange(i as int, k + 1) =~= cs@.subrange(i as int, k as int).push(cs@[k as int]));
        }
        k = k + 1;
    }
    assert(tail@ =~= cs@.skip(i as int));
    let text = string_of(&tail);
    SchemaVersion::parse(text.as_str())
}

/// The default version (1.0) when a name carries none.
pub open spec fn version_or_default(v: Option<SchemaVersion>) -> SchemaVersion {
    match v {
        Some(v) => v,
        None => SchemaVersion { major: 1, minor: 0 },
    }
}

/// A registered migration between schema versions, carrying its transform `F`.
pub struct Migration<F> {
    /// Source schema name with version (e.g., "OrderInput@v1").
    pub from_schema: String,
    /// Source schema hash.
    pub from_hash: u64,
    /// Target schema name with version (e.g., "OrderInput@v2").
    pub to_schema: String,
    /// Target schema hash.
    pub to_hash: u64,
    /// Source version.
    pub from_version: SchemaVersion,
    /// Target version.
    pub to_version: SchemaVersion,
    /// The transform.
    pub transform: F,
    /// Human-readable description of what this migration does.
    pub description: String,
}

impl<F> Migration<F> {
    /// A new migration; the versions are read from the schema names (1.0 when a name
    /// carries none), and the description is empty.
    pub fn new(from_schema: &str, from_hash: u64, to_schema: &str, to_hash: u64, transform: F) -> (r: Self)
        ensures
            r.from_schema@ == from_schema@,
            r.from_hash == from_hash,
            r.to_schema@ == to_schema@,
            r.to_hash == to_hash,
            r.from_version == version_or_default(name_version(from_schema@)),
            r.to_version == version_or_default(name_version(to_schema@)),
            r.transform == transform,
            r.description@ == Seq::<char>::empty(),
    {
        let from_version = match extract_version(from_schema) {
            Some(v) => v,
            None => SchemaVersion::new(1, 0),
        };
        let to_version = match extract_version(to_schema) {
            Some(v) => v,
            None => SchemaVersion::new(1, 0),
        };
        Migration {
            from_schema: owned(from_schema),
            from_hash,
            to_schema: owned(to_schema),
            to_hash,
            from_version,
            to_version,
            transform,
            description: String::new(),
        }
    }

    /// Add a description to this migration.
    pub fn with_description(self, description: &str) -> (r: Self)
        ensures
            r.from_schema == self.from_schema,
            r.from_hash == self.from_hash,
            r.to_schema == self.to_schema,
            r.to_hash == self.to_hash,
            r.from_version == self.from_version,
            r.to_version == self.to_version,
            r.transform == self.transform,
            r.description@ == description@,
    {
        Migration { description: owned(description), ..self }
    }
}

/// Step `i` of `p` leads on to step `i + 1`.
pub open spec fn linked(es: Seq<(u64, u64)>, p: Seq<int>, i: int) -> bool {
    es[p[i]].1 == es[p[i + 1]].0
}

/// `p` is a chain of edges of `es` (by position) leading from `a` to `b`; the empty
/// chain leads from a node to itself.
pub open spec fn is_path(es: Seq<(u64, u64)>, a: u64, b: u64, p: Seq<int>) -> bool {
    &&& forall|i: int| 0 <= i < p.len() ==> 0 <= #[trigger] p[i] < es.len()
    &&& (p.len() == 0 ==> a == b)
    &&& (p.len() > 0 ==> es[p[0]].0 == a && es[p[p.len() - 1]].1 == b)
    &&& forall|i: int| 0 <= i < p.len() - 1 ==> #[trigger] linked(es, p, i)
}

/// Some chain of edges of `es` leads from `a` to `b`.
pub open spec fn reachable(es: Seq<(u64, u64)>, a: u64, b: u64) -> bool {
    exists|p: Seq<int>| is_path(es, a, b, p)
}

/// Chains compose: a chain from `a` to `b` followed by one from `b` to `c` leads from `a`
/// to `c`; and every node reaches itself.
pub proof fn lemma_reachable_trans(es: Seq<(u64, u64)>, a: u64, b: u64, c: u64)
    ensures
        reachable(es, a, a),
        reachable(es, a, b) && reachable(es, b, c) ==> reachable(es, a, c),
{
    assert(is_path(es, a, a, Seq::<int>::empty()));
    if reachable(es, a, b) && reachable(es, b, c) {
        let p1 = choose|p: Seq<int>| is_path(es, a, b, p);
        let p2 = choose|p: Seq<int>| is_path(es, b, c, p);
        let q = p1 + p2;
        if p1.len() == 0 {
            assert(q =~= p2);
        } else if p2.len() == 0 {
            assert(q =~= p1);
        } else {
            assert forall|i: int| 0 <= i < q.len() implies 0 <= #[trigger] q[i] < es.len() by {
                if i < p1.len() {
                    assert(q[i] == p1[i]);
                } else {
                    assert(q[i] == p2[i - p1.len()]);
                }
            }
            assert forall|i: int| 0 <= i < q.len() - 1 implies #[trigger] linked(es, q, i) by {
                if i < p1.len() - 1 {
                    assert(linked(es, p1, i));
                } else if i == p1.len() - 1 {
                } else {
                    assert(linked(es, p2, i - p1.len()));
                }
            }
            assert(is_path(es, a, c, q));
        }
    }
}

/// The positions of a path, as integers.
pub open spec fn as_ints(p: Seq<usize>) -> Seq<int> {
    p.map_values(|x: usize| x as int)
}

/// A chain extended by an edge out of its end is a chain to that edge's target.
proof fn lemma_path_push(es: Seq<(u64, u64)>, a: u64, x: u64, p: Seq<int>, e: int)
    requires
        is_path(es, a, x, p),
        0 <= e < es.len(),
        es[e].0 == x,
    ensures
        is_path(es, a, es[e].1, p.push(e)),
{
    let q = p.push(e);
    assert forall|i: int| 0 <= i < q.len() - 1 implies #[trigger] linked(es, q, i) by {
        if i < p.len() - 1 {
            assert(linked(es, p, i));
        }
    }
}

/// A set of nodes closed under the edges holds every node reachable from its members.
proof fn lemma_closed_reach(es: Seq<(u64, u64)>, nodes: Seq<u64>, a: u64, b: u64, p: Seq<int>)
    requires
        is_path(es, a, b, p),
        nodes.contains(a),
        forall|e: int| 0 <= e < es.len() && nodes.contains(#[trigger] es[e].0) ==> nodes.contains(es[e].1),
    ensures
        nodes.contains(b),
    decreases p.len(),
{
    if p.len() > 0 {
        let n = p.len();
        let q = p.drop_last();
        let mid = es[p[n - 1]].0;
        if n > 1 {
            assert(linked(es, p, n - 2));
            assert forall|i: int| 0 <= i < q.len() - 1 implies #[trigger] linked(es, q, i) by {
                assert(linked(es, p, i));
            }
        }
        assert(is_path(es, a, mid, q));
        lemma_closed_reach(es, nodes, a, mid, q);
        assert(0 <= p[n - 1] < es.len());
    }
}

/// Distinct nodes, each the start or the target of an edge, number at most the edges
/// plus one.
proof fn lemma_node_bound(es: Seq<(u64, u64)>, from: u64, nodes: Seq<u64>)
    requires
        nodes.no_duplicates(),
        forall|k: int| 0 <= k < nodes.len() ==> nodes[k] == from || exists|e: int| 0 <= e < es.len() && es[e].1 == #[trigger] nodes[k],
    ensures
        nodes.len() <= es.len() + 1,
{
    let tgt = es.map_values(|x: (u64, u64)| x.1).push(from);
    assert forall|x: u64| nodes.to_set().contains(x) implies tgt.to_set().contains(x) by {
        let k = choose|k: int| 0 <= k < nodes.len() && nodes[k] == x;
        if nodes[k] == from {
            assert(tgt[es.len() as int] == x);
        } else {
            let e = choose|e: int| 0 <= e < es.len() && es[e].1 == nodes[k];
            assert(tgt[e] == x);
        }
    }
    tgt.lemma_cardinality_of_set();
    nodes.unique_seq_to_set();
    vstd::seq_lib::seq_to_set_is_finite(tgt);
    lemma_len_subset(nodes.to_set(), tgt.to_set());
}

/// Whether `v` holds `x`.
fn holds(v: &Vec<u64>, x: u64) -> (r: bool)
    ensures
        r == v@.contains(x),
{
    let mut i: usize = 0;
    while i < v.len()
        invariant
            i <= v@.len(),
            forall|j: int| 0 <= j < i ==> v@[j] != x,
        decreases v@.len() - i,
    {
        if v[i] == x {
            return true;
        }
        i = i + 1;
    }
    false
}

/// A chain that is not empty ends with an edge out of the node that the rest of it reaches.
proof fn lemma_path_last(es: Seq<(u64, u64)>, a: u64, b: u64, p: Seq<int>)
    requires
        is_path(es, a, b, p),
        p.len() > 0,
    ensures
        0 <= p.last() < es.len(),
        es[p.last()].1 == b,
        is_path(es, a, es[p.last()].0, p.drop_last()),
{
    let n = p.len();
    let q = p.drop_last();
    assert(0 <= p[n - 1] < es.len());
    if n > 1 {
        assert(linked(es, p, n - 2));
        assert forall|i: int| 0 <= i < q.len() - 1 implies #[trigger] linked(es, q, i) by {
            assert(linked(es, p, i));
        }
    }
}

/// Search state: the recorded chains grow no shorter along `nodes`, and each recorded
/// chain is as short as any chain to its node.
pub open spec fn bfs_levels(g: Seq<(u64, u64)>, from: u64, nodes: Seq<u64>, lens: Seq<int>) -> bool {
    &&& lens.len() == nodes.len()
    &&& forall|i: int, j: int| 0 <= i <= j < lens.len() ==> #[trigger] lens[i] <= #[trigger] lens[j]
    &&& forall|k: int, q: Seq<int>| 0 <= k < nodes.len() && #[trigger] is_path(g, from, nodes[k], q) ==> lens[k] <= q.len()
}

/// Search state at `head`: every node that a chain shorter than the chain recorded at
/// `head` reaches is among the first `head` nodes.
pub open spec fn bfs_frontier(g: Seq<(u64, u64)>, from: u64, nodes: Seq<u64>, lens: Seq<int>, head: int) -> bool {
    head < nodes.len() ==> forall|z: u64, q: Seq<int>| #[trigger] is_path(g, from, z, q) && q.len() < lens[head]
        ==> exists|k: int| 0 <= k < head && nodes[k] == z
}

/// The lengths of the recorded chains.
pub open spec fn chain_lens(paths: Seq<Vec<usize>>) -> Seq<int> {
    paths.map_values(|p: Vec<usize>| p@.len() as int)
}

/// A node that no processed node leads to, and that is not the start, has no chain to it
/// as short as one more than the level of `head`.
proof fn lemma_unseen_far(g: Seq<(u64, u64)>, from: u64, nodes: Seq<u64>, lens: Seq<int>, head: int, b: u64, q: Seq<int>)
    requires
        0 <= head < nodes.len(),
        nodes[0] == from,
        b != from,
        bfs_frontier(g, from, nodes, lens, head),
        forall|k: int, f: int| 0 <= k < head && 0 <= f < g.len() && g[f].0 == #[trigger] nodes[k] ==> nodes.contains(#[trigger] g[f].1),
        !nodes.contains(b),
        is_path(g, from, b, q),
    ensures
        q.len() >= lens[head] + 1,
{
    if q.len() < lens[head] + 1 {
        assert(q.len() > 0);
        lemma_path_last(g, from, b, q);
        let y = g[q.last()].0;
        assert(is_path(g, from, y, q.drop_last()));
        let k = choose|k: int| 0 <= k < head && nodes[k] == y;
        assert(g[q.last()].0 == nodes[k]);
        assert(nodes.contains(g[q.last()].1));
    }
}

/// Advancing `head` keeps the frontier: the nodes at the level of `head` are all found
/// by the time `head` has been processed.
proof fn lemma_advance(g: Seq<(u64, u64)>, from: u64, nodes: Seq<u64>, lens: Seq<int>, head: int)
    requires
        0 <= head,
        head + 1 < nodes.len(),
        nodes[0] == from,
        lens[0] == 0,
        bfs_levels(g, from, nodes, lens),
        lens[nodes.len() - 1] <= lens[head] + 1,
        bfs_frontier(g, from, nodes, lens, head),
        forall|k: int, f: int| 0 <= k <= head && 0 <= f < g.len() && g[f].0 == #[trigger] nodes[k] ==> nodes.contains(#[trigger] g[f].1),
    ensures
        bfs_frontier(g, from, nodes, lens, head + 1),
{
    assert forall|z: u64, q: Seq<int>| #[trigger] is_path(g, from, z, q) && q.len() < lens[head + 1]
        implies exists|k: int| 0 <= k < head + 1 && nodes[k] == z by {
        assert(lens[head + 1] <= lens[nodes.len() - 1]);
        if q.len() < lens[head] {
        } else if q.len() == 0 {
            assert(z == from);
            assert(nodes[0] == z);
        } else {
            lemma_path_last(g, from, z, q);
            let y = g[q.last()].0;
            assert(is_path(g, from, y, q.drop_last()));
            let k = choose|k: int| 0 <= k < head && nodes[k] == y;
            assert(g[q.last()].0 == nodes[k]);
            assert(nodes.contains(z));
            let j = choose|j: int| 0 <= j < nodes.len() && nodes[j] == z;
            assert(is_path(g, from, nodes[j], q));
            assert(lens[j] <= q.len());
            if j >= head + 1 {
                assert(lens[head + 1] <= lens[j]);
            }
        }
    }
}

/// A shortest chain of edges from `from` to `to`, by breadth-first search: the edges
/// out of each node are tried in their order in `es`.
pub fn shortest_path(es: &Vec<(u64, u64)>, from: u64, to: u64) -> (r: Option<Vec<usize>>)
    requires
        es@.len() < usize::MAX,
    ensures
        r is Some <==> reachable(es@, from, to),
        r matches Some(p) ==> is_path(es@, from, to, as_ints(p@)),
        r matches Some(p) ==> forall|q: Seq<int>| #[trigger] is_path(es@, from, to, q) ==> p@.len() <= q.len(),
{
    if from == to {
        let p: Vec<usize> = Vec::new();
        assert(as_ints(p@) =~= Seq::<int>::empty());
        assert(is_path(es@, from, to, as_ints(p@)));
        return Some(p);
    }
    let ghost g = es@;
    let mut nodes: Vec<u64> = vec![from];
    let mut paths: Vec<Vec<usize>> = vec![Vec::new()];
    let mut head: usize = 0;
    proof {
        assert(as_ints(paths@[0]@) =~= Seq::<int>::empty());
        assert(nodes@.no_duplicates());
        assert(bfs_levels(g, from, nodes@, chain_lens(paths@)));
        assert(bfs_frontier(g, from, nodes@, chain_lens(paths@), 0));
    }
    while head < nodes.len()
        invariant
            g == es@,
            g.len() < usize::MAX,
            from != to,
            nodes@.len() == paths@.len(),
            nodes@.len() >= 1,
            nodes@[0] == from,
            paths@[0]@.len() == 0,
            head <= nodes@.len(),
            nodes@.no_duplicates(),
            !nodes@.contains(to),
            forall|k: int| 0 <= k < nodes@.len() ==> is_path(g, from, #[trigger] nodes@[k], as_ints(paths@[k]@)),
            forall|k: int, e: int|
                0 <= k < head && 0 <= e < g.len() && g[e].0 == #[trigger] nodes@[k] ==> nodes@.contains(#[trigger] g[e].1),
            nodes@.len() <= g.len() + 1,
            bfs_levels(g, from, nodes@, chain_lens(paths@)),
            head < nodes@.len() ==> chain_lens(paths@)[nodes@.len() - 1] <= chain_lens(paths@)[head as int] + 1,
            bfs_frontier(g, from, nodes@, chain_lens(paths@), head as int),
        decreases g.len() + 1 - head,
    {
        let current = nodes[head];
        let mut e: usize = 0;
        while e < es.len()
            invariant
                g == es@,
                g.len() < usize::MAX,
                from != to,
                nodes@.len() == paths@.len(),
                nodes@.len() >= 1,
                nodes@[0] == from,
                paths@[0]@.len() == 0,
                head < nodes@.len(),
                current == nodes@[head as int],
                e <= g.len(),
                nodes@.no_duplicates(),
                !nodes@.contains(to),
                forall|k: int| 0 <= k < nodes@.len() ==> is_path(g, from, #[trigger] nodes@[k], as_ints(paths@[k]@)),
                forall|k: int, f: int|
                    0 <= k < head && 0 <= f < g.len() && g[f].0 == #[trigger] nodes@[k] ==> nodes@.contains(#[trigger] g[f].1),
                forall|f: int| 0 <= f < e && g[f].0 == current ==> nodes@.contains(#[trigger] g[f].1),
                nodes@.len() <= g.len() + 1,
                bfs_levels(g, from, nodes@, chain_lens(paths@)),
                chain_lens(paths@)[nodes@.len() - 1] <= chain_lens(paths@)[head as int] + 1,
                bfs_frontier(g, from, nodes@, chain_lens(paths@), head as int),
            decreases g.len() - e,
        {
            let (a, b) = es[e];
            if a == current {
                if b == to {
                    let mut p = paths[head].clone();
                    proof {
                        assert(p@ == paths@[head as int]@);
                        assert(is_path(g, from, current, as_ints(p@)));
                        lemma_path_push(g, from, current, as_ints(p@), e as int);
                    }
                    let ghost level = chain_lens(paths@)[head as int];
                    p.push(e);
                    assert(as_ints(p@) =~= as_ints(paths@[head as int]@).push(e as int));
                    proof {
                        assert forall|q: Seq<int>| #[trigger] is_path(es@, from, to, q) implies p@.len() <= q.len() by {
                            assert(q.len() > 0);
                            lemma_path_last(g, from, to, q);
                            let y = g[q.last()].0;
                            assert(is_path(g, from, y, q.drop_last()));
                            if q.len() < level + 1 {
                                let k = choose|k: int| 0 <= k < head && nodes@[k] == y;
                                assert(g[q.last()].0 == nodes@[k]);
                                assert(nodes@.contains(g[q.last()].1));
                            }
                        }
                    }
                    return Some(p);
                }
                if !holds(&nodes, b) {
                    let mut p = paths[head].clone();
                    proof {
                        assert(p@ == paths@[head as int]@);
                        lemma_path_push(g, from, current, as_ints(p@), e as int);
                    }
                    p.push(e);
                    assert(as_ints(p@) =~= as_ints(paths@[head as int]@).push(e as int));
                    let ghost old_nodes = nodes@;
                    let ghost old_paths = paths@;
                    let ghost old_lens = chain_lens(paths@);
                    proof {
                        assert(b != from);
                        assert forall|q: Seq<int>| #[trigger] is_path(g, from, b, q) implies q.len() >= old_lens[head as int] + 1 by {
                            lemma_unseen_far(g, from, old_nodes, old_lens, head as int, b, q);
                        }
                    }
                    nodes.push(b);
                    paths.push(p);
                    proof {
                        let lens = chain_lens(paths@);
                        assert(lens =~= old_lens.push(old_lens[head as int] + 1));
                        assert(nodes@.no_duplicates()) by {
                            assert forall|i: int, j: int| 0 <= i < nodes@.len() && 0 <= j < nodes@.len() && i != j implies nodes@[i] != nodes@[j] by {
                                if i < old_nodes.len() && j < old_nodes.len() {
                                    assert(old_nodes[i] != old_nodes[j]);
                                } else if i < old_nodes.len() {
                                    assert(old_nodes.contains(old_nodes[i]));
                                } else {
                                    assert(old_nodes.contains(old_nodes[j]));
                                }
                            }
                        }
                        assert forall|x: u64| old_nodes.contains(x) implies nodes@.contains(x) by {
                            let i = choose|i: int| 0 <= i < old_nodes.len() && old_nodes[i] == x;
                            assert(nodes@[i] == x);
                        }
                        assert(nodes@[old_nodes.len() as int] == b);
                        assert forall|k: int| 0 <= k < nodes@.len() implies is_path(g, from, #[trigger] nodes@[k], as_ints(paths@[k]@)) by {
                            if k < old_nodes.len() {
                                assert(nodes@[k] == old_nodes[k]);
                                assert(paths@[k] == old_paths[k]);
                            }
                        }
                        assert forall|k: int| 0 <= k < nodes@.len() implies nodes@[k] == from || exists|f: int| 0 <= f < g.len() && g[f].1 == #[trigger] nodes@[k] by {
                            let q = as_ints(paths@[k]@);
                            assert(is_path(g, from, nodes@[k], q));
                            if q.len() > 0 {
                                assert(0 <= q[q.len() - 1] < g.len());
                            }
                        }
                        lemma_node_bound(g, from, nodes@);
                        assert forall|i: int, j: int| 0 <= i <= j < lens.len() implies #[trigger] lens[i] <= #[trigger] lens[j] by {
                            if j == lens.len() - 1 && i < j {
                                assert(old_lens[i] <= old_lens[old_lens.len() - 1]);
                            }
                        }
                        assert forall|k: int, q: Seq<int>| 0 <= k < nodes@.len() && #[trigger] is_path(g, from, nodes@[k], q)
                            implies lens[k] <= q.len() by {
                            if k < old_nodes.len() {
                                assert(nodes@[k] == old_nodes[k]);
                            }
                        }
                        assert(bfs_levels(g, from, nodes@, lens));
                        assert forall|z: u64, q: Seq<int>| #[trigger] is_path(g, from, z, q) && q.len() < lens[head as int]
                            implies exists|k: int| 0 <= k < head && nodes@[k] == z by {
                            let k = choose|k: int| 0 <= k < head && old_nodes[k] == z;
                            assert(nodes@[k] == z);
                        }
                    }
                }
            }
            e = e + 1;
        }
        proof {
            if head + 1 < nodes@.len() {
                lemma_advance(g, from, nodes@, chain_lens(paths@), head as int);
                assert(chain_lens(paths@)[head + 1] >= chain_lens(paths@)[head as int]);
            }
        }
        head = head + 1;
    }
    proof {
        if reachable(g, from, to) {
            let p = choose|p: Seq<int>| is_path(g, from, to, p);
            assert forall|f: int| 0 <= f < g.len() && nodes@.contains(#[trigger] g[f].0) implies nodes@.contains(g[f].1) by {
                let k = choose|k: int| 0 <= k < nodes@.len() && nodes@[k] == g[f].0;
                assert(g[f].0 == nodes@[k]);
            }
            assert(nodes@[0] == from);
            lemma_closed_reach(g, nodes@, from, to, p);
        }
    }
    None
}

/// The schema hashes a migration leads from and to.
pub open spec fn migration_edge<F>(m: Migration<F>) -> (u64, u64) {
    (m.from_hash, m.to_hash)
}

/// The migrations that `active` points at, in order.
pub open spec fn active_migrations<F>(ms: Seq<Migration<F>>, active: Seq<usize>) -> Seq<Migration<F>> {
    active.map_values(|i: usize| ms[i as int])
}

/// The edges of the migrations that `active` points at, in order.
pub open spec fn active_edges<F>(ms: Seq<Migration<F>>, active: Seq<usize>) -> Seq<(u64, u64)> {
    active.map_values(|i: usize| migration_edge(ms[i as int]))
}

/// `v` is a chain of migrations from hash `a` to hash `b`: each leads to the next one's
/// source; the empty chain leads from a hash to itself.
pub open spec fn migration_chain<F>(v: Seq<Migration<F>>, a: u64, b: u64) -> bool {
    &&& (v.len() == 0 ==> a == b)
    &&& (v.len() > 0 ==> v[0].from_hash == a && v[v.len() - 1].to_hash == b)
    &&& forall|i: int| 0 <= i < v.len() - 1 ==> #[trigger] v[i].to_hash == v[i + 1].from_hash
}

/// Registry of schema migrations: every migration ever registered (a replaced one in
/// place), and the list of those in force, in the order they were added.
pub struct MigrationRegistry<F> {
    migrations: Vec<Migration<F>>,
    active: Vec<usize>,
}

impl<F> MigrationRegistry<F> {
    /// Every migration registered, in order (including unregistered ones).
    pub closed spec fn spec_migrations(&self) -> Seq<Migration<F>> {
        self.migrations@
    }

    /// The positions, in `spec_migrations`, of the migrations in force, in the order
    /// they were added.
    pub closed spec fn spec_active(&self) -> Seq<usize> {
        self.active@
    }

    /// The migrations in force, in the order they were added.
    pub open spec fn spec_in_force(&self) -> Seq<Migration<F>> {
        active_migrations(self.spec_migrations(), self.spec_active())
    }

    /// The edges (source hash, target hash) of the migrations in force.
    pub open spec fn spec_edges(&self) -> Seq<(u64, u64)> {
        active_edges(self.spec_migrations(), self.spec_active())
    }

    /// The registry's invariant: the positions in force are distinct and valid, and no
    /// two migrations in force share a source and target hash.
    pub closed spec fn wf(&self) -> bool {
        &&& self.migrations@.len() < usize::MAX
        &&& self.active@.len() <= self.migrations@.len()
        &&& forall|j: int| 0 <= j < self.active@.len() ==> (#[trigger] self.active@[j]) < self.migrations@.len()
        &&& forall|i: int, j: int| 0 <= i < self.active@.len() && 0 <= j < self.active@.len() && i != j
            ==> self.active@[i] != self.active@[j]
        &&& forall|i: int, j: int| 0 <= i < self.active@.len() && 0 <= j < self.active@.len() && i != j
            ==> migration_edge(self.migrations@[self.active@[i] as int]) != migration_edge(self.migrations@[self.active@[j] as int])
    }

    /// Under the invariant, at most one migration in force leads between any two hashes:
    /// two positions in force with the same source and target hash are the same position.
    pub proof fn lemma_one_in_force_per_pair(&self, i: int, j: int)
        requires
            self.wf(),
            0 <= i < self.spec_active().len(),
            0 <= j < self.spec_active().len(),
            self.spec_edges()[i] == self.spec_edges()[j],
        ensures
            i == j,
    {
        if i != j {
            assert(self.spec_edges()[i] == migration_edge(self.migrations@[self.active@[i] as int]));
            assert(self.spec_edges()[j] == migration_edge(self.migrations@[self.active@[j] as int]));
        }
    }

    /// Once `m` is in force (as `register` leaves it), it is the migration in force between
    /// its hashes: any position in force with its source and target holds `m`, so
    /// `find_direct` on those hashes answers `m`.
    pub proof fn lemma_registered_is_found(&self, m: Migration<F>)
        requires
            self.wf(),
            exists|j: int| 0 <= j < self.spec_active().len()
                && self.spec_edges()[j] == migration_edge(m) && self.spec_in_force()[j] == m,
        ensures
            forall|k: int| 0 <= k < self.spec_active().len() && #[trigger] self.spec_edges()[k] == migration_edge(m)
                ==> self.spec_in_force()[k] == m,
    {
        let j = choose|j: int| 0 <= j < self.spec_active().len()
            && self.spec_edges()[j] == migration_edge(m) && self.spec_in_force()[j] == m;
        assert forall|k: int| 0 <= k < self.spec_active().len() && #[trigger] self.spec_edges()[k] == migration_edge(m)
            implies self.spec_in_force()[k] == m by {
            self.lemma_one_in_force_per_pair(j, k);
        }
    }

    /// Once `m` is in force between two different hashes (as `register` leaves it), the
    /// shortest chains between them are exactly one step long, and every one-step chain is
    /// `m`: `find_path` on those hashes answers `[m]`.
    pub proof fn lemma_registered_path(&self, m: Migration<F>)
        requires
            self.wf(),
            exists|j: int| 0 <= j < self.spec_active().len()
                && self.spec_edges()[j] == migration_edge(m) && self.spec_in_force()[j] == m,
            m.from_hash != m.to_hash,
        ensures
            is_path(self.spec_edges(), m.from_hash, m.to_hash, seq![
                choose|j: int| 0 <= j < self.spec_active().len()
                    && self.spec_edges()[j] == migration_edge(m) && self.spec_in_force()[j] == m,
            ]),
            forall|p: Seq<int>| #[trigger] is_path(self.spec_edges(), m.from_hash, m.to_hash, p) ==> p.len() >= 1,
            forall|p: Seq<int>| #[trigger] is_path(self.spec_edges(), m.from_hash, m.to_hash, p) && p.len() == 1
                ==> self.spec_in_force()[p[0]] == m,
    {
        let j = choose|j: int| 0 <= j < self.spec_active().len()
            && self.spec_edges()[j] == migration_edge(m) && self.spec_in_force()[j] == m;
        let p1 = seq![j];
        assert(self.spec_edges().len() == self.spec_active().len());
        assert(p1[0] == j);
        assert(is_path(self.spec_edges(), m.from_hash, m.to_hash, p1));
        self.lemma_registered_is_found(m);
        assert forall|p: Seq<int>| #[trigger] is_path(self.spec_edges(), m.from_hash, m.to_hash, p) && p.len() == 1
            implies self.spec_in_force()[p[0]] == m by {
            assert(0 <= p[0] < self.spec_edges().len());
            assert(self.spec_edges()[p[0]] == migration_edge(m));
        }
    }

    /// Create a new empty registry.
    pub fn new() -> (r: Self)
        ensures
            r.wf(),
            r.spec_migrations().len() == 0,
            r.spec_active().len() == 0,
    {
        MigrationRegistry { migrations: Vec::new(), active: Vec::new() }
    }

    /// The position in `active` of the migration in force from `from` to `to`.
    fn find_active(&self, from_hash: u64, to_hash: u64) -> (r: Option<usize>)
        requires
            self.wf(),
        ensures
            r matches Some(j) ==> j < self.spec_active().len() && self.spec_edges()[j as int] == (from_hash, to_hash),
            r is None ==> forall|j: int| 0 <= j < self.spec_active().len() ==> self.spec_edges()[j] != (from_hash, to_hash),
    {
        let mut j: usize = 0;
        while j < self.active.len()
            invariant
                self.wf(),
                j <= self.active@.len(),
                forall|k: int| 0 <= k < j ==> self.spec_edges()[k] != (from_hash, to_hash),
            decreases self.active@.len() - j,
        {
            let m = &self.migrations[self.active[j]];
            if m.from_hash == from_hash && m.to_hash == to_hash {
                return Some(j);
            }
            j = j + 1;
        }
        None
    }

    /// Register a migration; one between the same hashes that is in force is replaced.
    pub fn register(&mut self, migration: Migration<F>) -> (r: Result<(), crate::error::XervError>)
        requires
            old(self).wf(),
            old(self).spec_migrations().len() + 1 < usize::MAX,
        ensures
            r is Ok,
            final(self).wf(),
            exists|j: int| 0 <= j < final(self).spec_active().len()
                && final(self).spec_edges()[j] == migration_edge(migration)
                && final(self).spec_in_force()[j] == migration,
            ({
                let ms = old(self).spec_migrations();
                let act = old(self).spec_active();
                if exists|j: int| 0 <= j < act.len() && old(self).spec_edges()[j] == migration_edge(migration) {
                    &&& final(self).spec_active() == act
                    &&& exists|j: int| 0 <= j < act.len() && old(self).spec_edges()[j] == migration_edge(migration)
                        && final(self).spec_migrations() == ms.update(act[j] as int, migration)
                } else {
                    &&& final(self).spec_migrations() == ms.push(migration)
                    &&& final(self).spec_active() == act.push(ms.len() as usize)
                }
            }),
    {
        let ghost key = migration_edge(migration);
        match self.find_active(migration.from_hash, migration.to_hash) {
            Some(j) => {
                let idx = self.active[j];
                let ghost before = self.migrations@;
                self.migrations.set(idx, migration);
                proof {
                    assert forall|i: int, k: int| 0 <= i < self.active@.len() && 0 <= k < self.active@.len() && i != k
                        implies migration_edge(self.migrations@[self.active@[i] as int]) != migration_edge(self.migrations@[self.active@[k] as int]) by {
                        assert(self.spec_edges()[i] == migration_edge(self.migrations@[self.active@[i] as int]));
                        if self.active@[i] != idx {
                            assert(self.migrations@[self.active@[i] as int] == before[self.active@[i] as int]);
                        }
                        if self.active@[k] != idx {
                            assert(self.migrations@[self.active@[k] as int] == before[self.active@[k] as int]);
                        }
                    }
                    assert(old(self).spec_edges()[j as int] == key);
                    assert(self.spec_in_force()[j as int] == migration);
                    assert(self.spec_edges()[j as int] == key);
                }
                Ok(())
            },
            None => {
                let idx = self.migrations.len();
                self.migrations.push(migration);
                self.active.push(idx);
                proof {
                    let n = old(self).active@.len() as int;
                    assert forall|i: int| 0 <= i < n implies self.spec_edges()[i] == old(self).spec_edges()[i]
                        && self.active@[i] < idx by {
                        assert(self.active@[i] == old(self).active@[i]);
                        assert(old(self).active@[i] < old(self).migrations@.len());
                    }
                    assert(self.spec_edges()[n] == key);
                    assert(self.spec_in_force()[n] == migration);
                    assert forall|i: int, k: int| 0 <= i < self.active@.len() && 0 <= k < self.active@.len() && i != k
                        implies migration_edge(self.migrations@[self.active@[i] as int]) != migration_edge(self.migrations@[self.active@[k] as int]) by {
                        assert(self.spec_edges()[i] == migration_edge(self.migrations@[self.active@[i] as int]));
                        assert(self.spec_edges()[k] == migration_edge(self.migrations@[self.active@[k] as int]));
                        if i < n && k < n {
                            assert(old(self).spec_edges()[i] == migration_edge(old(self).migrations@[old(self).active@[i] as int]));
                            assert(old(self).spec_edges()[k] == migration_edge(old(self).migrations@[old(self).active@[k] as int]));
                        }
                    }
                }
                Ok(())
            },
        }
    }

    /// The edges of the migrations in force, in order.
    fn edge_list(&self) -> (r: Vec<(u64, u64)>)
        requires
            self.wf(),
        ensures
            r@ == self.spec_edges(),
    {
        let mut out: Vec<(u64, u64)> = Vec::new();
        let mut j: usize = 0;
        while j < self.active.len()
            invariant
                self.wf(),
                j <= self.active@.len(),
                out@ == self.spec_edges().take(j as int),
            decreases self.active@.len() - j,
        {
            let m = &self.migrations[self.active[j]];
            out.push((m.from_hash, m.to_hash));
            assert(out@ =~= self.spec_edges().take(j + 1));
            j = j + 1;
        }
        assert(out@ =~= self.spec_edges());
        out
    }

    /// Unregister the migration in force from `from_hash` to `to_hash`; it stays in the
    /// list of all migrations (so positions stay stable) and is returned.
    pub fn unregister(&mut self, from_hash: u64, to_hash: u64) -> (r: Option<&Migration<F>>)
        requires
            old(self).wf(),
        ensures
            final(self).wf(),
            final(self).spec_migrations() == old(self).spec_migrations(),
            (r is Some) == (exists|j: int| 0 <= j < old(self).spec_active().len() && old(self).spec_edges()[j] == (from_hash, to_hash)),
            r is None ==> final(self).spec_active() == old(self).spec_active(),
            r matches Some(m) ==> exists|j: int| 0 <= j < old(self).spec_active().len()
                && old(self).spec_edges()[j] == (from_hash, to_hash)
                && *m == old(self).spec_in_force()[j]
                && final(self).spec_active() == old(self).spec_active().remove(j),
    {
        match self.find_active(from_hash, to_hash) {
            Some(j) => {
                let idx = self.active.remove(j);
                proof {
                    assert(self.active@ =~= old(self).active@.remove(j as int));
                    assert forall|i: int| 0 <= i < self.active@.len() implies (#[trigger] self.active@[i]) == old(self).active@[if i < j { i } else { i + 1 }] by {}
                    assert(old(self).spec_in_force()[j as int] == self.migrations@[idx as int]);
                }
                Some(&self.migrations[idx])
            },
            None => None,
        }
    }

    /// The migration in force from `from_hash` to `to_hash`, if there is one.
    pub fn find_direct(&self, from_hash: u64, to_hash: u64) -> (r: Option<&Migration<F>>)
        requires
            self.wf(),
        ensures
            (r is Some) == (exists|j: int| 0 <= j < self.spec_active().len() && self.spec_edges()[j] == (from_hash, to_hash)),
            r matches Some(m) ==> exists|j: int| 0 <= j < self.spec_active().len()
                && self.spec_edges()[j] == (from_hash, to_hash) && *m == self.spec_in_force()[j],
    {
        match self.find_active(from_hash, to_hash) {
            Some(j) => Some(&self.migrations[self.active[j]]),
            None => None,
        }
    }

    /// A shortest chain of migrations in force from `from_hash` to `to_hash`, found by
    /// breadth-first search (empty when they are equal), or `None` when no chain leads there.
    pub fn find_path(&self, from_hash: u64, to_hash: u64) -> (r: Option<Vec<&Migration<F>>>)
        requires
            self.wf(),
        ensures
            (r is Some) == reachable(self.spec_edges(), from_hash, to_hash),
            r matches Some(v) ==> exists|p: Seq<int>|
                is_path(self.spec_edges(), from_hash, to_hash, p) && p.len() == v@.len()
                && forall|k: int| 0 <= k < p.len() ==> *v@[k] == self.spec_in_force()[#[trigger] p[k]],
            r matches Some(v) ==> forall|q: Seq<int>| #[trigger] is_path(self.spec_edges(), from_hash, to_hash, q) ==> v@.len() <= q.len(),
    {
        if from_hash == to_hash {
            let v: Vec<&Migration<F>> = Vec::new();
            proof {
                let p = Seq::<int>::empty();
                assert(is_path(self.spec_edges(), from_hash, to_hash, p));
            }
            return Some(v);
        }
        let es = self.edge_list();
        match shortest_path(&es, from_hash, to_hash) {
            Some(path) => {
                let ghost p = as_ints(path@);
                let mut v: Vec<&Migration<F>> = Vec::new();
                let mut k: usize = 0;
                while k < path.len()
                    invariant
                        self.wf(),
                        es@ == self.spec_edges(),
                        p == as_ints(path@),
                        is_path(es@, from_hash, to_hash, p),
                        k <= path@.len(),
                        v@.len() == k,
                        forall|i: int| 0 <= i < k ==> *v@[i] == self.spec_in_force()[#[trigger] p[i]],
                    decreases path@.len() - k,
                {
                    let pos = path[k];
                    assert(p[k as int] == pos as int);
                    assert(0 <= p[k as int] < es@.len());
                    v.push(&self.migrations[self.active[pos]]);
                    k = k + 1;
                }
                Some(v)
            },
            None => None,
        }
    }

    /// The chain of migrations that carries data of `from_hash` to `to_hash` (see
    /// `find_path`); a schema validation error naming both hashes when no chain leads there.
    pub fn migration_path(&self, from_hash: u64, to_hash: u64) -> (r: Result<Vec<&Migration<F>>, XervError>)
        requires
            self.wf(),
        ensures
            (r is Ok) == reachable(self.spec_edges(), from_hash, to_hash),
            r matches Ok(v) ==> exists|p: Seq<int>|
                is_path(self.spec_edges(), from_hash, to_hash, p) && p.len() == v@.len()
                && forall|k: int| 0 <= k < p.len() ==> *v@[k] == self.spec_in_force()[#[trigger] p[k]],
            r matches Ok(v) ==> forall|q: Seq<int>| #[trigger] is_path(self.spec_edges(), from_hash, to_hash, q) ==> v@.len() <= q.len(),
            r matches Err(e) ==> e matches XervError::SchemaValidation { schema, cause }
                && schema@ == seq!['h', 'a', 's', 'h', ':'] + decimal_text(from_hash as nat)
                && cause@ == "No migration path to hash:"@ + decimal_text(to_hash as nat),
    {
        match self.find_path(from_hash, to_hash) {
            Some(v) => Ok(v),
            None => {
                let mut schema = String::new();
                push_char(&mut schema, 'h');
                push_char(&mut schema, 'a');
                push_char(&mut schema, 's');
                push_char(&mut schema, 'h');
                push_char(&mut schema, ':');
                schema.append(u64_text(from_hash).as_str());
                let mut cause = owned("No migration path to hash:");
                cause.append(u64_text(to_hash).as_str());
                proof {
                    assert(schema@ =~= seq!['h', 'a', 's', 'h', ':'] + decimal_text(from_hash as nat));
                }
                Err(XervError::SchemaValidation { schema, cause })
            },
        }
    }

    /// Whether a chain of migrations in force leads from `from_hash` to `to_hash`.
    pub fn has_path(&self, from_hash: u64, to_hash: u64) -> (r: bool)
        requires
            self.wf(),
        ensures
            r == reachable(self.spec_edges(), from_hash, to_hash),
    {
        if from_hash == to_hash {
            proof {
                assert(is_path(self.spec_edges(), from_hash, to_hash, Seq::<int>::empty()));
            }
            return true;
        }
        let es = self.edge_list();
        shortest_path(&es, from_hash, to_hash).is_some()
    }

    /// All migrations registered, in order.
    pub fn list(&self) -> (r: &[Migration<F>])
        ensures
            r@ == self.spec_migrations(),
    {
        self.migrations.as_slice()
    }

    /// The number of migrations registered.
    pub fn len(&self) -> (r: usize)
        ensures
            r == self.spec_migrations().len(),
    {
        self.migrations.len()
    }

    /// Whether no migration was ever registered.
    pub fn is_empty(&self) -> (r: bool)
        ensures
            r == (self.spec_migrations().len() == 0),
    {
        self.migrations.len() == 0
    }

    /// The migrations in force out of `from_hash`, in the order they were added.
    pub fn migrations_from(&self, from_hash: u64) -> (r: Vec<&Migration<F>>)
        requires
            self.wf(),
        ensures
            r@.len() == self.spec_in_force().filter(|m: Migration<F>| m.from_hash == from_hash).len(),
            forall|k: int| 0 <= k < r@.len() ==> *r@[k] == self.spec_in_force().filter(|m: Migration<F>| m.from_hash == from_hash)[k],
    {
        let ghost f = self.spec_in_force();
        let mut out: Vec<&Migration<F>> = Vec::new();
        let mut j: usize = 0;
        while j < self.active.len()
            invariant
                self.wf(),
                f == self.spec_in_force(),
                j <= self.active@.len(),
                out@.len() == f.take(j as int).filter(|m: Migration<F>| m.from_hash == from_hash).len(),
                forall|k: int| 0 <= k < out@.len() ==> *out@[k] == f.take(j as int).filter(|m: Migration<F>| m.from_hash == from_hash)[k],
            decreases self.active@.len() - j,
        {
            proof {
                reveal(Seq::filter);
                assert(f.take(j + 1).drop_last() =~= f.take(j as int));
            }
            let m = &self.migrations[self.active[j]];
            if m.from_hash == from_hash {
                out.push(m);
            }
            j = j + 1;
        }
        assert(f.take(j as int) =~= f);
        out
    }

    /// The migrations in force into `to_hash`, in the order they were added.
    pub fn migrations_to(&self, to_hash: u64) -> (r: Vec<&Migration<F>>)
        requires
            self.wf(),
        ensures
            r@.len() == self.spec_in_force().filter(|m: Migration<F>| m.to_hash == to_hash).len(),
            forall|k: int| 0 <= k < r@.len() ==> *r@[k] == self.spec_in_force().filter(|m: Migration<F>| m.to_hash == to_hash)[k],
    {
        let ghost f = self.spec_in_force();
        let mut out: Vec<&Migration<F>> = Vec::new();
        let mut j: usize = 0;
        while j < self.active.len()
            invariant
                self.wf(),
                f == self.spec_in_force(),
                j <= self.active@.len(),
                out@.len() == f.take(j as int).filter(|m: Migration<F>| m.to_hash == to_hash).len(),
                forall|k: int| 0 <= k < out@.len() ==> *out@[k] == f.take(j as int).filter(|m: Migration<F>| m.to_hash == to_hash)[k],
            decreases self.active@.len() - j,
        {
            proof {
                reveal(Seq::filter);
                assert(f.take(j + 1).drop_last() =~= f.take(j as int));
            }
            let m = &self.migrations[self.active[j]];
            if m.to_hash == to_hash {
                out.push(m);
            }
            j = j + 1;
        }
        assert(f.take(j as int) =~= f);
        out
    }
}

} // verus!
