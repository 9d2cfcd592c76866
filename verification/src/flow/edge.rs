//! Edges between the nodes of a flow, written `node` or `node.port`.
use vstd::prelude::*;
use crate::text::{is_alphanumeric, owned, spec_is_alphanumeric};

verus! {

/// The index of the last `c` in `s`, or -1 when there is none.
pub open spec fn last_index_of(s: Seq<char>, c: char) -> int
    decreases s.len(),
{
    if s.len() == 0 {
        -1
    } else if s.last() == c {
        s.len() - 1
    } else {
        last_index_of(s.drop_last(), c)
    }
}

/// Text after a `.` reads as a port name: not empty, no `$` or `{`, under 20 bytes of
/// UTF-8, and made of alphanumeric characters and `_`.
pub open spec fn port_like(after: Seq<char>) -> bool {
    &&& after.len() > 0
    &&& !after.contains('$')
    &&& !after.contains('{')
    &&& vstd::utf8::encode_utf8(after).len() < 20
    &&& forall|i: int| 0 <= i < after.len() ==> spec_is_alphanumeric(#[trigger] after[i]) || after[i] == '_'
}

/// Where `s` splits into node and port: at its last `.`, when what follows reads as a port.
pub open spec fn port_split(s: Seq<char>) -> Option<int> {
    let k = last_index_of(s, '.');
    if k >= 0 && port_like(s.skip(k + 1)) {
        Some(k)
    } else {
        None
    }
}

/// The node and port that `s` names, with `default_port` when it names no port.
pub open spec fn node_port(s: Seq<char>, default_port: Seq<char>) -> (Seq<char>, Seq<char>) {
    match port_split(s) {
        Some(k) => (s.take(k), s.skip(k + 1)),
        None => (s, default_port),
    }
}

/// Splitting never loses text: with a port, the node, a `.` and the port give back the
/// reference; without one, the node is the whole reference.
pub proof fn lemma_node_port_rejoins(s: Seq<char>, default_port: Seq<char>)
    ensures
        port_split(s) is Some ==> node_port(s, default_port).0 + seq!['.'] + node_port(s, default_port).1 == s,
        port_split(s) is None ==> node_port(s, default_port) == (s, default_port),
{
    if port_split(s) is Some {
        let k = last_index_of(s, '.');
        lemma_last_index_of_bounds(s, '.');
        assert(s.take(k) + seq!['.'] + s.skip(k + 1) =~= s);
    }
}

/// The last index of `c` is -1 or a position holding `c`.
proof fn lemma_last_index_of_bounds(s: Seq<char>, c: char)
    ensures
        -1 <= last_index_of(s, c) < s.len(),
        last_index_of(s, c) >= 0 ==> s[last_index_of(s, c)] == c,
    decreases s.len(),
{
    if s.len() > 0 && s.last() != c {
        lemma_last_index_of_bounds(s.drop_last(), c);
    }
}

proof fn lemma_last_index_of(s: Seq<char>, c: char, k: int)
    requires
        -1 <= k < s.len(),
        k >= 0 ==> s[k] == c,
        forall|j: int| k < j < s.len() ==> s[j] != c,
    ensures
        last_index_of(s, c) == k,
    decreases s.len(),
{
    if s.len() > 0 && s.last() != c {
        lemma_last_index_of(s.drop_last(), c, k);
    }
}

/// Whether `c` may stand in a port name.
fn port_char(c: char) -> (r: bool)
    ensures
        r == (c != '$' && c != '{' && (spec_is_alphanumeric(c) || c == '_')),
{
    c != '$' && c != '{' && (is_alphanumeric(c) || c == '_')
}

/// Split `node.port` into node and port; the port is `default_port` when the text after
/// the last `.` does not read as a port name (or there is no `.`).
pub fn parse_node_port<'a>(s: &'a str, default_port: &'static str) -> (r: (&'a str, &'a str))
    ensures
        (r.0@, r.1@) == node_port(s@, default_port@),
{
    let n = s.unicode_len();
    let mut k = n;
    while k > 0 && s.get_char(k - 1) != '.'
        invariant
            k <= n,
            n == s@.len(),
            forall|j: int| k <= j < n ==> s@[j] != '.',
        decreases k,
    {
        k = k - 1;
    }
    proof {
        lemma_last_index_of(s@, '.', k - 1);
    }
    if k > 0 {
        let dot = k - 1;
        let after = s.substring_char(k, n);
        assert(after@ =~= s@.skip(dot + 1));
        let m = n - k;
        let mut i: usize = 0;
        while i < m && port_char(after.get_char(i))
            invariant
                m == after@.len(),
                i <= m,
                forall|j: int| 0 <= j < i ==> (spec_is_alphanumeric(#[trigger] after@[j]) || after@[j] == '_')
                    && after@[j] != '$' && after@[j] != '{',
            decreases m - i,
        {
            i = i + 1;
        }
        let ok = m > 0 && after.as_bytes_vec().len() < 20 && i == m;
        proof {
            if i == m {
                assert(!after@.contains('$'));
                assert(!after@.contains('{'));
            } else {
                let c = after@[i as int];
                assert(!(c != '$' && c != '{' && (spec_is_alphanumeric(c) || c == '_')));
                if c == '$' {
                    assert(after@.contains('$'));
                } else if c == '{' {
                    assert(after@.contains('{'));
                }
            }
        }
        if ok {
            let node = s.substring_char(0, dot);
            assert(node@ =~= s@.take(dot as int));
            return (node, after);
        }
    }
    (s, default_port)
}

/// An edge connecting two nodes of a flow.
#[derive(Debug, Clone)]
pub struct EdgeDefinition {
    /// Source node and optional port ("node_id" or "node_id.port").
    pub from: String,
    /// Target node and optional port ("node_id" or "node_id.port").
    pub to: String,
    /// Optional condition for this edge (selector expression).
    pub condition: Option<String>,
    /// Whether this edge is a loop back-edge.
    pub loop_back: bool,
    /// Optional description.
    pub description: Option<String>,
}

impl EdgeDefinition {
    /// An edge from `from` to `to`, with no condition, not a loop back-edge, no description.
    pub fn new(from: &str, to: &str) -> (r: Self)
        ensures
            r.from@ == from@,
            r.to@ == to@,
            r.condition is None,
            !r.loop_back,
            r.description is None,
    {
        EdgeDefinition { from: owned(from), to: owned(to), condition: None, loop_back: false, description: None }
    }

    /// Set a condition.
    pub fn with_condition(self, condition: &str) -> (r: Self)
        ensures
            r.from == self.from,
            r.to == self.to,
            r.condition matches Some(c) && c@ == condition@,
            r.loop_back == self.loop_back,
            r.description == self.description,
    {
        EdgeDefinition { condition: Some(owned(condition)), ..self }
    }

    /// Mark as a loop back-edge.
    pub fn as_loop_back(self) -> (r: Self)
        ensures
            r.from == self.from,
            r.to == self.to,
            r.condition == self.condition,
            r.loop_back,
            r.description == self.description,
    {
        EdgeDefinition { loop_back: true, ..self }
    }

    /// Set the description.
    pub fn with_description(self, desc: &str) -> (r: Self)
        ensures
            r.from == self.from,
            r.to == self.to,
            r.condition == self.condition,
            r.loop_back == self.loop_back,
            r.description matches Some(d) && d@ == desc@,
    {
        EdgeDefinition { description: Some(owned(desc)), ..self }
    }

    /// The source node and port (port `out` by default).
    pub fn parse_from(&self) -> (r: (&str, &str))
        ensures
            (r.0@, r.1@) == node_port(self.from@, "out"@),
    {
        parse_node_port(self.from.as_str(), "out")
    }

    /// The target node and port (port `in` by default).
    pub fn parse_to(&self) -> (r: (&str, &str))
        ensures
            (r.0@, r.1@) == node_port(self.to@, "in"@),
    {
        parse_node_port(self.to.as_str(), "in")
    }

    /// The source node.
    pub fn from_node(&self) -> (r: &str)
        ensures
            r@ == node_port(self.from@, "out"@).0,
    {
        self.parse_from().0
    }

    /// The source port.
    pub fn from_port(&self) -> (r: &str)
        ensures
            r@ == node_port(self.from@, "out"@).1,
    {
        self.parse_from().1
    }

    /// The target node.
    pub fn to_node(&self) -> (r: &str)
        ensures
            r@ == node_port(self.to@, "in"@).0,
    {
        self.parse_to().0
    }

    /// The target port.
    pub fn to_port(&self) -> (r: &str)
        ensures
            r@ == node_port(self.to@, "in"@).1,
    {
        self.parse_to().1
    }
}

} // verus!
