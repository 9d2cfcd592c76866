//! Authorization scopes, sets of scopes, and the context of an authenticated request.
use vstd::prelude::*;
use crate::error::XervError;
use crate::text::{ascii_lower, ascii_text, lower_ascii, lowercase, owned, spec_lowercase, str_eq};

verus! {

/// Authorization scopes for API access.
#[derive(Debug, Clone, Copy, PartialEq, Eq, Structural, Hash)]
pub enum AuthScope {
    /// Read pipeline information.
    PipelineRead,
    /// Create, modify, or delete pipelines.
    PipelineWrite,
    /// Read trace information.
    TraceRead,
    /// Create or modify traces.
    TraceWrite,
    /// Resume suspended traces.
    TraceResume,
    /// Administrative access.
    Admin,
}

/// The text of a scope.
pub open spec fn scope_text(s: AuthScope) -> Seq<char> {
    match s {
        AuthScope::PipelineRead => "pipeline:read"@,
        AuthScope::PipelineWrite => "pipeline:write"@,
        AuthScope::TraceRead => "trace:read"@,
        AuthScope::TraceWrite => "trace:write"@,
        AuthScope::TraceResume => "trace:resume"@,
        AuthScope::Admin => "admin"@,
    }
}

/// The scope that lower-case text `l` names: `area:action` or `area_action`, or `admin`.
pub open spec fn scope_named(l: Seq<char>) -> Option<AuthScope> {
    if l == "pipeline:read"@ || l == "pipeline_read"@ {
        Some(AuthScope::PipelineRead)
    } else if l == "pipeline:write"@ || l == "pipeline_write"@ {
        Some(AuthScope::PipelineWrite)
    } else if l == "trace:read"@ || l == "trace_read"@ {
        Some(AuthScope::TraceRead)
    } else if l == "trace:write"@ || l == "trace_write"@ {
        Some(AuthScope::TraceWrite)
    } else if l == "trace:resume"@ || l == "trace_resume"@ {
        Some(AuthScope::TraceResume)
    } else if l == "admin"@ {
        Some(AuthScope::Admin)
    } else {
        None
    }
}

/// Every scope.
pub open spec fn all_scopes() -> Set<AuthScope> {
    set![
        AuthScope::PipelineRead,
        AuthScope::PipelineWrite,
        AuthScope::TraceRead,
        AuthScope::TraceWrite,
        AuthScope::TraceResume,
        AuthScope::Admin,
    ]
}

/// A set of scopes, each held once.
#[derive(Debug)]
pub struct ScopeSet {
    items: Vec<AuthScope>,
}

impl View for ScopeSet {
    type V = Set<AuthScope>;

    closed spec fn view(&self) -> Set<AuthScope> {
        self.items@.to_set()
    }
}

impl ScopeSet {
    #[verifier::type_invariant]
    spec fn inv(self) -> bool {
        self.items@.no_duplicates()
    }

    /// An empty set.
    pub fn new() -> (r: Self)
        ensures
            r@ == Set::<AuthScope>::empty(),
    {
        let r = ScopeSet { items: Vec::new() };
        assert(r@ =~= Set::<AuthScope>::empty());
        r
    }

    /// Whether the set holds `scope`.
    pub fn contains(&self, scope: &AuthScope) -> (r: bool)
        ensures
            r == self@.contains(*scope),
    {
        let mut i: usize = 0;
        while i < self.items.len()
            invariant
                i <= self.items@.len(),
                forall|j: int| 0 <= j < i ==> self.items@[j] != *scope,
            decreases self.items@.len() - i,
        {
            if self.items[i] == *scope {
                assert(self.items@.contains(*scope));
                return true;
            }
            i = i + 1;
        }
        false
    }

    /// Add `scope`; returns whether it was new.
    pub fn insert(&mut self, scope: AuthScope) -> (r: bool)
        ensures
            final(self)@ == old(self)@.insert(scope),
            r == !old(self)@.contains(scope),
    {
        proof {
            use_type_invariant(&*self);
        }
        if self.contains(&scope) {
            assert(old(self)@.insert(scope) =~= old(self)@);
            return false;
        }
        let mut items: Vec<AuthScope> = Vec::new();
        std::mem::swap(&mut items, &mut self.items);
        let ghost before = items@;
        items.push(scope);
        proof {
            assert(items@.no_duplicates()) by {
                assert forall|i: int, j: int| 0 <= i < items@.len() && 0 <= j < items@.len() && i != j implies items@[i] != items@[j] by {
                    if i < before.len() && j < before.len() {
                    } else if i < before.len() {
                        assert(before.contains(before[i]));
                    } else {
                        assert(before.contains(before[j]));
                    }
                }
            }
            assert(items@.to_set() =~= before.to_set().insert(scope)) by {
                assert forall|x: AuthScope| items@.to_set().contains(x) implies before.to_set().insert(scope).contains(x) by {
                    let i = choose|i: int| 0 <= i < items@.len() && items@[i] == x;
                    if i < before.len() {
                        assert(before[i] == x);
                    }
                }
                assert forall|x: AuthScope| before.to_set().insert(scope).contains(x) implies items@.to_set().contains(x) by {
                    if x == scope {
                        assert(items@[before.len() as int] == x);
                    } else {
                        let i = choose|i: int| 0 <= i < before.len() && before[i] == x;
                        assert(items@[i] == x);
                    }
                }
            }
        }
        self.items = items;
        true
    }

    /// Add every scope of `other`.
    pub fn extend(&mut self, other: &ScopeSet)
        ensures
            final(self)@ == old(self)@.union(other@),
    {
        let mut i: usize = 0;
        while i < other.items.len()
            invariant
                i <= other.items@.len(),
                self@ == old(self)@.union(other.items@.take(i as int).to_set()),
            decreases other.items@.len() - i,
        {
            let s = other.items[i];
            self.insert(s);
            proof {
                assert(other.items@.take(i + 1) =~= other.items@.take(i as int).push(s));
                other.items@.take(i as int).lemma_push_to_set_commute(s);
                assert(self@ =~= old(self)@.union(other.items@.take(i + 1).to_set()));
            }
            i = i + 1;
        }
        assert(other.items@.take(i as int) =~= other.items@);
    }

    /// The number of scopes held.
    pub fn len(&self) -> (r: usize)
        ensures
            r == self@.len(),
    {
        proof {
            use_type_invariant(self);
            self.items@.unique_seq_to_set();
        }
        self.items.len()
    }

    /// Whether the set is empty.
    pub fn is_empty(&self) -> (r: bool)
        ensures
            r == (self@.len() == 0),
    {
        self.len() == 0
    }

    /// A copy of this set.
    pub fn duplicate(&self) -> (r: Self)
        ensures
            r@ == self@,
    {
        proof {
            use_type_invariant(self);
        }
        ScopeSet { items: self.items.clone() }
    }

    /// The scopes held, in the order they were first added.
    pub fn to_vec(&self) -> (r: Vec<AuthScope>)
        ensures
            r@.to_set() == self@,
            r@.no_duplicates(),
    {
        proof {
            use_type_invariant(self);
        }
        self.items.clone()
    }
}

impl AuthScope {
    /// Every scope.
    pub fn all() -> (r: ScopeSet)
        ensures
            r@ == all_scopes(),
    {
        let mut s = ScopeSet::new();
        s.insert(AuthScope::PipelineRead);
        s.insert(AuthScope::PipelineWrite);
        s.insert(AuthScope::TraceRead);
        s.insert(AuthScope::TraceWrite);
        s.insert(AuthScope::TraceResume);
        s.insert(AuthScope::Admin);
        assert(s@ =~= all_scopes());
        s
    }

    /// The read-only scopes.
    pub fn read_only() -> (r: ScopeSet)
        ensures
            r@ == set![AuthScope::PipelineRead, AuthScope::TraceRead],
    {
        let mut s = ScopeSet::new();
        s.insert(AuthScope::PipelineRead);
        s.insert(AuthScope::TraceRead);
        assert(s@ =~= set![AuthScope::PipelineRead, AuthScope::TraceRead]);
        s
    }

    /// The operator scopes: read-only plus resuming traces.
    pub fn operator() -> (r: ScopeSet)
        ensures
            r@ == set![AuthScope::PipelineRead, AuthScope::TraceRead, AuthScope::TraceResume],
    {
        let mut s = AuthScope::read_only();
        s.insert(AuthScope::TraceResume);
        assert(s@ =~= set![AuthScope::PipelineRead, AuthScope::TraceRead, AuthScope::TraceResume]);
        s
    }

    /// Parse a scope from text, case-insensitively.
    pub fn parse(s: &str) -> (r: Option<Self>)
        ensures
            r == scope_named(spec_lowercase(s@)),
            lower_ascii(s@) ==> r == scope_named(s@),
            ascii_text(s@) ==> r == scope_named(ascii_lower(s@)),
    {
        let l = lowercase(s);
        let t = l.as_str();
        if str_eq(t, "pipeline:read") || str_eq(t, "pipeline_read") {
            Some(AuthScope::PipelineRead)
        } else if str_eq(t, "pipeline:write") || str_eq(t, "pipeline_write") {
            Some(AuthScope::PipelineWrite)
        } else if str_eq(t, "trace:read") || str_eq(t, "trace_read") {
            Some(AuthScope::TraceRead)
        } else if str_eq(t, "trace:write") || str_eq(t, "trace_write") {
            Some(AuthScope::TraceWrite)
        } else if str_eq(t, "trace:resume") || str_eq(t, "trace_resume") {
            Some(AuthScope::TraceResume)
        } else if str_eq(t, "admin") {
            Some(AuthScope::Admin)
        } else {
            None
        }
    }

    /// The scope's text.
    pub fn as_str(&self) -> (r: &'static str)
        ensures
            r@ == scope_text(*self),
    {
        match self {
            AuthScope::PipelineRead => "pipeline:read",
            AuthScope::PipelineWrite => "pipeline:write",
            AuthScope::TraceRead => "trace:read",
            AuthScope::TraceWrite => "trace:write",
            AuthScope::TraceResume => "trace:resume",
            AuthScope::Admin => "admin",
        }
    }
}

/// A context grants `scope`: directly, or through the admin scope.
pub open spec fn grants(scopes: Set<AuthScope>, scope: AuthScope) -> bool {
    scopes.contains(AuthScope::Admin) || scopes.contains(scope)
}

/// Authentication context for a validated request.
#[derive(Debug)]
pub struct AuthContext {
    /// Identity of the authenticated client.
    pub identity: String,
    /// Scopes granted to this client.
    pub scopes: ScopeSet,
}

impl AuthContext {
    /// A context for `identity` with `scopes`.
    pub fn new(identity: &str, scopes: ScopeSet) -> (r: Self)
        ensures
            r.identity@ == identity@,
            r.scopes@ == scopes@,
    {
        AuthContext { identity: owned(identity), scopes }
    }

    /// The anonymous context, with no scopes (for exempt paths).
    pub fn anonymous() -> (r: Self)
        ensures
            r.identity@ == "anonymous"@,
            r.scopes@ == Set::<AuthScope>::empty(),
    {
        AuthContext { identity: owned("anonymous"), scopes: ScopeSet::new() }
    }

    /// Whether this context grants `scope` (admin grants every scope).
    pub fn has_scope(&self, scope: AuthScope) -> (r: bool)
        ensures
            r == grants(self.scopes@, scope),
    {
        self.scopes.contains(&AuthScope::Admin) || self.scopes.contains(&scope)
    }

    /// Whether this context holds every one of `scopes` (admin holds them all).
    pub fn has_all_scopes(&self, scopes: &[AuthScope]) -> (r: bool)
        ensures
            r == (self.scopes@.contains(AuthScope::Admin) || forall|i: int| 0 <= i < scopes@.len() ==> self.scopes@.contains(#[trigger] scopes@[i])),
    {
        if self.scopes.contains(&AuthScope::Admin) {
            return true;
        }
        let mut i: usize = 0;
        while i < scopes.len()
            invariant
                i <= scopes@.len(),
                !self.scopes@.contains(AuthScope::Admin),
                forall|j: int| 0 <= j < i ==> self.scopes@.contains(#[trigger] scopes@[j]),
            decreases scopes@.len() - i,
        {
            if !self.scopes.contains(&scopes[i]) {
                assert(!self.scopes@.contains(scopes@[i as int]));
                return false;
            }
            i = i + 1;
        }
        true
    }

    /// Whether this context holds any one of `scopes` (admin holds them all).
    pub fn has_any_scope(&self, scopes: &[AuthScope]) -> (r: bool)
        ensures
            r == (self.scopes@.contains(AuthScope::Admin) || exists|i: int| 0 <= i < scopes@.len() && self.scopes@.contains(#[trigger] scopes@[i])),
    {
        if self.scopes.contains(&AuthScope::Admin) {
            return true;
        }
        let mut i: usize = 0;
        while i < scopes.len()
            invariant
                i <= scopes@.len(),
                !self.scopes@.contains(AuthScope::Admin),
                forall|j: int| 0 <= j < i ==> !self.scopes@.contains(#[trigger] scopes@[j]),
            decreases scopes@.len() - i,
        {
            if self.scopes.contains(&scopes[i]) {
                return true;
            }
            i = i + 1;
        }
        false
    }

    /// Require a scope: `AuthorizationDenied` when this context does not grant it.
    pub fn require_scope(&self, scope: AuthScope) -> (r: Result<(), XervError>)
        ensures
            r is Ok <==> grants(self.scopes@, scope),
            r matches Err(XervError::AuthorizationDenied { identity, required_scope, cause }) ==> {
                &&& identity@ == self.identity@
                &&& required_scope@ == scope_text(scope)
                &&& cause@ == "Identity '"@ + self.identity@ + "' does not have scope '"@ + scope_text(scope) + "'"@
            },
            r is Err ==> r matches Err(XervError::AuthorizationDenied { .. }),
    {
        if self.has_scope(scope) {
            Ok(())
        } else {
            let mut cause = owned("Identity '");
            cause.append(self.identity.as_str());
            cause.append("' does not have scope '");
            cause.append(scope.as_str());
            cause.append("'");
            Err(XervError::AuthorizationDenied {
                identity: owned(self.identity.as_str()),
                required_scope: owned(scope.as_str()),
                cause,
            })
        }
    }
}

/// Parsing the text of a scope gives the scope back: the text is lower-case ASCII, which
/// parsing leaves as it is, and it names that scope.
pub proof fn lemma_scope_text_roundtrip(s: AuthScope)
    ensures
        lower_ascii(scope_text(s)),
        scope_named(scope_text(s)) == Some(s),
{
    reveal_strlit("pipeline:read");
    reveal_strlit("pipeline_read");
    reveal_strlit("pipeline:write");
    reveal_strlit("pipeline_write");
    reveal_strlit("trace:read");
    reveal_strlit("trace_read");
    reveal_strlit("trace:write");
    reveal_strlit("trace_write");
    reveal_strlit("trace:resume");
    reveal_strlit("trace_resume");
    reveal_strlit("admin");
    match s {
        AuthScope::PipelineRead => {
            assert(scope_named(scope_text(s)) == Some(s));
        },
        AuthScope::PipelineWrite => {
            assert("pipeline:write"@[9] != "pipeline:read"@[9]);
            assert(scope_named(scope_text(s)) == Some(s));
        },
        AuthScope::TraceRead => {
            assert("trace:read"@[0] != "pipeline:read"@[0]);
            assert(scope_named(scope_text(s)) == Some(s));
        },
        AuthScope::TraceWrite => {
            assert("trace:write"@[0] != "pipeline:read"@[0]);
            assert("trace:write"@[6] != "trace:read"@[6]);
            assert("trace:write"@[6] != "trace_read"@[6]);
            assert(scope_named(scope_text(s)) == Some(s));
        },
        AuthScope::TraceResume => {
            let t = "trace:resume"@;
            assert(t[0] != "pipeline:read"@[0] && t[0] != "pipeline_read"@[0]);
            assert(t[0] != "pipeline:write"@[0] && t[0] != "pipeline_write"@[0]);
            assert(t[8] != "trace:read"@[8] && t[8] != "trace_read"@[8]);
            assert(t[6] != "trace:write"@[6] && t[6] != "trace_write"@[6]);
            assert(scope_named(scope_text(s)) == Some(s));
        },
        AuthScope::Admin => {
            let t = "admin"@;
            assert(t[0] != "pipeline:read"@[0] && t[0] != "pipeline_read"@[0]);
            assert(t[0] != "pipeline:write"@[0] && t[0] != "pipeline_write"@[0]);
            assert(t[0] != "trace:read"@[0] && t[0] != "trace_read"@[0]);
            assert(t[0] != "trace:write"@[0] && t[0] != "trace_write"@[0]);
            assert(t[0] != "trace:resume"@[0] && t[0] != "trace_resume"@[0]);
            assert(scope_named(scope_text(s)) == Some(s));
        },
    }
}

/// `t` with every `:` replaced by `_`.
pub open spec fn colon_to_underscore(t: Seq<char>) -> Seq<char> {
    t.map_values(|c: char| if c == ':' { '_' } else { c })
}

/// Parsing the text of a scope with `_` in place of `:` also gives the scope back: that
/// text is lower-case ASCII and names the same scope.
pub proof fn lemma_scope_underscore_roundtrip(s: AuthScope)
    ensures
        lower_ascii(colon_to_underscore(scope_text(s))),
        scope_named(colon_to_underscore(scope_text(s))) == Some(s),
{
    reveal_strlit("pipeline:read");
    reveal_strlit("pipeline_read");
    reveal_strlit("pipeline:write");
    reveal_strlit("pipeline_write");
    reveal_strlit("trace:read");
    reveal_strlit("trace_read");
    reveal_strlit("trace:write");
    reveal_strlit("trace_write");
    reveal_strlit("trace:resume");
    reveal_strlit("trace_resume");
    reveal_strlit("admin");
    let u = colon_to_underscore(scope_text(s));
    match s {
        AuthScope::PipelineRead => {
            assert(u =~= "pipeline_read"@);
            assert("pipeline_read"@[8] != "pipeline:read"@[8]);
        },
        AuthScope::PipelineWrite => {
            assert(u =~= "pipeline_write"@);
            assert("pipeline_write"@[8] != "pipeline:write"@[8]);
        },
        AuthScope::TraceRead => {
            assert(u =~= "trace_read"@);
            assert("trace_read"@[5] != "trace:read"@[5]);
        },
        AuthScope::TraceWrite => {
            assert(u =~= "trace_write"@);
            assert("trace_write"@[5] != "trace:write"@[5]);
            assert("trace_write"@[6] != "trace:read"@[6]);
            assert("trace_write"@[6] != "trace_read"@[6]);
        },
        AuthScope::TraceResume => {
            let t = "trace_resume"@;
            assert(u =~= t);
            assert(t[5] != "trace:resume"@[5]);
            assert(t[0] != "pipeline:read"@[0] && t[0] != "pipeline_read"@[0]);
            assert(t[0] != "pipeline:write"@[0] && t[0] != "pipeline_write"@[0]);
            assert(t[8] != "trace:read"@[8] && t[8] != "trace_read"@[8]);
            assert(t[6] != "trace:write"@[6] && t[6] != "trace_write"@[6]);
        },
        AuthScope::Admin => {
            let t = "admin"@;
            assert(u =~= t);
            assert(t[0] != "pipeline:read"@[0] && t[0] != "pipeline_read"@[0]);
            assert(t[0] != "pipeline:write"@[0] && t[0] != "pipeline_write"@[0]);
            assert(t[0] != "trace:read"@[0] && t[0] != "trace_read"@[0]);
            assert(t[0] != "trace:write"@[0] && t[0] != "trace_write"@[0]);
            assert(t[0] != "trace:resume"@[0] && t[0] != "trace_resume"@[0]);
        },
    }
}

/// The admin scope grants every scope, and a context grants what it holds.
pub proof fn lemma_admin_grants_all(scopes: Set<AuthScope>, scope: AuthScope)
    ensures
        scopes.contains(AuthScope::Admin) ==> grants(scopes, scope),
        scopes.contains(scope) ==> grants(scopes, scope),
        !scopes.contains(AuthScope::Admin) ==> (grants(scopes, scope) <==> scopes.contains(scope)),
{
}

} // verus!
