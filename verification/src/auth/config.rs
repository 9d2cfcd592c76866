//! Authentication configuration: whether it is on, the API keys, and the exempt paths.
use vstd::prelude::*;
use super::context::{AuthScope, ScopeSet, all_scopes};
use crate::text::{chars_of, owned, spec_starts_with};
use crate::clock::unix_time_secs;

verus! {

/// `s` without its trailing `/` characters.
pub open spec fn trim_end_slashes(s: Seq<char>) -> Seq<char>
    decreases s.len(),
{
    if s.len() > 0 && s.last() == '/' {
        trim_end_slashes(s.drop_last())
    } else {
        s
    }
}

/// A request path as exemptions see it: without a leading `/api/v1`, and without
/// trailing slashes.
pub open spec fn relative_path(p: Seq<char>) -> Seq<char> {
    trim_end_slashes(if spec_starts_with(p, "/api/v1"@) { p.skip(7) } else { p })
}

/// The exempt path `exempt` covers `path`: the same path, or a path below it.
pub open spec fn exempt_by(path: Seq<char>, exempt: Seq<char>) -> bool {
    let p = relative_path(path);
    let x = trim_end_slashes(exempt);
    p == x || spec_starts_with(p, x.push('/'))
}

/// The end of `cs[lo..hi]` once trailing slashes are dropped.
fn trimmed_end(cs: &Vec<char>, lo: usize, hi: usize) -> (r: usize)
    requires
        lo <= hi <= cs@.len(),
    ensures
        lo <= r <= hi,
        cs@.subrange(lo as int, r as int) == trim_end_slashes(cs@.subrange(lo as int, hi as int)),
{
    let mut r = hi;
    while r > lo && cs[r - 1] == '/'
        invariant
            lo <= r <= hi,
            hi <= cs@.len(),
            trim_end_slashes(cs@.subrange(lo as int, r as int)) == trim_end_slashes(cs@.subrange(lo as int, hi as int)),
        decreases r,
    {
        assert(cs@.subrange(lo as int, r as int).drop_last() =~= cs@.subrange(lo as int, r - 1));
        r = r - 1;
    }
    r
}

/// Whether `a[alo..ahi]` and `b[blo..bhi]` hold the same characters.
fn range_eq(a: &Vec<char>, alo: usize, ahi: usize, b: &Vec<char>, blo: usize, bhi: usize) -> (r: bool)
    requires
        alo <= ahi <= a@.len(),
        blo <= bhi <= b@.len(),
    ensures
        r == (a@.subrange(alo as int, ahi as int) == b@.subrange(blo as int, bhi as int)),
{
    if ahi - alo != bhi - blo {
        assert(a@.subrange(alo as int, ahi as int).len() != b@.subrange(blo as int, bhi as int).len());
        return false;
    }
    let n = ahi - alo;
    let mut i: usize = 0;
    while i < n
        invariant
            n == ahi - alo,
            n == bhi - blo,
            alo <= ahi <= a@.len(),
            blo <= bhi <= b@.len(),
            i <= n,
            forall|j: int| 0 <= j < i ==> a@.subrange(alo as int, ahi as int)[j] == #[trigger] b@.subrange(blo as int, bhi as int)[j],
        decreases n - i,
    {
        if a[alo + i] != b[blo + i] {
            assert(a@.subrange(alo as int, ahi as int)[i as int] != b@.subrange(blo as int, bhi as int)[i as int]);
            return false;
        }
        i = i + 1;
    }
    assert(a@.subrange(alo as int, ahi as int) =~= b@.subrange(blo as int, bhi as int));
    true
}

/// Configuration for API key authentication.
#[derive(Debug)]
pub struct ApiKeyConfig {
    /// Header name for the API key.
    pub header_name: String,
    /// Hashed API keys with their scopes.
    pub keys: Vec<ApiKeyEntry>,
}

impl ApiKeyConfig {
    /// An API key configuration reading the `X-API-Key` header, with no keys.
    pub fn new() -> (r: Self)
        ensures
            r.header_name@ == "X-API-Key"@,
            r.keys@.len() == 0,
    {
        ApiKeyConfig { header_name: owned("X-API-Key"), keys: Vec::new() }
    }

    /// Set the header name.
    pub fn with_header(self, name: &str) -> (r: Self)
        ensures
            r.header_name@ == name@,
            r.keys == self.keys,
    {
        ApiKeyConfig { header_name: owned(name), ..self }
    }

    /// Add an API key entry after those added before.
    pub fn with_key(self, entry: ApiKeyEntry) -> (r: Self)
        ensures
            r.header_name == self.header_name,
            r.keys@ == self.keys@.push(entry),
    {
        let mut r = self;
        r.keys.push(entry);
        r
    }
}

impl Default for ApiKeyConfig {
    /// The `X-API-Key` header, with no keys.
    fn default() -> (r: Self)
        ensures
            r.header_name@ == "X-API-Key"@,
            r.keys@.len() == 0,
    {
        ApiKeyConfig::new()
    }
}

/// A key with expiry time `expires_at` (Unix seconds, if any) has expired at time `now`:
/// it has an expiry and `now` has reached it.
pub open spec fn expired_at(expires_at: Option<u64>, now: u64) -> bool {
    match expires_at {
        Some(t) => now >= t,
        None => false,
    }
}

/// An API key entry with its scopes.
#[derive(Debug)]
pub struct ApiKeyEntry {
    /// Identity associated with this key (for audit logs).
    pub identity: String,
    /// SHA-256 hash of the API key (hex encoded).
    pub key_hash: String,
    /// Scopes granted to this key.
    pub scopes: ScopeSet,
    /// Optional expiration time (Unix timestamp in seconds).
    pub expires_at: Option<u64>,
}

/// `a` and `b` agree on every field but the scopes.
pub open spec fn entry_same_but_scopes(a: ApiKeyEntry, b: ApiKeyEntry) -> bool {
    a.identity == b.identity && a.key_hash == b.key_hash && a.expires_at == b.expires_at
}

/// `seconds` after `now`, saturating at the greatest time.
pub open spec fn saturating_after(now: u64, seconds: u64) -> u64 {
    if now + seconds <= u64::MAX {
        (now + seconds) as u64
    } else {
        u64::MAX
    }
}

impl ApiKeyEntry {
    /// An entry for `identity` with the given key hash, no scopes and no expiry.
    pub fn new(identity: &str, key_hash: &str) -> (r: Self)
        ensures
            r.identity@ == identity@,
            r.key_hash@ == key_hash@,
            r.scopes@ == Set::<AuthScope>::empty(),
            r.expires_at is None,
    {
        ApiKeyEntry { identity: owned(identity), key_hash: owned(key_hash), scopes: ScopeSet::new(), expires_at: None }
    }

    /// Add a scope.
    pub fn with_scope(self, scope: AuthScope) -> (r: Self)
        ensures
            r.scopes@ == self.scopes@.insert(scope),
            entry_same_but_scopes(r, self),
    {
        let mut r = self;
        r.scopes.insert(scope);
        r
    }

    /// Add several scopes.
    pub fn with_scopes(self, scopes: Vec<AuthScope>) -> (r: Self)
        ensures
            r.scopes@ == self.scopes@.union(scopes@.to_set()),
            entry_same_but_scopes(r, self),
    {
        let mut r = self;
        let mut i: usize = 0;
        while i < scopes.len()
            invariant
                i <= scopes@.len(),
                r.scopes@ == self.scopes@.union(scopes@.take(i as int).to_set()),
                entry_same_but_scopes(r, self),
            decreases scopes@.len() - i,
        {
            let s = scopes[i];
            r.scopes.insert(s);
            proof {
                assert(scopes@.take(i + 1) =~= scopes@.take(i as int).push(s));
                scopes@.take(i as int).lemma_push_to_set_commute(s);
                assert(r.scopes@ =~= self.scopes@.union(scopes@.take(i + 1).to_set()));
            }
            i = i + 1;
        }
        assert(scopes@.take(i as int) =~= scopes@);
        r
    }

    /// Grant every scope (admin).
    pub fn with_all_scopes(self) -> (r: Self)
        ensures
            r.scopes@ == all_scopes(),
            entry_same_but_scopes(r, self),
    {
        ApiKeyEntry { scopes: AuthScope::all(), ..self }
    }

    /// Set the expiration time (Unix seconds).
    pub fn with_expires_at(self, timestamp: u64) -> (r: Self)
        ensures
            r.expires_at == Some(timestamp),
            r.identity == self.identity,
            r.key_hash == self.key_hash,
            r.scopes == self.scopes,
    {
        ApiKeyEntry { expires_at: Some(timestamp), ..self }
    }

    /// Set the expiration `seconds` after `now` (Unix seconds), saturating at the
    /// greatest time.
    pub fn expires_in_from(self, now: u64, seconds: u64) -> (r: Self)
        ensures
            r.expires_at == Some(saturating_after(now, seconds)),
            r.identity == self.identity,
            r.key_hash == self.key_hash,
            r.scopes == self.scopes,
    {
        ApiKeyEntry { expires_at: Some(now.saturating_add(seconds)), ..self }
    }

    /// Set the expiration `seconds` from now: `seconds` after the clock's reading,
    /// saturating at the greatest time.
    pub fn expires_in(self, seconds: u64) -> (r: Self)
        ensures
            exists|now: u64| r.expires_at == Some(#[trigger] saturating_after(now, seconds)),
            r.identity == self.identity,
            r.key_hash == self.key_hash,
            r.scopes == self.scopes,
    {
        let now = unix_time_secs();
        self.expires_in_from(now, seconds)
    }

    /// Whether the key has expired at time `now` (Unix seconds).
    pub fn is_expired_at(&self, now: u64) -> (r: bool)
        ensures
            r == expired_at(self.expires_at, now),
    {
        match self.expires_at {
            Some(t) => now >= t,
            None => false,
        }
    }

    /// Whether the key has expired now.
    pub fn is_expired(&self) -> (r: bool)
        ensures
            exists|now: u64| r == #[trigger] expired_at(self.expires_at, now),
    {
        match self.expires_at {
            Some(_) => self.is_expired_at(unix_time_secs()),
            None => {
                assert(false == expired_at(self.expires_at, 0));
                false
            },
        }
    }
}

/// Configuration for API authentication.
#[derive(Debug)]
pub struct AuthConfig {
    /// Whether authentication is enabled.
    pub enabled: bool,
    /// API key configuration.
    pub api_key: Option<ApiKeyConfig>,
    /// Paths exempt from authentication (e.g., "/health").
    pub exempt_paths: Vec<String>,
}

/// Some exempt path of `c` covers `path`.
pub open spec fn path_exempt(c: AuthConfig, path: Seq<char>) -> bool {
    exists|i: int| 0 <= i < c.exempt_paths@.len() && exempt_by(path, #[trigger] c.exempt_paths@[i]@)
}

/// Everything below an exempt path is exempt: a path that reads, once a leading
/// `/api/v1` and trailing slashes are dropped, as an exempt path (without its trailing
/// slashes), a `/` and anything, is exempt.
pub proof fn lemma_exemption_covers_subpaths(c: AuthConfig, path: Seq<char>, i: int, rest: Seq<char>)
    requires
        0 <= i < c.exempt_paths@.len(),
        relative_path(path) == trim_end_slashes(c.exempt_paths@[i]@) + seq!['/'] + rest,
    ensures
        path_exempt(c, path),
{
    let x = trim_end_slashes(c.exempt_paths@[i]@);
    let p = relative_path(path);
    assert(p.take(x.len() + 1int) =~= x.push('/'));
    assert(exempt_by(path, c.exempt_paths@[i]@));
}

/// Only an exempt path itself and the paths below it are exempt: an exempt path's
/// relative form starts with an exempt path (without trailing slashes) and ends there or
/// goes on with a `/` (so `/healthz` is not below `/health`).
pub proof fn lemma_exemption_only_covers_subpaths(c: AuthConfig, path: Seq<char>)
    requires
        path_exempt(c, path),
    ensures
        exists|i: int| 0 <= i < c.exempt_paths@.len() && ({
            let x = trim_end_slashes(#[trigger] c.exempt_paths@[i]@);
            let p = relative_path(path);
            &&& spec_starts_with(p, x)
            &&& (p.len() == x.len() || p[x.len() as int] == '/')
        }),
{
    let i = choose|i: int| 0 <= i < c.exempt_paths@.len() && exempt_by(path, #[trigger] c.exempt_paths@[i]@);
    let x = trim_end_slashes(c.exempt_paths@[i]@);
    let p = relative_path(path);
    if p == x {
        assert(p.take(x.len() as int) =~= x);
    } else {
        assert(p.take(x.len() + 1int)[x.len() as int] == x.push('/')[x.len() as int]);
        assert(p.take(x.len() as int) =~= p.take(x.len() + 1int).drop_last());
        assert(x.push('/').drop_last() =~= x);
    }
}

/// Whether a path is exempt depends only on its relative form.
proof fn lemma_exempt_by_relative(c: AuthConfig, a: Seq<char>, b: Seq<char>)
    requires
        relative_path(a) == relative_path(b),
    ensures
        path_exempt(c, a) == path_exempt(c, b),
{
    if path_exempt(c, a) {
        let i = choose|i: int| 0 <= i < c.exempt_paths@.len() && exempt_by(a, #[trigger] c.exempt_paths@[i]@);
        assert(exempt_by(b, c.exempt_paths@[i]@));
    }
    if path_exempt(c, b) {
        let i = choose|i: int| 0 <= i < c.exempt_paths@.len() && exempt_by(b, #[trigger] c.exempt_paths@[i]@);
        assert(exempt_by(a, c.exempt_paths@[i]@));
    }
}

/// A path is exempt under the `/api/v1` prefix exactly when it is exempt without it, and
/// a trailing slash changes nothing.
pub proof fn lemma_exemption_ignores_prefix_and_slash(c: AuthConfig, path: Seq<char>)
    ensures
        !spec_starts_with(path, "/api/v1"@) ==> path_exempt(c, "/api/v1"@ + path) == path_exempt(c, path),
        path_exempt(c, path.push('/')) == path_exempt(c, path),
{
    reveal_strlit("/api/v1");
    let v = "/api/v1"@;
    assert(v.len() == 7);
    if !spec_starts_with(path, v) {
        let q = v + path;
        assert(q.take(7) =~= v);
        assert(q.skip(7) =~= path);
        lemma_exempt_by_relative(c, q, path);
    }
    let pp = path.push('/');
    if spec_starts_with(path, v) {
        assert(pp.take(7) =~= path.take(7));
        assert(pp.skip(7) =~= path.skip(7).push('/'));
        assert(pp.skip(7).drop_last() =~= path.skip(7));
    } else {
        if pp.len() >= 7 {
            if path.len() >= 7 {
                assert(pp.take(7) =~= path.take(7));
            } else {
                assert(pp.take(7)[6] == '/');
                assert(v[6] == '1');
            }
        }
        assert(!spec_starts_with(pp, v));
        assert(pp.drop_last() =~= path);
    }
    lemma_exempt_by_relative(c, pp, path);
}

impl AuthConfig {
    /// Authentication off, no API keys, `/health` exempt.
    pub fn new() -> (r: Self)
        ensures
            !r.enabled,
            r.api_key is None,
            r.exempt_paths@.len() == 1,
            r.exempt_paths@[0]@ == "/health"@,
    {
        let mut paths: Vec<String> = Vec::new();
        paths.push(owned("/health"));
        AuthConfig { enabled: false, api_key: None, exempt_paths: paths }
    }

    /// Enable authentication.
    pub fn enabled(self) -> (r: Self)
        ensures
            r.enabled,
            r.api_key == self.api_key,
            r.exempt_paths == self.exempt_paths,
    {
        AuthConfig { enabled: true, ..self }
    }

    /// Set the API key configuration.
    pub fn with_api_key(self, config: ApiKeyConfig) -> (r: Self)
        ensures
            r.enabled == self.enabled,
            r.api_key == Some(config),
            r.exempt_paths == self.exempt_paths,
    {
        AuthConfig { api_key: Some(config), ..self }
    }

    /// Add an exempt path.
    pub fn with_exempt_path(self, path: &str) -> (r: Self)
        ensures
            r.enabled == self.enabled,
            r.api_key == self.api_key,
            r.exempt_paths@.len() == self.exempt_paths@.len() + 1,
            r.exempt_paths@.drop_last() == self.exempt_paths@,
            r.exempt_paths@.last()@ == path@,
    {
        let mut r = self;
        r.exempt_paths.push(owned(path));
        assert(r.exempt_paths@.drop_last() =~= self.exempt_paths@);
        r
    }

    /// Whether `path` is exempt from authentication: after dropping a leading `/api/v1`
    /// and trailing slashes, it equals an exempt path (trailing slashes dropped too) or
    /// lies below one.
    pub fn is_path_exempt(&self, path: &str) -> (r: bool)
        ensures
            r == path_exempt(*self, path@),
    {
        let p = chars_of(path);
        let api = chars_of("/api/v1");
        proof {
            reveal_strlit("/api/v1");
        }
        let mut lo: usize = 0;
        if p.len() >= 7 && range_eq(&p, 0, 7, &api, 0, 7) {
            lo = 7;
        }
        proof {
            assert(api@.subrange(0, 7) =~= api@);
            if spec_starts_with(path@, "/api/v1"@) {
                assert(p@.subrange(0, 7) =~= p@.take(7));
            }
            if lo == 7 {
                assert(path@.take(7) =~= p@.subrange(0, 7));
            }
            assert(p@.subrange(lo as int, p@.len() as int) =~= (if spec_starts_with(path@, "/api/v1"@) { path@.skip(7) } else { path@ }));
        }
        let hi = trimmed_end(&p, lo, p.len());
        let mut i: usize = 0;
        while i < self.exempt_paths.len()
            invariant
                i <= self.exempt_paths@.len(),
                lo <= hi <= p@.len(),
                p@ == path@,
                p@.subrange(lo as int, hi as int) == relative_path(path@),
                forall|j: int| 0 <= j < i ==> !exempt_by(path@, #[trigger] self.exempt_paths@[j]@),
            decreases self.exempt_paths@.len() - i,
        {
            let e = chars_of(self.exempt_paths[i].as_str());
            let ehi = trimmed_end(&e, 0, e.len());
            let ghost x = trim_end_slashes(e@);
            assert(e@.subrange(0, e@.len() as int) =~= e@);
            let same = range_eq(&p, lo, hi, &e, 0, ehi);
            let mut below = false;
            if hi - lo > ehi && p[lo + ehi] == '/' {
                below = range_eq(&p, lo, lo + ehi, &e, 0, ehi);
            }
            proof {
                let rp = p@.subrange(lo as int, hi as int);
                assert(e@.subrange(0, ehi as int) == x);
                if spec_starts_with(rp, x.push('/')) {
                    assert(rp.take(x.len() + 1int)[x.len() as int] == '/');
                    assert(rp[x.len() as int] == p@[lo + ehi]);
                    assert(p@.subrange(lo as int, lo + ehi) =~= rp.take(x.len() as int));
                    assert(rp.take(x.len() as int) =~= rp.take(x.len() + 1int).drop_last());
                    assert(x.push('/').drop_last() =~= x);
                    assert(p@.subrange(lo as int, lo + ehi) == e@.subrange(0, ehi as int));
                }
                if below {
                    assert(rp.take(x.len() + 1int) =~= p@.subrange(lo as int, lo + ehi).push('/'));
                }
            }
            if same || below {
                return true;
            }
            i = i + 1;
        }
        false
    }
}

impl Default for AuthConfig {
    /// Authentication off, no API keys, `/health` exempt.
    fn default() -> (r: Self)
        ensures
            !r.enabled,
            r.api_key is None,
            r.exempt_paths@.len() == 1,
            r.exempt_paths@[0]@ == "/health"@,
    {
        AuthConfig::new()
    }
}

} // verus!
