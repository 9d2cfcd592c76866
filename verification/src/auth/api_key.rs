//! API keys: their hashes, validation against configured entries, and building entries.
use vstd::prelude::*;
use sha2::{Digest, Sha256};
use super::config::{ApiKeyConfig, ApiKeyEntry};
use super::context::{AuthContext, AuthScope, ScopeSet, all_scopes};
use crate::text::{ascii_lower, ascii_text, lower_ascii, lowercase, owned, spec_lowercase, str_eq};
use crate::types::hex_digit;

verus! {

/// The lower-case hexadecimal text of `bytes`: two digits per byte, high nibble first.
pub open spec fn hex_lower(bytes: Seq<u8>) -> Seq<char>
    decreases bytes.len(),
{
    if bytes.len() == 0 {
        Seq::empty()
    } else {
        hex_lower(bytes.drop_last()).push(hex_digit((bytes.last() / 16) as u128)).push(
            hex_digit((bytes.last() % 16) as u128),
        )
    }
}

/// The SHA-256 digest of `data`.
pub uninterp spec fn spec_sha256(data: Seq<u8>) -> Seq<u8>;

/// SHA-256 of `data`, with `sha2::Sha256::digest`: 32 bytes that depend on the data
/// alone.
#[verifier::external_body]
fn sha256(data: &[u8]) -> (r: Vec<u8>)
    ensures
        r@ == spec_sha256(data@),
        r@.len() == 32,
{
    Sha256::digest(data).to_vec()
}

/// Hexadecimal text of `bytes` with `hex::encode`, which writes two lower-case digits per
/// byte, high nibble first.
#[verifier::external_body]
fn hex_encode(bytes: &[u8]) -> (r: String)
    ensures
        r@ == hex_lower(bytes@),
{
    hex::encode(bytes)
}

/// Hex text is made of digits and lower-case letters, so it is lower-case ASCII.
proof fn lemma_hex_lower_ascii(bytes: Seq<u8>)
    ensures
        lower_ascii(hex_lower(bytes)),
    decreases bytes.len(),
{
    if bytes.len() > 0 {
        lemma_hex_lower_ascii(bytes.drop_last());
        let h = hex_lower(bytes.drop_last());
        let hi = hex_digit((bytes.last() / 16) as u128);
        let lo = hex_digit((bytes.last() % 16) as u128);
        assert(('0' <= hi <= '9') || ('a' <= hi <= 'z'));
        assert(('0' <= lo <= '9') || ('a' <= lo <= 'z'));
        assert forall|i: int| 0 <= i < hex_lower(bytes).len() implies (#[trigger] hex_lower(bytes)[i] as int) < 128
            && !('A' <= hex_lower(bytes)[i] <= 'Z') by {
            if i < h.len() {
                assert(hex_lower(bytes)[i] == h[i]);
            }
        }
    }
}

/// Hex text has two digits per byte.
proof fn lemma_hex_lower_len(bytes: Seq<u8>)
    ensures
        hex_lower(bytes).len() == 2 * bytes.len(),
    decreases bytes.len(),
{
    if bytes.len() > 0 {
        lemma_hex_lower_len(bytes.drop_last());
    }
}

/// The stored form of a plaintext key: the hex text of the SHA-256 of its UTF-8 bytes.
pub open spec fn key_digest_text(key: Seq<char>) -> Seq<char> {
    hex_lower(spec_sha256(vstd::utf8::encode_utf8(key)))
}

/// The hex text of the SHA-256 of `key`'s UTF-8 bytes.
fn digest_text(key: &str) -> (r: String)
    ensures
        r@ == key_digest_text(key@),
        r@.len() == 64,
{
    let bytes = key.as_bytes_vec();
    let digest = sha256(bytes.as_slice());
    proof {
        lemma_hex_lower_len(digest@);
    }
    hex_encode(digest.as_slice())
}

/// Stored key hashes match themselves when lower-cased: `lowercase` leaves hex text as it is.
pub open spec fn lower_stable(s: Seq<char>) -> bool {
    spec_lowercase(s) == s
}

/// A hashed API key (lower-case hex text).
#[derive(Debug, Clone, PartialEq, Eq)]
pub struct ApiKeyHash(String);

impl View for ApiKeyHash {
    type V = Seq<char>;

    closed spec fn view(&self) -> Seq<char> {
        self.0@
    }
}

impl ApiKeyHash {
    /// A hash from its hex text, lower-cased.
    pub fn new(hash: &str) -> (r: Self)
        ensures
            r@ == spec_lowercase(hash@),
            ascii_text(hash@) ==> r@ == ascii_lower(hash@),
    {
        ApiKeyHash(lowercase(hash))
    }

    /// The hash of a plaintext API key: SHA-256 of its UTF-8 bytes, as hex text.
    pub fn from_plaintext(key: &str) -> (r: Self)
        ensures
            r@ == key_digest_text(key@),
            r@.len() == 64,
    {
        ApiKeyHash(digest_text(key))
    }

    /// The hex text of the hash.
    pub fn as_str(&self) -> (r: &str)
        ensures
            r@ == self@,
    {
        self.0.as_str()
    }
}

/// The first entry whose lower-cased stored hash equals `hash`, if any.
pub open spec fn first_match(keys: Seq<ApiKeyEntry>, hash: Seq<char>, i: int) -> bool {
    &&& 0 <= i < keys.len()
    &&& spec_lowercase(keys[i].key_hash@) == hash
    &&& forall|j: int| 0 <= j < i ==> spec_lowercase(#[trigger] keys[j].key_hash@) != hash
}

/// Some entry's lower-cased stored hash equals `hash`.
pub open spec fn some_match(keys: Seq<ApiKeyEntry>, hash: Seq<char>) -> bool {
    exists|i: int| 0 <= i < keys.len() && spec_lowercase(#[trigger] keys[i].key_hash@) == hash
}

/// Some entry's stored hash is ASCII and, lower-cased letter by letter, equals `hash`:
/// it matches whatever the case of its letters.
pub open spec fn some_case_match(keys: Seq<ApiKeyEntry>, hash: Seq<char>) -> bool {
    exists|i: int| 0 <= i < keys.len() && ascii_text(#[trigger] keys[i].key_hash@)
        && ascii_lower(keys[i].key_hash@) == hash
}

/// The stored form of a key is lower-case ASCII, so lower-casing it letter by letter
/// leaves it as it is: a hash text equal to it up to the case of its letters lower-cases
/// to it.
pub proof fn lemma_key_digest_lower_ascii(key: Seq<char>)
    ensures
        lower_ascii(key_digest_text(key)),
        ascii_text(key_digest_text(key)),
        ascii_lower(key_digest_text(key)) == key_digest_text(key),
{
    let d = key_digest_text(key);
    lemma_hex_lower_ascii(spec_sha256(vstd::utf8::encode_utf8(key)));
    assert(ascii_lower(d) =~= d);
}

/// At most one entry is the first whose lower-cased stored hash equals `hash`: validating
/// a key and validating its hash (in any letter case) find the same entry.
pub proof fn lemma_first_match_unique(keys: Seq<ApiKeyEntry>, hash: Seq<char>, i: int, j: int)
    requires
        first_match(keys, hash, i),
        first_match(keys, hash, j),
    ensures
        i == j,
{
    if i < j {
        assert(spec_lowercase(keys[i].key_hash@) != hash);
    } else if j < i {
        assert(spec_lowercase(keys[j].key_hash@) != hash);
    }
}

/// Validates API keys against configured entries.
pub struct ApiKeyValidator<'a> {
    config: &'a ApiKeyConfig,
}

impl<'a> ApiKeyValidator<'a> {
    /// The configuration validated against.
    pub closed spec fn spec_config(&self) -> ApiKeyConfig {
        *self.config
    }

    /// A validator for `config`.
    pub fn new(config: &'a ApiKeyConfig) -> (r: Self)
        ensures
            r.spec_config() == *config,
    {
        ApiKeyValidator { config }
    }

    /// The header that carries API keys.
    pub fn header_name(&self) -> (r: &str)
        ensures
            r@ == self.spec_config().header_name@,
    {
        self.config.header_name.as_str()
    }

    /// The context of the first entry whose stored hash, lower-cased, equals `hash`.
    fn lookup(&self, hash: &str) -> (r: Option<AuthContext>)
        ensures
            r is Some <==> some_match(self.spec_config().keys@, hash@),
            some_case_match(self.spec_config().keys@, hash@) ==> r is Some,
            r matches Some(ctx) ==> exists|i: int| first_match(self.spec_config().keys@, hash@, i)
                && ctx.identity@ == self.spec_config().keys@[i].identity@
                && ctx.scopes@ == self.spec_config().keys@[i].scopes@,
    {
        let keys = &self.config.keys;
        let mut i: usize = 0;
        while i < keys.len()
            invariant
                keys@ == self.spec_config().keys@,
                i <= keys@.len(),
                forall|j: int| 0 <= j < i ==> spec_lowercase(#[trigger] keys@[j].key_hash@) != hash@,
                forall|j: int| 0 <= j < i && ascii_text(#[trigger] keys@[j].key_hash@) ==> ascii_lower(keys@[j].key_hash@) != hash@,
            decreases keys@.len() - i,
        {
            let stored = lowercase(keys[i].key_hash.as_str());
            if str_eq(stored.as_str(), hash) {
                let entry = &keys[i];
                let ctx = AuthContext::new(entry.identity.as_str(), entry.scopes.duplicate());
                assert(first_match(keys@, hash@, i as int));
                return Some(ctx);
            }
            i = i + 1;
        }
        None
    }

    /// Validate a plaintext API key: the context of the first entry whose stored hash
    /// (lower-cased) is the key's hash, or `None`.
    pub fn validate(&self, key: &str) -> (r: Option<AuthContext>)
        ensures
            r is Some <==> some_match(self.spec_config().keys@, key_digest_text(key@)),
            some_case_match(self.spec_config().keys@, key_digest_text(key@)) ==> r is Some,
            r matches Some(ctx) ==> exists|i: int| first_match(self.spec_config().keys@, key_digest_text(key@), i)
                && ctx.identity@ == self.spec_config().keys@[i].identity@
                && ctx.scopes@ == self.spec_config().keys@[i].scopes@,
    {
        let key_hash = ApiKeyHash::from_plaintext(key);
        self.lookup(key_hash.as_str())
    }

    /// Validate a hashed API key.
    pub fn validate_hash(&self, hash: &ApiKeyHash) -> (r: Option<AuthContext>)
        ensures
            r is Some <==> some_match(self.spec_config().keys@, hash@),
            some_case_match(self.spec_config().keys@, hash@) ==> r is Some,
            r matches Some(ctx) ==> exists|i: int| first_match(self.spec_config().keys@, hash@, i)
                && ctx.identity@ == self.spec_config().keys@[i].identity@
                && ctx.scopes@ == self.spec_config().keys@[i].scopes@,
    {
        self.lookup(hash.as_str())
    }
}

/// Builder for API key entries.
pub struct ApiKeyBuilder {
    identity: String,
    scopes: ScopeSet,
}

impl ApiKeyBuilder {
    /// The identity of the entry being built.
    pub closed spec fn spec_identity(&self) -> Seq<char> {
        self.identity@
    }

    /// The scopes of the entry being built.
    pub closed spec fn spec_scopes(&self) -> Set<AuthScope> {
        self.scopes@
    }

    /// A builder for `identity`, with no scopes.
    pub fn new(identity: &str) -> (r: Self)
        ensures
            r.spec_identity() == identity@,
            r.spec_scopes() == Set::<AuthScope>::empty(),
    {
        ApiKeyBuilder { identity: owned(identity), scopes: ScopeSet::new() }
    }

    /// Add a scope.
    pub fn with_scope(self, scope: AuthScope) -> (r: Self)
        ensures
            r.spec_identity() == self.spec_identity(),
            r.spec_scopes() == self.spec_scopes().insert(scope),
    {
        let mut r = self;
        r.scopes.insert(scope);
        r
    }

    /// Add the read-only scopes.
    pub fn read_only(self) -> (r: Self)
        ensures
            r.spec_identity() == self.spec_identity(),
            r.spec_scopes() == self.spec_scopes().union(set![AuthScope::PipelineRead, AuthScope::TraceRead]),
    {
        let mut r = self;
        r.scopes.extend(&AuthScope::read_only());
        r
    }

    /// Add the operator scopes.
    pub fn operator(self) -> (r: Self)
        ensures
            r.spec_identity() == self.spec_identity(),
            r.spec_scopes() == self.spec_scopes().union(
                set![AuthScope::PipelineRead, AuthScope::TraceRead, AuthScope::TraceResume],
            ),
    {
        let mut r = self;
        r.scopes.extend(&AuthScope::operator());
        r
    }

    /// Add every scope (admin).
    pub fn admin(self) -> (r: Self)
        ensures
            r.spec_identity() == self.spec_identity(),
            r.spec_scopes() == self.spec_scopes().union(all_scopes()),
    {
        let mut r = self;
        r.scopes.extend(&AuthScope::all());
        r
    }

    /// The entry for a plaintext key: its hash is stored, no expiry.
    pub fn build_with_key(self, plaintext_key: &str) -> (r: ApiKeyEntry)
        ensures
            r.identity@ == self.spec_identity(),
            r.key_hash@ == key_digest_text(plaintext_key@),
            r.key_hash@.len() == 64,
            lower_stable(r.key_hash@),
            r.scopes@ == self.spec_scopes(),
            r.expires_at is None,
    {
        let hash = ApiKeyHash::from_plaintext(plaintext_key);
        proof {
            lemma_hex_lower_ascii(spec_sha256(vstd::utf8::encode_utf8(plaintext_key@)));
        }
        let stored = lowercase(hash.as_str());
        ApiKeyEntry { identity: self.identity, key_hash: stored, scopes: self.scopes, expires_at: None }
    }

    /// The entry for a precomputed hash (stored lower-cased), no expiry.
    pub fn build_with_hash(self, hash: &str) -> (r: ApiKeyEntry)
        ensures
            r.identity@ == self.spec_identity(),
            r.key_hash@ == spec_lowercase(hash@),
            r.scopes@ == self.spec_scopes(),
            r.expires_at is None,
    {
        ApiKeyEntry { identity: self.identity, key_hash: lowercase(hash), scopes: self.scopes, expires_at: None }
    }
}

/// An entry built from a plaintext key is found again by validating that key.
pub proof fn lemma_built_key_validates(keys: Seq<ApiKeyEntry>, i: int, key: Seq<char>)
    requires
        0 <= i < keys.len(),
        keys[i].key_hash@ == key_digest_text(key),
        lower_stable(keys[i].key_hash@),
    ensures
        some_match(keys, key_digest_text(key)),
{
    assert(spec_lowercase(keys[i].key_hash@) == key_digest_text(key));
}

} // verus!
