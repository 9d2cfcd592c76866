//! NATS-based dispatch configuration.
use vstd::prelude::*;
use crate::text::owned;

verus! {

/// NATS authentication credentials.
#[derive(Debug, Clone)]
pub enum NatsCredentials {
    /// Username/password authentication.
    UserPass {
        /// Username.
        username: String,
        /// Password.
        password: String,
    },
    /// Token authentication.
    Token {
        /// Authentication token.
        token: String,
    },
    /// NKey authentication.
    NKey {
        /// NKey seed (private key).
        seed: String,
    },
    /// Credentials file authentication.
    CredsFile {
        /// Path to credentials file.
        path: String,
    },
}

/// Configuration for NATS-based dispatch.
#[derive(Debug, Clone)]
pub struct NatsConfig {
    /// NATS server URL (e.g., "nats://localhost:4222").
    pub url: String,
    /// Subject prefix for trace queues.
    pub subject_prefix: String,
    /// Use JetStream for persistence.
    pub use_jetstream: bool,
    /// Stream name (for JetStream).
    pub stream_name: String,
    /// Consumer name.
    pub consumer_name: Option<String>,
    /// Durable consumer name (survives restarts).
    pub durable_name: Option<String>,
    /// Ack wait timeout in milliseconds.
    pub ack_wait_ms: u64,
    /// Max in-flight messages per consumer.
    pub max_ack_pending: u64,
    /// Authentication credentials.
    pub credentials: Option<NatsCredentials>,
    /// Enable TLS.
    pub tls: bool,
}

/// The defaults of a NATS config, but for its URL.
pub open spec fn nats_defaults_but_url(c: NatsConfig) -> bool {
    &&& c.subject_prefix@ == "xerv.dispatch"@
    &&& c.use_jetstream
    &&& c.stream_name@ == "XERV_TRACES"@
    &&& c.consumer_name is None
    &&& c.durable_name is None
    &&& c.ack_wait_ms == 30_000
    &&& c.max_ack_pending == 1000
    &&& c.credentials is None
    &&& !c.tls
}

/// `a` and `b` agree on every field but those a builder step sets.
pub open spec fn nats_same_except(a: NatsConfig, b: NatsConfig, prefix: bool, jet: bool, stream: bool, consumer: bool, durable: bool, ack: bool, pending: bool, creds: bool, tls: bool) -> bool {
    &&& a.url == b.url
    &&& (prefix || a.subject_prefix == b.subject_prefix)
    &&& (jet || a.use_jetstream == b.use_jetstream)
    &&& (stream || a.stream_name == b.stream_name)
    &&& (consumer || a.consumer_name == b.consumer_name)
    &&& (durable || a.durable_name == b.durable_name)
    &&& (ack || a.ack_wait_ms == b.ack_wait_ms)
    &&& (pending || a.max_ack_pending == b.max_ack_pending)
    &&& (creds || a.credentials == b.credentials)
    &&& (tls || a.tls == b.tls)
}

impl Default for NatsConfig {
    /// NATS on `nats://localhost:4222`, with JetStream.
    fn default() -> (r: Self)
        ensures
            r.url@ == "nats://localhost:4222"@,
            nats_defaults_but_url(r),
    {
        NatsConfig::new("nats://localhost:4222")
    }
}

impl NatsConfig {
    /// A NATS config with the given URL and default settings.
    pub fn new(url: &str) -> (r: Self)
        ensures
            r.url@ == url@,
            nats_defaults_but_url(r),
    {
        NatsConfig {
            url: owned(url),
            subject_prefix: owned("xerv.dispatch"),
            use_jetstream: true,
            stream_name: owned("XERV_TRACES"),
            consumer_name: None,
            durable_name: None,
            ack_wait_ms: 30_000,
            max_ack_pending: 1000,
            credentials: None,
            tls: false,
        }
    }

    /// Enable JetStream for persistence.
    pub fn with_jetstream(self) -> (r: Self)
        ensures
            r.use_jetstream,
            nats_same_except(r, self, false, true, false, false, false, false, false, false, false),
    {
        NatsConfig { use_jetstream: true, ..self }
    }

    /// Disable JetStream (use core NATS).
    pub fn without_jetstream(self) -> (r: Self)
        ensures
            !r.use_jetstream,
            nats_same_except(r, self, false, true, false, false, false, false, false, false, false),
    {
        NatsConfig { use_jetstream: false, ..self }
    }

    /// Set the stream name.
    pub fn stream_name(self, name: &str) -> (r: Self)
        ensures
            r.stream_name@ == name@,
            nats_same_except(r, self, false, false, true, false, false, false, false, false, false),
    {
        NatsConfig { stream_name: owned(name), ..self }
    }

    /// Set the subject prefix.
    pub fn subject_prefix(self, prefix: &str) -> (r: Self)
        ensures
            r.subject_prefix@ == prefix@,
            nats_same_except(r, self, true, false, false, false, false, false, false, false, false),
    {
        NatsConfig { subject_prefix: owned(prefix), ..self }
    }

    /// Set a durable consumer name.
    pub fn durable(self, name: &str) -> (r: Self)
        ensures
            r.durable_name matches Some(n) && n@ == name@,
            nats_same_except(r, self, false, false, false, false, true, false, false, false, false),
    {
        NatsConfig { durable_name: Some(owned(name)), ..self }
    }

    /// Set the consumer name.
    pub fn consumer_name(self, name: &str) -> (r: Self)
        ensures
            r.consumer_name matches Some(n) && n@ == name@,
            nats_same_except(r, self, false, false, false, true, false, false, false, false, false),
    {
        NatsConfig { consumer_name: Some(owned(name)), ..self }
    }

    /// Set the ack wait timeout in milliseconds.
    pub fn ack_wait_ms(self, ms: u64) -> (r: Self)
        ensures
            r.ack_wait_ms == ms,
            nats_same_except(r, self, false, false, false, false, false, true, false, false, false),
    {
        NatsConfig { ack_wait_ms: ms, ..self }
    }

    /// Set the max ack pending limit.
    pub fn max_ack_pending(self, limit: u64) -> (r: Self)
        ensures
            r.max_ack_pending == limit,
            nats_same_except(r, self, false, false, false, false, false, false, true, false, false),
    {
        NatsConfig { max_ack_pending: limit, ..self }
    }

    /// Set username/password credentials.
    pub fn with_user_pass(self, username: &str, password: &str) -> (r: Self)
        ensures
            r.credentials matches Some(NatsCredentials::UserPass { username: u, password: p })
                && u@ == username@ && p@ == password@,
            nats_same_except(r, self, false, false, false, false, false, false, false, true, false),
    {
        NatsConfig {
            credentials: Some(NatsCredentials::UserPass { username: owned(username), password: owned(password) }),
            ..self
        }
    }

    /// Set token credentials.
    pub fn with_token(self, token: &str) -> (r: Self)
        ensures
            r.credentials matches Some(NatsCredentials::Token { token: t }) && t@ == token@,
            nats_same_except(r, self, false, false, false, false, false, false, false, true, false),
    {
        NatsConfig { credentials: Some(NatsCredentials::Token { token: owned(token) }), ..self }
    }

    /// Set NKey credentials.
    pub fn with_nkey(self, seed: &str) -> (r: Self)
        ensures
            r.credentials matches Some(NatsCredentials::NKey { seed: s }) && s@ == seed@,
            nats_same_except(r, self, false, false, false, false, false, false, false, true, false),
    {
        NatsConfig { credentials: Some(NatsCredentials::NKey { seed: owned(seed) }), ..self }
    }

    /// Set a credentials file.
    pub fn with_creds_file(self, path: &str) -> (r: Self)
        ensures
            r.credentials matches Some(NatsCredentials::CredsFile { path: p }) && p@ == path@,
            nats_same_except(r, self, false, false, false, false, false, false, false, true, false),
    {
        NatsConfig { credentials: Some(NatsCredentials::CredsFile { path: owned(path) }), ..self }
    }

    /// Enable TLS.
    pub fn with_tls(self) -> (r: Self)
        ensures
            r.tls,
            nats_same_except(r, self, false, false, false, false, false, false, false, false, true),
    {
        NatsConfig { tls: true, ..self }
    }
}

} // verus!
