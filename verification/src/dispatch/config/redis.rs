//! Redis-based dispatch configuration.
use vstd::prelude::*;
use crate::text::owned;

verus! {

/// Configuration for Redis-based dispatch.
#[derive(Debug, Clone)]
pub struct RedisConfig {
    /// Redis URL (e.g., "redis://localhost:6379").
    pub url: String,
    /// Connection pool size.
    pub pool_size: usize,
    /// Queue key prefix.
    pub key_prefix: String,
    /// Use Redis Streams (reliable delivery) vs List (simple FIFO).
    pub use_streams: bool,
    /// Consumer group name (for streams).
    pub consumer_group: String,
    /// Consumer name within the group.
    pub consumer_name: Option<String>,
    /// Message timeout in milliseconds (for claiming stale messages).
    pub message_timeout_ms: u64,
    /// Enable TLS.
    pub tls: bool,
    /// TLS CA certificate path.
    pub tls_ca_cert: Option<String>,
}

/// The defaults of a Redis config, but for its URL.
pub open spec fn redis_defaults_but_url(c: RedisConfig) -> bool {
    &&& c.pool_size == 10
    &&& c.key_prefix@ == "xerv:dispatch"@
    &&& c.use_streams
    &&& c.consumer_group@ == "xerv-workers"@
    &&& c.consumer_name is None
    &&& c.message_timeout_ms == 60_000
    &&& !c.tls
    &&& c.tls_ca_cert is None
}

/// `a` and `b` agree on every field but those a builder step sets.
pub open spec fn redis_same_except(a: RedisConfig, b: RedisConfig, url: bool, pool: bool, prefix: bool, streams: bool, group: bool, name: bool, timeout: bool, tls: bool, ca: bool) -> bool {
    &&& (url || a.url == b.url)
    &&& (pool || a.pool_size == b.pool_size)
    &&& (prefix || a.key_prefix == b.key_prefix)
    &&& (streams || a.use_streams == b.use_streams)
    &&& (group || a.consumer_group == b.consumer_group)
    &&& (name || a.consumer_name == b.consumer_name)
    &&& (timeout || a.message_timeout_ms == b.message_timeout_ms)
    &&& (tls || a.tls == b.tls)
    &&& (ca || a.tls_ca_cert == b.tls_ca_cert)
}

impl Default for RedisConfig {
    /// Redis on `redis://localhost:6379`, with streams.
    fn default() -> (r: Self)
        ensures
            r.url@ == "redis://localhost:6379"@,
            redis_defaults_but_url(r),
    {
        RedisConfig::new("redis://localhost:6379")
    }
}

impl RedisConfig {
    /// A Redis config with the given URL and default settings.
    pub fn new(url: &str) -> (r: Self)
        ensures
            r.url@ == url@,
            redis_defaults_but_url(r),
    {
        RedisConfig {
            url: owned(url),
            pool_size: 10,
            key_prefix: owned("xerv:dispatch"),
            use_streams: true,
            consumer_group: owned("xerv-workers"),
            consumer_name: None,
            message_timeout_ms: 60_000,
            tls: false,
            tls_ca_cert: None,
        }
    }

    /// Enable Redis Streams for reliable delivery.
    pub fn with_streams(self) -> (r: Self)
        ensures
            r.use_streams,
            redis_same_except(r, self, false, false, false, true, false, false, false, false, false),
    {
        RedisConfig { use_streams: true, ..self }
    }

    /// Disable Redis Streams (use simple lists).
    pub fn without_streams(self) -> (r: Self)
        ensures
            !r.use_streams,
            redis_same_except(r, self, false, false, false, true, false, false, false, false, false),
    {
        RedisConfig { use_streams: false, ..self }
    }

    /// Same as `with_streams`.
    pub fn use_streams(self) -> (r: Self)
        ensures
            r.use_streams,
            redis_same_except(r, self, false, false, false, true, false, false, false, false, false),
    {
        self.with_streams()
    }

    /// Set the consumer group name.
    pub fn consumer_group(self, group: &str) -> (r: Self)
        ensures
            r.consumer_group@ == group@,
            redis_same_except(r, self, false, false, false, false, true, false, false, false, false),
    {
        RedisConfig { consumer_group: owned(group), ..self }
    }

    /// Set the consumer name.
    pub fn consumer_name(self, name: &str) -> (r: Self)
        ensures
            r.consumer_name matches Some(n) && n@ == name@,
            redis_same_except(r, self, false, false, false, false, false, true, false, false, false),
    {
        RedisConfig { consumer_name: Some(owned(name)), ..self }
    }

    /// Set the pool size.
    pub fn pool_size(self, size: usize) -> (r: Self)
        ensures
            r.pool_size == size,
            redis_same_except(r, self, false, true, false, false, false, false, false, false, false),
    {
        RedisConfig { pool_size: size, ..self }
    }

    /// Set the key prefix.
    pub fn key_prefix(self, prefix: &str) -> (r: Self)
        ensures
            r.key_prefix@ == prefix@,
            redis_same_except(r, self, false, false, true, false, false, false, false, false, false),
    {
        RedisConfig { key_prefix: owned(prefix), ..self }
    }

    /// Set the message timeout in milliseconds.
    pub fn message_timeout_ms(self, ms: u64) -> (r: Self)
        ensures
            r.message_timeout_ms == ms,
            redis_same_except(r, self, false, false, false, false, false, false, true, false, false),
    {
        RedisConfig { message_timeout_ms: ms, ..self }
    }

    /// Enable TLS.
    pub fn with_tls(self) -> (r: Self)
        ensures
            r.tls,
            redis_same_except(r, self, false, false, false, false, false, false, false, true, false),
    {
        RedisConfig { tls: true, ..self }
    }

    /// Set the TLS CA certificate path; this also enables TLS.
    pub fn tls_ca_cert(self, path: &str) -> (r: Self)
        ensures
            r.tls,
            r.tls_ca_cert matches Some(p) && p@ == path@,
            redis_same_except(r, self, false, false, false, false, false, false, false, true, true),
    {
        RedisConfig { tls_ca_cert: Some(owned(path)), tls: true, ..self }
    }
}

} // verus!
