//! Dispatch backend configuration: in-memory, Raft, Redis and NATS.
pub mod memory;
pub mod nats;
pub mod raft;
pub mod redis;

use vstd::prelude::*;
use crate::text::{lowercase, parse_u64, parsed_at_most, spec_lowercase, str_eq};
use memory::MemoryConfig;
use nats::{NatsConfig, nats_defaults_but_url};
use raft::{RaftConfig, raft_defaults_but_node};
use redis::{RedisConfig, redis_defaults_but_url};

verus! {

/// Configuration for the dispatch backend; the default is `Memory`.
#[derive(Debug, Clone)]
pub enum DispatchConfig {
    /// In-memory dispatch (single-node, no persistence).
    Memory(MemoryConfig),
    /// Built-in Raft consensus (multi-node, no external dependencies).
    Raft(RaftConfig),
    /// Redis-based dispatch (high throughput, requires external Redis).
    Redis(RedisConfig),
    /// NATS-based dispatch (streaming, requires external NATS).
    Nats(NatsConfig),
}

/// The name of a backend.
pub open spec fn backend_label(c: DispatchConfig) -> Seq<char> {
    match c {
        DispatchConfig::Memory(_) => "memory"@,
        DispatchConfig::Raft(_) => "raft"@,
        DispatchConfig::Redis(_) => "redis"@,
        DispatchConfig::Nats(_) => "nats"@,
    }
}

/// A memory config with default values.
pub open spec fn is_default_memory(c: MemoryConfig) -> bool {
    c.max_queue_size == memory::DEFAULT_MAX_QUEUE_SIZE && !c.priority_queue
}

/// The Raft node ID given by the text `t`: its value when it reads as a `u64`, else 1.
pub open spec fn node_id_setting(t: Option<Seq<char>>) -> u64 {
    match t {
        Some(t) => match parsed_at_most(t, u64::MAX as int) {
            Some(v) => v as u64,
            None => 1,
        },
        None => 1,
    }
}

/// The config that the backend setting `b` (lower-cased) selects, given the other
/// settings: Raft with the given node ID, Redis with streams, NATS with JetStream at the
/// given URLs (or the local defaults); anything else selects memory.
pub open spec fn selects(c: DispatchConfig, b: Seq<char>, node_id: Option<Seq<char>>, redis_url: Option<Seq<char>>, nats_url: Option<Seq<char>>) -> bool {
    let l = spec_lowercase(b);
    if l == "raft"@ {
        c matches DispatchConfig::Raft(rc) && rc.node_id == node_id_setting(node_id) && raft_defaults_but_node(rc)
    } else if l == "redis"@ {
        c matches DispatchConfig::Redis(rc) && redis_defaults_but_url(rc) && rc.url@ == (match redis_url {
            Some(u) => u,
            None => "redis://localhost:6379"@,
        })
    } else if l == "nats"@ {
        c matches DispatchConfig::Nats(nc) && nats_defaults_but_url(nc) && nc.url@ == (match nats_url {
            Some(u) => u,
            None => "nats://localhost:4222"@,
        })
    } else {
        c matches DispatchConfig::Memory(mc) && is_default_memory(mc)
    }
}

/// The text of an optional string.
pub open spec fn opt_view(s: Option<&str>) -> Option<Seq<char>> {
    match s {
        Some(s) => Some(s@),
        None => None,
    }
}

impl Default for DispatchConfig {
    /// In-memory dispatch with default settings.
    fn default() -> (r: Self)
        ensures
            r matches DispatchConfig::Memory(c) && is_default_memory(c),
    {
        DispatchConfig::Memory(MemoryConfig::new())
    }
}

impl DispatchConfig {
    /// In-memory dispatch with default settings.
    pub fn memory() -> (r: Self)
        ensures
            r matches DispatchConfig::Memory(c) && is_default_memory(c),
    {
        DispatchConfig::Memory(MemoryConfig::new())
    }

    /// In-memory dispatch with the given settings.
    pub fn memory_with(config: MemoryConfig) -> (r: Self)
        ensures
            r == DispatchConfig::Memory(config),
    {
        DispatchConfig::Memory(config)
    }

    /// Raft dispatch with the given settings.
    pub fn raft(config: RaftConfig) -> (r: Self)
        ensures
            r == DispatchConfig::Raft(config),
    {
        DispatchConfig::Raft(config)
    }

    /// Redis dispatch with the given settings.
    pub fn redis(config: RedisConfig) -> (r: Self)
        ensures
            r == DispatchConfig::Redis(config),
    {
        DispatchConfig::Redis(config)
    }

    /// NATS dispatch with the given settings.
    pub fn nats(config: NatsConfig) -> (r: Self)
        ensures
            r == DispatchConfig::Nats(config),
    {
        DispatchConfig::Nats(config)
    }

    /// The backend's name.
    pub fn backend_name(&self) -> (r: &'static str)
        ensures
            r@ == backend_label(*self),
    {
        match self {
            DispatchConfig::Memory(_) => "memory",
            DispatchConfig::Raft(_) => "raft",
            DispatchConfig::Redis(_) => "redis",
            DispatchConfig::Nats(_) => "nats",
        }
    }

    /// The memory settings: those configured for memory dispatch, else the defaults.
    pub fn memory_config(&self) -> (r: MemoryConfig)
        ensures
            match *self {
                DispatchConfig::Memory(c) => r == c,
                _ => is_default_memory(r),
            },
    {
        match self {
            DispatchConfig::Memory(c) => *c,
            _ => MemoryConfig::new(),
        }
    }

    /// The config that the settings select: `None` when no backend is set; the backend
    /// name is compared lower-cased; see `selects`.
    pub fn from_settings(backend: Option<&str>, raft_node_id: Option<&str>, redis_url: Option<&str>, nats_url: Option<&str>) -> (r: Option<Self>)
        ensures
            backend is None ==> r is None,
            backend matches Some(b) ==> (r matches Some(c) && selects(c, b@, opt_view(raft_node_id), opt_view(redis_url), opt_view(nats_url))),
    {
        let b = match backend {
            Some(b) => b,
            None => {
                return None;
            },
        };
        let l = lowercase(b);
        proof {
            reveal_strlit("raft");
            reveal_strlit("redis");
            reveal_strlit("nats");
        }
        if str_eq(l.as_str(), "raft") {
            let node_id = match raft_node_id {
                Some(t) => match parse_u64(t) {
                    Some(v) => v,
                    None => 1,
                },
                None => 1,
            };
            Some(DispatchConfig::Raft(RaftConfig::new(node_id)))
        } else if str_eq(l.as_str(), "redis") {
            let url = match redis_url {
                Some(u) => u,
                None => "redis://localhost:6379",
            };
            Some(DispatchConfig::Redis(RedisConfig::new(url).use_streams()))
        } else if str_eq(l.as_str(), "nats") {
            let url = match nats_url {
                Some(u) => u,
                None => "nats://localhost:4222",
            };
            Some(DispatchConfig::Nats(NatsConfig::new(url).with_jetstream()))
        } else {
            Some(DispatchConfig::Memory(MemoryConfig::new()))
        }
    }
    /// The config that the settings select, or in-memory dispatch with default
    /// settings when no backend is set.
    pub fn from_env_or_default(backend: Option<&str>, raft_node_id: Option<&str>, redis_url: Option<&str>, nats_url: Option<&str>) -> (r: Self)
        ensures
            backend is None ==> (r matches DispatchConfig::Memory(c) && is_default_memory(c)),
            backend matches Some(b) ==> selects(r, b@, opt_view(raft_node_id), opt_view(redis_url), opt_view(nats_url)),
    {
        match Self::from_settings(backend, raft_node_id, redis_url, nats_url) {
            Some(c) => c,
            None => DispatchConfig::memory(),
        }
    }
}

} // verus!
