//! Node definitions of a flow document.
use vstd::prelude::*;
use crate::text::{owned, starts_with, spec_starts_with};
use crate::strmap::StringMap;
use crate::flow::yaml::{YamlValue, string_at, int_at, bool_at, nested};

verus! {

/// How a node retries a failed execution.
#[derive(Debug, Clone, Copy, PartialEq, Eq, Structural)]
pub struct RetryConfig {
    /// Maximum number of retry attempts.
    pub max_attempts: u32,
    /// Initial delay between retries in milliseconds.
    pub initial_delay_ms: u64,
    /// Maximum delay between retries in milliseconds.
    pub max_delay_ms: u64,
    /// The exponential backoff multiplier, as the bit pattern of an IEEE 754 double.
    pub backoff_multiplier_bits: u64,
    /// Whether to add jitter to the delay.
    pub jitter: bool,
}

/// The bit pattern of the double 2.0, the default backoff multiplier.
pub const DEFAULT_BACKOFF_MULTIPLIER_BITS: u64 = 0x4000_0000_0000_0000u64;

impl Default for RetryConfig {
    /// Three attempts, one second first, at most thirty seconds, doubling, with jitter.
    fn default() -> (r: Self)
        ensures
            r == (RetryConfig {
                max_attempts: 3,
                initial_delay_ms: 1000,
                max_delay_ms: 30_000,
                backoff_multiplier_bits: DEFAULT_BACKOFF_MULTIPLIER_BITS,
                jitter: true,
            }),
    {
        RetryConfig {
            max_attempts: 3,
            initial_delay_ms: 1000,
            max_delay_ms: 30_000,
            backoff_multiplier_bits: DEFAULT_BACKOFF_MULTIPLIER_BITS,
            jitter: true,
        }
    }
}

/// A node of a flow document.
#[derive(Debug)]
pub struct NodeDefinition {
    /// Node type (such as `std::switch` or `plugins::fraud_model`).
    pub node_type: String,
    /// Node-specific configuration.
    pub config: YamlValue,
    /// Optional description.
    pub description: Option<String>,
    /// Whether the node is enabled.
    pub enabled: bool,
    /// Retry configuration.
    pub retry: Option<RetryConfig>,
    /// Timeout override in milliseconds.
    pub timeout_ms: Option<u64>,
    /// Custom labels.
    pub labels: StringMap,
}

/// The keys of a path, as texts.
pub open spec fn path_keys(path: Seq<&str>) -> Seq<Seq<char>> {
    path.map_values(|k: &str| k@)
}

impl NodeDefinition {
    /// An enabled node of type `node_type`, with nothing else set.
    pub fn new(node_type: &str) -> (r: Self)
        ensures
            r.node_type@ == node_type@,
            r.config == YamlValue::Null,
            r.description is None,
            r.enabled,
            r.retry is None,
            r.timeout_ms is None,
            r.labels@ == Map::<Seq<char>, Seq<char>>::empty(),
    {
        NodeDefinition {
            node_type: owned(node_type),
            config: YamlValue::Null,
            description: None,
            enabled: true,
            retry: None,
            timeout_ms: None,
            labels: StringMap::new(),
        }
    }

    /// The same node with `config` as its configuration.
    pub fn with_config(self, config: YamlValue) -> (r: Self)
        ensures
            r == (NodeDefinition { config, ..self }),
    {
        NodeDefinition { config, ..self }
    }

    /// The same node with a description.
    pub fn with_description(self, desc: &str) -> (r: Self)
        ensures
            r.description matches Some(d) && d@ == desc@,
            r.node_type == self.node_type,
            r.config == self.config,
            r.enabled == self.enabled,
            r.retry == self.retry,
            r.timeout_ms == self.timeout_ms,
            r.labels == self.labels,
    {
        NodeDefinition { description: Some(owned(desc)), ..self }
    }

    /// The same node with a retry configuration.
    pub fn with_retry(self, retry: RetryConfig) -> (r: Self)
        ensures
            r == (NodeDefinition { retry: Some(retry), ..self }),
    {
        NodeDefinition { retry: Some(retry), ..self }
    }

    /// The same node with a timeout override.
    pub fn with_timeout_ms(self, ms: u64) -> (r: Self)
        ensures
            r == (NodeDefinition { timeout_ms: Some(ms), ..self }),
    {
        NodeDefinition { timeout_ms: Some(ms), ..self }
    }

    /// The same node with the label `key` set to `value`.
    pub fn with_label(self, key: &str, value: &str) -> (r: Self)
        ensures
            r.labels@ == self.labels@.insert(key@, value@),
            r.node_type == self.node_type,
            r.config == self.config,
            r.description == self.description,
            r.enabled == self.enabled,
            r.retry == self.retry,
            r.timeout_ms == self.timeout_ms,
    {
        let mut r = self;
        r.labels.insert(key, value);
        r
    }

    /// The same node, disabled.
    pub fn disabled(self) -> (r: Self)
        ensures
            r == (NodeDefinition { enabled: false, ..self }),
    {
        NodeDefinition { enabled: false, ..self }
    }

    /// Whether the node type is under `std::`.
    pub fn is_std(&self) -> (r: bool)
        ensures
            r == spec_starts_with(self.node_type@, "std::"@),
    {
        starts_with(self.node_type.as_str(), "std::")
    }

    /// Whether the node type is under `trigger::`.
    pub fn is_trigger(&self) -> (r: bool)
        ensures
            r == spec_starts_with(self.node_type@, "trigger::"@),
    {
        starts_with(self.node_type.as_str(), "trigger::")
    }

    /// The string setting under `key`.
    pub fn get_string(&self, key: &str) -> (r: Option<&str>)
        ensures
            match string_at(self.config, key@) {
                Some(s) => r matches Some(x) && x@ == s,
                None => r is None,
            },
    {
        match self.config.get(key) {
            Some(v) => v.as_str(),
            None => None,
        }
    }

    /// The integer setting under `key`.
    pub fn get_i64(&self, key: &str) -> (r: Option<i64>)
        ensures
            r == int_at(self.config, key@),
    {
        match self.config.get(key) {
            Some(v) => v.as_i64(),
            None => None,
        }
    }

    /// The boolean setting under `key`.
    pub fn get_bool(&self, key: &str) -> (r: Option<bool>)
        ensures
            r == bool_at(self.config, key@),
    {
        match self.config.get(key) {
            Some(v) => v.as_bool(),
            None => None,
        }
    }

    /// The setting reached by looking up the keys of `path` in turn.
    pub fn get_nested(&self, path: &[&str]) -> (r: Option<&YamlValue>)
        ensures
            match nested(self.config, path_keys(path@)) {
                Some(v) => r matches Some(x) && *x == v,
                None => r is None,
            },
    {
        let ghost keys = path_keys(path@);
        let mut current: &YamlValue = &self.config;
        let mut i: usize = 0;
        assert(keys.take(0) =~= Seq::<Seq<char>>::empty());
        while i < path.len()
            invariant
                i <= path@.len(),
                keys == path_keys(path@),
                nested(self.config, keys.take(i as int)) == Some(*current),
            decreases path@.len() - i,
        {
            let key: &str = path[i];
            proof {
                assert(keys.take(i + 1).drop_last() =~= keys.take(i as int));
                assert(keys.take(i + 1).last() == key@);
            }
            match current.get(key) {
                Some(next) => {
                    current = next;
                },
                None => {
                    proof {
                        assert(nested(self.config, keys.take(i + 1)) is None);
                        lemma_nested_none_extends(self.config, keys, i as int + 1);
                    }
                    return None;
                },
            }
            i = i + 1;
        }
        assert(keys.take(i as int) =~= keys);
        Some(current)
    }
}

/// Once a lookup along a path fails, it fails along every longer path.
proof fn lemma_nested_none_extends(v: YamlValue, keys: Seq<Seq<char>>, n: int)
    requires
        0 <= n <= keys.len(),
        nested(v, keys.take(n)) is None,
    ensures
        nested(v, keys) is None,
    decreases keys.len() - n,
{
    if n < keys.len() {
        assert(keys.take(n + 1).drop_last() =~= keys.take(n));
        lemma_nested_none_extends(v, keys, n + 1);
    } else {
        assert(keys.take(n) =~= keys);
    }
}

} // verus!
