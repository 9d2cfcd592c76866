//! Limits that a flow document must keep to (protection against oversized input).
use vstd::prelude::*;
use super::error::{ValidationError, ValidationErrorKind, error_view};
use crate::flow::yaml::{YamlValue, depth, elements_depth, values_depth};
use crate::text::{decimal_text, owned, u64_text};

verus! {

/// Limits for flow validation.
#[derive(Debug, Clone, Copy, PartialEq, Eq, Structural)]
pub struct ValidationLimits {
    /// Maximum YAML file size in bytes (default: 10MB).
    pub max_file_size: usize,
    /// Maximum nesting depth in YAML structure (default: 100).
    pub max_nesting_depth: usize,
    /// Maximum number of nodes in a flow (default: 1000).
    pub max_node_count: usize,
    /// Maximum number of edges in a flow (default: 5000).
    pub max_edge_count: usize,
    /// Maximum number of triggers in a flow (default: 100).
    pub max_trigger_count: usize,
}

/// The default limits.
pub open spec fn default_limits() -> ValidationLimits {
    ValidationLimits {
        max_file_size: 10_485_760,
        max_nesting_depth: 100,
        max_node_count: 1000,
        max_edge_count: 5000,
        max_trigger_count: 100,
    }
}

/// The message of the hard recursion limit.
pub open spec fn hard_limit_message() -> Seq<char> {
    "YAML recursion depth exceeded hard limit (possible attack)"@
}

/// The greatest depth among the first `n` elements reaches at least that of each of them.
proof fn lemma_elements_depth_ge(s: Seq<YamlValue>, n: int, k: int)
    requires
        0 <= k < n <= s.len(),
    ensures
        elements_depth(s, n) >= depth(s[k]),
    decreases n,
{
    if k < n - 1 {
        lemma_elements_depth_ge(s, n - 1, k);
    }
}

/// The greatest depth among the values of the first `n` entries reaches at least that of each.
proof fn lemma_values_depth_ge(s: Seq<(YamlValue, YamlValue)>, n: int, k: int)
    requires
        0 <= k < n <= s.len(),
    ensures
        values_depth(s, n) >= depth(s[k].1),
    decreases n,
{
    if k < n - 1 {
        lemma_values_depth_ge(s, n - 1, k);
    }
}

impl Default for ValidationLimits {
    /// 10 MB, depth 100, 1000 nodes, 5000 edges, 100 triggers.
    fn default() -> (r: Self)
        ensures
            r == default_limits(),
    {
        ValidationLimits {
            max_file_size: 10 * 1024 * 1024,
            max_nesting_depth: 100,
            max_node_count: 1000,
            max_edge_count: 5000,
            max_trigger_count: 100,
        }
    }
}

impl ValidationLimits {
    /// The default limits.
    pub fn new() -> (r: Self)
        ensures
            r == default_limits(),
    {
        ValidationLimits::default()
    }

    /// Set the maximum file size.
    pub fn with_max_file_size(self, size: usize) -> (r: Self)
        ensures
            r == (ValidationLimits { max_file_size: size, ..self }),
    {
        ValidationLimits { max_file_size: size, ..self }
    }

    /// Set the maximum nesting depth.
    pub fn with_max_nesting_depth(self, depth: usize) -> (r: Self)
        ensures
            r == (ValidationLimits { max_nesting_depth: depth, ..self }),
    {
        ValidationLimits { max_nesting_depth: depth, ..self }
    }

    /// Set the maximum node count.
    pub fn with_max_node_count(self, count: usize) -> (r: Self)
        ensures
            r == (ValidationLimits { max_node_count: count, ..self }),
    {
        ValidationLimits { max_node_count: count, ..self }
    }

    /// Check the raw document size (in UTF-8 bytes) before parsing.
    pub fn validate_content_size(&self, content: &str) -> (r: Result<(), ValidationError>)
        ensures
            r is Ok <==> vstd::utf8::encode_utf8(content@).len() <= self.max_file_size,
            r matches Err(e) ==> error_view(e) == (
                ValidationErrorKind::LimitExceeded,
                "flow"@,
                "YAML content size ("@ + decimal_text(vstd::utf8::encode_utf8(content@).len()) + " bytes) exceeds maximum allowed ("@
                    + decimal_text(self.max_file_size as nat) + " bytes)"@,
            ),
    {
        let size = content.as_bytes_vec().len();
        if size > self.max_file_size {
            let mut m = owned("YAML content size (");
            m.append(u64_text(size as u64).as_str());
            m.append(" bytes) exceeds maximum allowed (");
            m.append(u64_text(self.max_file_size as u64).as_str());
            m.append(" bytes)");
            return Err(ValidationError { kind: ValidationErrorKind::LimitExceeded, location: owned("flow"), message: m });
        }
        Ok(())
    }

    /// Check a flow file's size (in bytes, as the file system reports it) before reading it.
    pub fn validate_file_size(&self, file_len: u64) -> (r: Result<(), ValidationError>)
        ensures
            r is Ok <==> file_len <= self.max_file_size,
            r matches Err(e) ==> error_view(e) == (
                ValidationErrorKind::LimitExceeded,
                "flow"@,
                "file size ("@ + decimal_text(file_len as nat) + " bytes) exceeds maximum allowed ("@
                    + decimal_text(self.max_file_size as nat) + " bytes)"@,
            ),
    {
        if file_len > self.max_file_size as u64 {
            let mut m = owned("file size (");
            m.append(u64_text(file_len).as_str());
            m.append(" bytes) exceeds maximum allowed (");
            m.append(u64_text(self.max_file_size as u64).as_str());
            m.append(" bytes)");
            return Err(ValidationError { kind: ValidationErrorKind::LimitExceeded, location: owned("flow"), message: m });
        }
        Ok(())
    }

    /// Check the nesting depth of a parsed document: measured with a hard limit ten levels
    /// above the maximum (saturating), so that a deeper document is refused early.
    pub fn validate_nesting_depth(&self, value: &YamlValue) -> (r: Result<(), ValidationError>)
        ensures
            r is Ok <==> depth(*value) <= self.max_nesting_depth,
            ({
                let hard = if self.max_nesting_depth + 10 <= usize::MAX { self.max_nesting_depth + 10 } else { usize::MAX as int };
                &&& (self.max_nesting_depth < depth(*value) <= hard) ==> (r matches Err(e) && error_view(e) == (
                    ValidationErrorKind::LimitExceeded,
                    "flow"@,
                    "YAML nesting depth ("@ + decimal_text(depth(*value)) + ") exceeds maximum allowed ("@
                        + decimal_text(self.max_nesting_depth as nat) + ")"@,
                ))
                &&& depth(*value) > hard ==> (r matches Err(e) && error_view(e) == (
                    ValidationErrorKind::LimitExceeded,
                    "flow"@,
                    hard_limit_message(),
                ))
            }),
    {
        let hard_limit = self.max_nesting_depth.saturating_add(10);
        match ValidationLimits::measure_depth_limited(value, hard_limit) {
            Ok(d) => {
                if d > self.max_nesting_depth {
                    let mut m = owned("YAML nesting depth (");
                    m.append(u64_text(d as u64).as_str());
                    m.append(") exceeds maximum allowed (");
                    m.append(u64_text(self.max_nesting_depth as u64).as_str());
                    m.append(")");
                    Err(ValidationError { kind: ValidationErrorKind::LimitExceeded, location: owned("flow"), message: m })
                } else {
                    Ok(())
                }
            },
            Err(e) => Err(e),
        }
    }

    /// The nesting depth of `value` when it is at most `remaining`; otherwise the hard
    /// limit error.
    pub fn measure_depth_limited(value: &YamlValue, remaining: usize) -> (r: Result<usize, ValidationError>)
        ensures
            depth(*value) <= remaining ==> r == Ok::<usize, ValidationError>(depth(*value) as usize),
            depth(*value) > remaining ==> (r matches Err(e) && error_view(e) == (
                ValidationErrorKind::LimitExceeded,
                "flow"@,
                hard_limit_message(),
            )),
        decreases remaining,
    {
        if remaining == 0 {
            return Err(ValidationError::new(
                ValidationErrorKind::LimitExceeded,
                "flow",
                "YAML recursion depth exceeded hard limit (possible attack)",
            ));
        }
        match value {
            YamlValue::Sequence(items) => {
                let mut max_child: usize = 0;
                let mut i: usize = 0;
                while i < items.len()
                    invariant
                        0 < remaining,
                        *value == YamlValue::Sequence(*items),
                        i <= items@.len(),
                        max_child == elements_depth(items@, i as int),
                        max_child <= remaining - 1,
                    decreases items@.len() - i,
                {
                    let d = match ValidationLimits::measure_depth_limited(&items[i], remaining - 1) {
                        Ok(d) => d,
                        Err(e) => {
                            proof {
                                lemma_elements_depth_ge(items@, items@.len() as int, i as int);
                            }
                            return Err(e);
                        },
                    };
                    if d > max_child {
                        max_child = d;
                    }
                    i = i + 1;
                }
                Ok(1 + max_child)
            },
            YamlValue::Mapping(entries) => {
                let mut max_child: usize = 0;
                let mut i: usize = 0;
                while i < entries.len()
                    invariant
                        0 < remaining,
                        *value == YamlValue::Mapping(*entries),
                        i <= entries@.len(),
                        max_child == values_depth(entries@, i as int),
                        max_child <= remaining - 1,
                    decreases entries@.len() - i,
                {
                    let d = match ValidationLimits::measure_depth_limited(&entries[i].1, remaining - 1) {
                        Ok(d) => d,
                        Err(e) => {
                            proof {
                                lemma_values_depth_ge(entries@, entries@.len() as int, i as int);
                            }
                            return Err(e);
                        },
                    };
                    if d > max_child {
                        max_child = d;
                    }
                    i = i + 1;
                }
                Ok(1 + max_child)
            },
            _ => Ok(1),
        }
    }

    /// The nesting depth of `value`, without a limit.
    pub fn measure_depth(value: &YamlValue) -> (r: usize)
        requires
            depth(*value) <= usize::MAX,
        ensures
            r == depth(*value),
    {
        match ValidationLimits::measure_depth_limited(value, usize::MAX) {
            Ok(d) => d,
            Err(_) => 0,
        }
    }
}

} // verus!
