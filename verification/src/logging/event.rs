//! Log events: levels, categories, events with correlation IDs, and a builder that
//! carries common context.
use vstd::prelude::*;
use crate::types::{NodeId, TraceId, hex_digit, uuid_text};
use crate::strmap::StringMap;
use crate::text::{ascii_lower, ascii_text, decimal_text, i64_text, lower_ascii, lowercase, owned, signed_decimal_text, spec_lowercase, str_eq, u64_text};
use crate::clock::unix_time_nanos;

verus! {

/// Log severity level, from the finest to the most severe.
#[derive(Debug, Clone, Copy, PartialEq, Eq, Structural, Hash, PartialOrd, Ord)]
pub enum LogLevel {
    /// Fine-grained debugging information.
    Trace,
    /// Debugging information.
    Debug,
    /// Informational messages.
    Info,
    /// Warning messages.
    Warn,
    /// Error messages.
    Error,
}

/// The rank of a level: trace 0, debug 1, info 2, warn 3, error 4.
pub open spec fn level_rank(l: LogLevel) -> int {
    match l {
        LogLevel::Trace => 0,
        LogLevel::Debug => 1,
        LogLevel::Info => 2,
        LogLevel::Warn => 3,
        LogLevel::Error => 4,
    }
}

/// The text of a level.
pub open spec fn level_text(l: LogLevel) -> Seq<char> {
    match l {
        LogLevel::Trace => "trace"@,
        LogLevel::Debug => "debug"@,
        LogLevel::Info => "info"@,
        LogLevel::Warn => "warn"@,
        LogLevel::Error => "error"@,
    }
}

/// Level `a` is declared before level `b`: the order is trace, debug, info, warn, error,
/// from the finest to the most severe.
pub open spec fn declared_before(a: LogLevel, b: LogLevel) -> bool {
    match a {
        LogLevel::Trace => !(b is Trace),
        LogLevel::Debug => b is Info || b is Warn || b is Error,
        LogLevel::Info => b is Warn || b is Error,
        LogLevel::Warn => b is Error,
        LogLevel::Error => false,
    }
}

/// Ranks follow the declared severity order: a level declared before another ranks
/// strictly lower, and equal ranks mean the same level.
pub proof fn lemma_rank_follows_declared_order(a: LogLevel, b: LogLevel)
    ensures
        declared_before(a, b) <==> level_rank(a) < level_rank(b),
        level_rank(a) == level_rank(b) <==> a == b,
{
}

/// The upper-case text of a level.
pub open spec fn level_upper_text(l: LogLevel) -> Seq<char> {
    match l {
        LogLevel::Trace => "TRACE"@,
        LogLevel::Debug => "DEBUG"@,
        LogLevel::Info => "INFO"@,
        LogLevel::Warn => "WARN"@,
        LogLevel::Error => "ERROR"@,
    }
}

/// The level that lower-case text `l` names (`warning` names warn too).
pub open spec fn level_named(l: Seq<char>) -> Option<LogLevel> {
    if l == "trace"@ {
        Some(LogLevel::Trace)
    } else if l == "debug"@ {
        Some(LogLevel::Debug)
    } else if l == "info"@ {
        Some(LogLevel::Info)
    } else if l == "warn"@ || l == "warning"@ {
        Some(LogLevel::Warn)
    } else if l == "error"@ {
        Some(LogLevel::Error)
    } else {
        None
    }
}

impl std::str::FromStr for LogLevel {
    type Err = &'static str;

    /// Parse a level as `parse` does; refused with "invalid log level".
    fn from_str(s: &str) -> (r: Result<Self, &'static str>)
        ensures
            match level_named(spec_lowercase(s@)) {
                Some(l) => r == Ok::<LogLevel, &'static str>(l),
                None => r == Err::<LogLevel, &'static str>("invalid log level"),
            },
    {
        match LogLevel::parse(s) {
            Some(l) => Ok(l),
            None => Err("invalid log level"),
        }
    }
}

impl LogLevel {
    /// Parse a level, case-insensitively.
    pub fn parse(s: &str) -> (r: Option<Self>)
        ensures
            r == level_named(spec_lowercase(s@)),
            lower_ascii(s@) ==> r == level_named(s@),
            ascii_text(s@) ==> r == level_named(ascii_lower(s@)),
    {
        let l = lowercase(s);
        let t = l.as_str();
        if str_eq(t, "trace") {
            Some(LogLevel::Trace)
        } else if str_eq(t, "debug") {
            Some(LogLevel::Debug)
        } else if str_eq(t, "info") {
            Some(LogLevel::Info)
        } else if str_eq(t, "warn") || str_eq(t, "warning") {
            Some(LogLevel::Warn)
        } else if str_eq(t, "error") {
            Some(LogLevel::Error)
        } else {
            None
        }
    }

    /// The level's text.
    pub fn as_str(&self) -> (r: &'static str)
        ensures
            r@ == level_text(*self),
    {
        match self {
            LogLevel::Trace => "trace",
            LogLevel::Debug => "debug",
            LogLevel::Info => "info",
            LogLevel::Warn => "warn",
            LogLevel::Error => "error",
        }
    }

    /// The level's rank (trace 0 up to error 4).
    pub fn rank(&self) -> (r: u8)
        ensures
            r == level_rank(*self),
    {
        match self {
            LogLevel::Trace => 0,
            LogLevel::Debug => 1,
            LogLevel::Info => 2,
            LogLevel::Warn => 3,
            LogLevel::Error => 4,
        }
    }

    fn upper(&self) -> (r: &'static str)
        ensures
            r@ == level_upper_text(*self),
    {
        match self {
            LogLevel::Trace => "TRACE",
            LogLevel::Debug => "DEBUG",
            LogLevel::Info => "INFO",
            LogLevel::Warn => "WARN",
            LogLevel::Error => "ERROR",
        }
    }
}

impl Default for LogLevel {
    /// Info.
    fn default() -> (r: Self)
        ensures
            r == LogLevel::Info,
    {
        LogLevel::Info
    }
}

/// Category of log event.
#[derive(Debug, Clone, Copy, PartialEq, Eq, Structural, Hash)]
pub enum LogCategory {
    /// Trace lifecycle events (start, complete, fail).
    Trace,
    /// Node execution events (start, complete, error).
    Node,
    /// Trigger events (fire, pause, resume).
    Trigger,
    /// Pipeline events (deploy, start, stop).
    Pipeline,
    /// Schema/data validation events.
    Schema,
    /// System/internal events.
    System,
    /// User-defined custom events.
    Custom,
}

/// The text of a category.
pub open spec fn category_text(c: LogCategory) -> Seq<char> {
    match c {
        LogCategory::Trace => "trace"@,
        LogCategory::Node => "node"@,
        LogCategory::Trigger => "trigger"@,
        LogCategory::Pipeline => "pipeline"@,
        LogCategory::Schema => "schema"@,
        LogCategory::System => "system"@,
        LogCategory::Custom => "custom"@,
    }
}

impl LogCategory {
    /// The category's text.
    pub fn as_str(&self) -> (r: &'static str)
        ensures
            r@ == category_text(*self),
    {
        match self {
            LogCategory::Trace => "trace",
            LogCategory::Node => "node",
            LogCategory::Trigger => "trigger",
            LogCategory::Pipeline => "pipeline",
            LogCategory::Schema => "schema",
            LogCategory::System => "system",
            LogCategory::Custom => "custom",
        }
    }
}

/// How JSON writes one character inside a string: `"` and `\` behind a backslash;
/// backspace, tab, line feed, form feed and carriage return as `\b`, `\t`, `\n`,
/// `\f`, `\r`; any other character below U+0020 as `\u00` and two lower-case hex
/// digits; every other character as itself.
pub open spec fn json_char(c: char) -> Seq<char> {
    if c == '"' {
        seq!['\\', '"']
    } else if c == '\\' {
        seq!['\\', '\\']
    } else if c == '\u{8}' {
        seq!['\\', 'b']
    } else if c == '\t' {
        seq!['\\', 't']
    } else if c == '\n' {
        seq!['\\', 'n']
    } else if c == '\u{c}' {
        seq!['\\', 'f']
    } else if c == '\r' {
        seq!['\\', 'r']
    } else if (c as int) < 0x20 {
        seq!['\\', 'u', '0', '0', hex_digit(((c as int) / 16) as u128), hex_digit(((c as int) % 16) as u128)]
    } else {
        seq![c]
    }
}

/// The characters of `s`, each written as JSON writes it inside a string.
pub open spec fn json_escaped(s: Seq<char>) -> Seq<char>
    decreases s.len(),
{
    if s.len() == 0 {
        Seq::empty()
    } else {
        json_escaped(s.drop_last()) + json_char(s.last())
    }
}

/// The JSON text of a string: its escaped characters between double quotes.
pub open spec fn spec_json_string(s: Seq<char>) -> Seq<char> {
    seq!['"'] + json_escaped(s) + seq!['"']
}

/// The JSON text of a string, with `serde_json::to_string`, which writes the string
/// between double quotes, escaping `"`, `\` and the characters below U+0020 and nothing
/// else (serialising a string does not fail).
#[verifier::external_body]
fn json_string(s: &str) -> (r: String)
    ensures
        r@ == spec_json_string(s@),
{
    match serde_json::to_string(s) {
        Ok(t) => t,
        Err(_) => String::new(),
    }
}

/// Whether `serde_json` reads a text as one JSON value.
pub uninterp spec fn spec_json_valid(text: Seq<char>) -> bool;

/// Whether `text` is one JSON value, with `serde_json::from_str` into a
/// `serde_json::Value`; the answer depends on the text alone.
#[verifier::external_body]
pub(crate) fn json_valid(text: &str) -> (r: bool)
    ensures
        r == spec_json_valid(text@),
{
    serde_json::from_str::<serde_json::Value>(text).is_ok()
}

/// The ISO 8601 text (`%Y-%m-%dT%H:%M:%S%.3fZ`, UTC) of a time given as seconds and
/// nanoseconds since the Unix epoch, or none when it is out of range.
pub uninterp spec fn spec_iso_utc(secs: i64, nanos: u32) -> Option<Seq<char>>;

/// ISO 8601 text of a Unix time with `chrono::DateTime::from_timestamp` and the format
/// `%Y-%m-%dT%H:%M:%S%.3fZ`; the result depends on the arguments alone.
#[verifier::external_body]
fn iso_utc(secs: i64, nanos: u32) -> (r: Option<String>)
    ensures
        r is Some <==> spec_iso_utc(secs, nanos) is Some,
        r matches Some(t) ==> spec_iso_utc(secs, nanos) == Some(t@),
{
    match chrono::DateTime::from_timestamp(secs, nanos) {
        Some(d) => Some(d.format("%Y-%m-%dT%H:%M:%S%.3fZ").to_string()),
        None => None,
    }
}

/// What a log event holds, as plain values (fields map names to JSON text).
pub struct EventView {
    pub id: u64,
    pub timestamp_ns: u64,
    pub level: LogLevel,
    pub category: LogCategory,
    pub trace_id: Option<TraceId>,
    pub node_id: Option<NodeId>,
    pub pipeline_id: Option<Seq<char>>,
    pub message: Seq<char>,
    pub fields: Map<Seq<char>, Seq<char>>,
}

/// A structured log event with correlation IDs.
#[derive(Debug)]
pub struct LogEvent {
    /// Unique event ID (assigned by a collector).
    pub id: u64,
    /// Timestamp in nanoseconds since the Unix epoch.
    pub timestamp_ns: u64,
    /// Log severity level.
    pub level: LogLevel,
    /// Event category.
    pub category: LogCategory,
    /// Associated trace ID (if any).
    pub trace_id: Option<TraceId>,
    /// Associated node ID (if any).
    pub node_id: Option<NodeId>,
    /// Associated pipeline ID (if any).
    pub pipeline_id: Option<String>,
    /// Human-readable message.
    pub message: String,
    /// Structured fields: each name with the JSON text of its value.
    pub fields: StringMap,
}

/// The text of an optional string.
pub open spec fn opt_text(s: Option<String>) -> Option<Seq<char>> {
    match s {
        Some(t) => Some(t@),
        None => None,
    }
}

impl View for LogEvent {
    type V = EventView;

    open spec fn view(&self) -> EventView {
        EventView {
            id: self.id,
            timestamp_ns: self.timestamp_ns,
            level: self.level,
            category: self.category,
            trace_id: self.trace_id,
            node_id: self.node_id,
            pipeline_id: opt_text(self.pipeline_id),
            message: self.message@,
            fields: self.fields@,
        }
    }
}

/// The text of the timestamp part of a log line.
pub open spec fn timestamp_text(ns: u64) -> Seq<char> {
    match spec_iso_utc((ns / 1_000_000_000) as i64, (ns % 1_000_000_000) as u32) {
        Some(t) => t,
        None => decimal_text(ns as nat) + "ns"@,
    }
}

fn copy_opt(s: &Option<String>) -> (r: Option<String>)
    ensures
        opt_text(r) == opt_text(*s),
{
    match s {
        Some(t) => Some(owned(t.as_str())),
        None => None,
    }
}

impl LogEvent {
    /// A new event at the current time, with no ID (0), no correlation IDs and no fields.
    pub fn new(level: LogLevel, category: LogCategory, message: &str) -> (r: Self)
        ensures
            r@.id == 0,
            r@.level == level,
            r@.category == category,
            r@.trace_id is None,
            r@.node_id is None,
            r@.pipeline_id is None,
            r@.message == message@,
            r@.fields == Map::<Seq<char>, Seq<char>>::empty(),
    {
        LogEvent {
            id: 0,
            timestamp_ns: unix_time_nanos(),
            level,
            category,
            trace_id: None,
            node_id: None,
            pipeline_id: None,
            message: owned(message),
            fields: StringMap::new(),
        }
    }

    /// A trace-level event.
    pub fn trace(category: LogCategory, message: &str) -> (r: Self)
        ensures
            r@.id == 0,
            r@.level == LogLevel::Trace,
            r@.category == category,
            r@.trace_id is None,
            r@.node_id is None,
            r@.pipeline_id is None,
            r@.message == message@,
            r@.fields == Map::<Seq<char>, Seq<char>>::empty(),
    {
        LogEvent::new(LogLevel::Trace, category, message)
    }

    /// A debug-level event.
    pub fn debug(category: LogCategory, message: &str) -> (r: Self)
        ensures
            r@.id == 0,
            r@.level == LogLevel::Debug,
            r@.category == category,
            r@.trace_id is None,
            r@.node_id is None,
            r@.pipeline_id is None,
            r@.message == message@,
            r@.fields == Map::<Seq<char>, Seq<char>>::empty(),
    {
        LogEvent::new(LogLevel::Debug, category, message)
    }

    /// An info-level event.
    pub fn info(category: LogCategory, message: &str) -> (r: Self)
        ensures
            r@.id == 0,
            r@.level == LogLevel::Info,
            r@.category == category,
            r@.trace_id is None,
            r@.node_id is None,
            r@.pipeline_id is None,
            r@.message == message@,
            r@.fields == Map::<Seq<char>, Seq<char>>::empty(),
    {
        LogEvent::new(LogLevel::Info, category, message)
    }

    /// A warn-level event.
    pub fn warn(category: LogCategory, message: &str) -> (r: Self)
        ensures
            r@.id == 0,
            r@.level == LogLevel::Warn,
            r@.category == category,
            r@.trace_id is None,
            r@.node_id is None,
            r@.pipeline_id is None,
            r@.message == message@,
            r@.fields == Map::<Seq<char>, Seq<char>>::empty(),
    {
        LogEvent::new(LogLevel::Warn, category, message)
    }

    /// An error-level event.
    pub fn error(category: LogCategory, message: &str) -> (r: Self)
        ensures
            r@.id == 0,
            r@.level == LogLevel::Error,
            r@.category == category,
            r@.trace_id is None,
            r@.node_id is None,
            r@.pipeline_id is None,
            r@.message == message@,
            r@.fields == Map::<Seq<char>, Seq<char>>::empty(),
    {
        LogEvent::new(LogLevel::Error, category, message)
    }

    /// Set the trace ID.
    pub fn with_trace_id(self, trace_id: TraceId) -> (r: Self)
        ensures
            r@ == (EventView { trace_id: Some(trace_id), ..self@ }),
    {
        LogEvent { trace_id: Some(trace_id), ..self }
    }

    /// Set the node ID.
    pub fn with_node_id(self, node_id: NodeId) -> (r: Self)
        ensures
            r@ == (EventView { node_id: Some(node_id), ..self@ }),
    {
        LogEvent { node_id: Some(node_id), ..self }
    }

    /// Set the pipeline ID.
    pub fn with_pipeline_id(self, pipeline_id: &str) -> (r: Self)
        ensures
            r@ == (EventView { pipeline_id: Some(pipeline_id@), ..self@ }),
    {
        LogEvent { pipeline_id: Some(owned(pipeline_id)), ..self }
    }

    /// Add a string field (held as its JSON text).
    pub fn with_field(self, key: &str, value: &str) -> (r: Self)
        ensures
            r@ == (EventView { fields: self@.fields.insert(key@, spec_json_string(value@)), ..self@ }),
    {
        let mut r = self;
        let text = json_string(value);
        r.fields.insert(key, text.as_str());
        r
    }

    /// Add a numeric field.
    pub fn with_field_i64(self, key: &str, value: i64) -> (r: Self)
        ensures
            r@ == (EventView { fields: self@.fields.insert(key@, signed_decimal_text(value as int)), ..self@ }),
    {
        let mut r = self;
        let text = i64_text(value);
        r.fields.insert(key, text.as_str());
        r
    }

    /// Add a boolean field.
    pub fn with_field_bool(self, key: &str, value: bool) -> (r: Self)
        ensures
            r@ == (EventView { fields: self@.fields.insert(key@, if value { "true"@ } else { "false"@ }), ..self@ }),
    {
        let mut r = self;
        r.fields.insert(key, if value { "true" } else { "false" });
        r
    }

    /// Add a field given as JSON text, which must be one JSON value.
    pub fn with_field_json(self, key: &str, json: &str) -> (r: Self)
        requires
            spec_json_valid(json@),
        ensures
            r@ == (EventView { fields: self@.fields.insert(key@, json@), ..self@ }),
    {
        let mut r = self;
        r.fields.insert(key, json);
        r
    }

    /// Add a field given as JSON text when the text is one JSON value; `None` when it is
    /// not.
    pub fn try_with_field_json(self, key: &str, json: &str) -> (r: Option<Self>)
        ensures
            r is Some <==> spec_json_valid(json@),
            r matches Some(e) ==> e@ == (EventView { fields: self@.fields.insert(key@, json@), ..self@ }),
    {
        if json_valid(json) {
            Some(self.with_field_json(key, json))
        } else {
            None
        }
    }

    /// The timestamp as ISO 8601 text (UTC, milliseconds), or `{ns}ns` when out of range.
    pub fn timestamp_iso(&self) -> (r: String)
        ensures
            r@ == timestamp_text(self.timestamp_ns),
    {
        let secs = self.timestamp_ns / 1_000_000_000;
        let nanos = (self.timestamp_ns % 1_000_000_000) as u32;
        match iso_utc(secs as i64, nanos) {
            Some(t) => t,
            None => {
                let mut r = u64_text(self.timestamp_ns);
                r.append("ns");
                r
            },
        }
    }

    /// The event as one log line: timestamp, `[LEVEL]`, `[category]`, the correlation IDs
    /// that are set, the message, then the fields in braces (in the order they were
    /// first added).
    pub fn format_line(&self) -> (r: String)
        ensures
            r@ == line_text(self@, self.fields.spec_keys()),
    {
        let mut line = self.timestamp_iso();
        line.append(" [");
        line.append(self.level.upper());
        line.append("] [");
        line.append(self.category.as_str());
        line.append("]");
        match &self.trace_id {
            Some(t) => {
                line.append(" trace=");
                line.append(t.to_text().as_str());
            },
            None => {},
        }
        match &self.node_id {
            Some(n) => {
                line.append(" node=");
                line.append(u64_text(n.as_u32() as u64).as_str());
            },
            None => {},
        }
        match &self.pipeline_id {
            Some(p) => {
                line.append(" pipeline=");
                line.append(p.as_str());
            },
            None => {},
        }
        line.append(" ");
        line.append(self.message.as_str());
        let ghost head = line@;
        assert(head == line_head(self@));
        let names = self.fields.keys();
        let ghost ks = self.fields.spec_keys();
        if names.len() > 0 {
            line.append(" {");
            let mut i: usize = 0;
            assert(ks.take(0) =~= Seq::<Seq<char>>::empty());
            while i < names.len()
                invariant
                    i <= names@.len(),
                    names@.len() == ks.len(),
                    ks == self.fields.spec_keys(),
                    forall|j: int| 0 <= j < names@.len() ==> (#[trigger] names@[j])@ == ks[j],
                    forall|j: int| 0 <= j < ks.len() ==> self.fields@.dom().contains(#[trigger] ks[j]),
                    line@ == head + " {"@ + fields_list(ks.take(i as int), self.fields@),
                decreases names@.len() - i,
            {
                if i > 0 {
                    line.append(", ");
                }
                line.append(names[i].as_str());
                line.append("=");
                let v = self.fields.get(names[i].as_str());
                match v {
                    Some(v) => line.append(v),
                    None => {},
                }
                proof {
                    assert(ks.take(i + 1).drop_last() =~= ks.take(i as int));
                    assert(ks.take(i + 1).last() == ks[i as int]);
                }
                i = i + 1;
            }
            line.append("}");
            assert(ks.take(i as int) =~= ks);
        }
        line
    }

    /// A copy of this event.
    pub fn duplicate(&self) -> (r: Self)
        ensures
            r@ == self@,
    {
        LogEvent {
            id: self.id,
            timestamp_ns: self.timestamp_ns,
            level: self.level,
            category: self.category,
            trace_id: self.trace_id,
            node_id: self.node_id,
            pipeline_id: copy_opt(&self.pipeline_id),
            message: owned(self.message.as_str()),
            fields: self.fields.duplicate(),
        }
    }
}

/// The part of a log line before the fields.
pub open spec fn line_head(e: EventView) -> Seq<char> {
    timestamp_text(e.timestamp_ns) + " ["@ + level_upper_text(e.level) + "] ["@ + category_text(e.category) + "]"@
        + (match e.trace_id {
        Some(t) => " trace="@ + uuid_text(t.value),
        None => Seq::empty(),
    }) + (match e.node_id {
        Some(n) => " node="@ + decimal_text(n.value as nat),
        None => Seq::empty(),
    }) + (match e.pipeline_id {
        Some(p) => " pipeline="@ + p,
        None => Seq::empty(),
    }) + " "@ + e.message
}

/// The fields named in `names` as `name=value`, separated by `, `.
pub open spec fn fields_list(names: Seq<Seq<char>>, m: Map<Seq<char>, Seq<char>>) -> Seq<char>
    decreases names.len(),
{
    if names.len() == 0 {
        Seq::empty()
    } else {
        fields_list(names.drop_last(), m) + (if names.len() > 1 { ", "@ } else { Seq::empty() }) + names.last() + "="@
            + m[names.last()]
    }
}

/// A log line: the head, then the fields (in the order `names` gives) in braces, if any.
pub open spec fn line_text(e: EventView, names: Seq<Seq<char>>) -> Seq<char> {
    line_head(e) + if names.len() == 0 {
        Seq::empty()
    } else {
        " {"@ + fields_list(names, e.fields) + "}"@
    }
}

/// Builder for log events that share correlation IDs.
#[derive(Debug)]
pub struct LogEventBuilder {
    trace_id: Option<TraceId>,
    node_id: Option<NodeId>,
    pipeline_id: Option<String>,
}

impl LogEventBuilder {
    /// The trace ID set.
    pub closed spec fn spec_trace_id(&self) -> Option<TraceId> {
        self.trace_id
    }

    /// The node ID set.
    pub closed spec fn spec_node_id(&self) -> Option<NodeId> {
        self.node_id
    }

    /// The pipeline ID set.
    pub closed spec fn spec_pipeline_id(&self) -> Option<Seq<char>> {
        opt_text(self.pipeline_id)
    }

    /// A builder with no context.
    pub fn new() -> (r: Self)
        ensures
            r.spec_trace_id() is None,
            r.spec_node_id() is None,
            r.spec_pipeline_id() is None,
    {
        LogEventBuilder { trace_id: None, node_id: None, pipeline_id: None }
    }

    /// Set the trace ID for all events.
    pub fn with_trace_id(self, trace_id: TraceId) -> (r: Self)
        ensures
            r.spec_trace_id() == Some(trace_id),
            r.spec_node_id() == self.spec_node_id(),
            r.spec_pipeline_id() == self.spec_pipeline_id(),
    {
        LogEventBuilder { trace_id: Some(trace_id), ..self }
    }

    /// Set the node ID for all events.
    pub fn with_node_id(self, node_id: NodeId) -> (r: Self)
        ensures
            r.spec_node_id() == Some(node_id),
            r.spec_trace_id() == self.spec_trace_id(),
            r.spec_pipeline_id() == self.spec_pipeline_id(),
    {
        LogEventBuilder { node_id: Some(node_id), ..self }
    }

    /// Set the pipeline ID for all events.
    pub fn with_pipeline_id(self, pipeline_id: &str) -> (r: Self)
        ensures
            r.spec_pipeline_id() == Some(pipeline_id@),
            r.spec_trace_id() == self.spec_trace_id(),
            r.spec_node_id() == self.spec_node_id(),
    {
        LogEventBuilder { pipeline_id: Some(owned(pipeline_id)), ..self }
    }

    /// A copy of this builder.
    pub fn duplicate(&self) -> (r: Self)
        ensures
            r.spec_trace_id() == self.spec_trace_id(),
            r.spec_node_id() == self.spec_node_id(),
            r.spec_pipeline_id() == self.spec_pipeline_id(),
    {
        LogEventBuilder { trace_id: self.trace_id, node_id: self.node_id, pipeline_id: copy_opt(&self.pipeline_id) }
    }

    /// The event with this builder's context filled in where the event sets none.
    pub fn fill(&self, event: LogEvent) -> (r: LogEvent)
        ensures
            r@ == (EventView {
                trace_id: if event@.trace_id is None { self.spec_trace_id() } else { event@.trace_id },
                node_id: if event@.node_id is None { self.spec_node_id() } else { event@.node_id },
                pipeline_id: if event@.pipeline_id is None { self.spec_pipeline_id() } else { event@.pipeline_id },
                ..event@
            }),
    {
        let mut e = event;
        if e.trace_id.is_none() {
            e.trace_id = self.trace_id;
        }
        if e.node_id.is_none() {
            e.node_id = self.node_id;
        }
        if e.pipeline_id.is_none() {
            e.pipeline_id = copy_opt(&self.pipeline_id);
        }
        e
    }

    /// An event with this builder's context.
    pub fn event(&self, level: LogLevel, category: LogCategory, message: &str) -> (r: LogEvent)
        ensures
            r@.id == 0,
            r@.level == level,
            r@.category == category,
            r@.trace_id == self.spec_trace_id(),
            r@.node_id == self.spec_node_id(),
            r@.pipeline_id == self.spec_pipeline_id(),
            r@.message == message@,
            r@.fields == Map::<Seq<char>, Seq<char>>::empty(),
    {
        let mut event = LogEvent::new(level, category, message);
        event.trace_id = self.trace_id;
        event.node_id = self.node_id;
        event.pipeline_id = copy_opt(&self.pipeline_id);
        event
    }

    /// A trace-level event with this builder's context.
    pub fn trace(&self, category: LogCategory, message: &str) -> (r: LogEvent)
        ensures
            r@.level == LogLevel::Trace,
            r@.category == category,
            r@.trace_id == self.spec_trace_id(),
            r@.node_id == self.spec_node_id(),
            r@.pipeline_id == self.spec_pipeline_id(),
            r@.message == message@,
    {
        self.event(LogLevel::Trace, category, message)
    }

    /// A debug-level event with this builder's context.
    pub fn debug(&self, category: LogCategory, message: &str) -> (r: LogEvent)
        ensures
            r@.level == LogLevel::Debug,
            r@.category == category,
            r@.trace_id == self.spec_trace_id(),
            r@.node_id == self.spec_node_id(),
            r@.pipeline_id == self.spec_pipeline_id(),
            r@.message == message@,
    {
        self.event(LogLevel::Debug, category, message)
    }

    /// An info-level event with this builder's context.
    pub fn info(&self, category: LogCategory, message: &str) -> (r: LogEvent)
        ensures
            r@.level == LogLevel::Info,
            r@.category == category,
            r@.trace_id == self.spec_trace_id(),
            r@.node_id == self.spec_node_id(),
            r@.pipeline_id == self.spec_pipeline_id(),
            r@.message == message@,
    {
        self.event(LogLevel::Info, category, message)
    }

    /// A warn-level event with this builder's context.
    pub fn warn(&self, category: LogCategory, message: &str) -> (r: LogEvent)
        ensures
            r@.level == LogLevel::Warn,
            r@.category == category,
            r@.trace_id == self.spec_trace_id(),
            r@.node_id == self.spec_node_id(),
            r@.pipeline_id == self.spec_pipeline_id(),
            r@.message == message@,
    {
        self.event(LogLevel::Warn, category, message)
    }

    /// An error-level event with this builder's context.
    pub fn error(&self, category: LogCategory, message: &str) -> (r: LogEvent)
        ensures
            r@.level == LogLevel::Error,
            r@.category == category,
            r@.trace_id == self.spec_trace_id(),
            r@.node_id == self.spec_node_id(),
            r@.pipeline_id == self.spec_pipeline_id(),
            r@.message == message@,
    {
        self.event(LogLevel::Error, category, message)
    }
}

impl Default for LogEventBuilder {
    /// A builder with no context.
    fn default() -> (r: Self)
        ensures
            r.spec_trace_id() is None,
            r.spec_node_id() is None,
            r.spec_pipeline_id() is None,
    {
        LogEventBuilder::new()
    }
}

} // verus!
