//! Filters over log events: by level, category, correlation IDs, message text and time.
use vstd::prelude::*;
use super::event::{
    EventView, LogCategory, LogEvent, LogLevel, category_text, declared_before, lemma_rank_follows_declared_order, level_named, level_rank, level_text, opt_text,
};
use crate::types::{NodeId, TraceId, spec_uuid_parse, uuid_text};
use crate::text::{chars_of, decimal_text, lowercase, owned, parse_unsigned_chars, parsed_at_most, spec_lowercase, str_eq, u64_text};

verus! {

/// What a filter holds, as plain values.
pub struct FilterView {
    pub min_level: Option<LogLevel>,
    pub max_level: Option<LogLevel>,
    pub categories: Seq<LogCategory>,
    pub trace_id: Option<TraceId>,
    pub node_id: Option<NodeId>,
    pub pipeline_id: Option<Seq<char>>,
    pub message_contains: Option<Seq<char>>,
    pub start_time_ns: Option<u64>,
    pub end_time_ns: Option<u64>,
    pub limit: Option<usize>,
    pub offset: Option<usize>,
}

/// A filter for log events; an unset constraint lets every event through.
#[derive(Debug, Clone)]
pub struct LogFilter {
    /// Minimum log level (inclusive).
    pub min_level: Option<LogLevel>,
    /// Maximum log level (inclusive).
    pub max_level: Option<LogLevel>,
    /// Allowed categories (empty = all).
    pub categories: Vec<LogCategory>,
    /// Filter by trace ID.
    pub trace_id: Option<TraceId>,
    /// Filter by node ID.
    pub node_id: Option<NodeId>,
    /// Filter by pipeline ID.
    pub pipeline_id: Option<String>,
    /// Filter by message content (case-insensitive contains).
    pub message_contains: Option<String>,
    /// Start timestamp (nanoseconds since epoch, inclusive).
    pub start_time_ns: Option<u64>,
    /// End timestamp (nanoseconds since epoch, inclusive).
    pub end_time_ns: Option<u64>,
    /// Maximum number of events to return.
    pub limit: Option<usize>,
    /// Offset for pagination.
    pub offset: Option<usize>,
}

impl View for LogFilter {
    type V = FilterView;

    open spec fn view(&self) -> FilterView {
        FilterView {
            min_level: self.min_level,
            max_level: self.max_level,
            categories: self.categories@,
            trace_id: self.trace_id,
            node_id: self.node_id,
            pipeline_id: opt_text(self.pipeline_id),
            message_contains: opt_text(self.message_contains),
            start_time_ns: self.start_time_ns,
            end_time_ns: self.end_time_ns,
            limit: self.limit,
            offset: self.offset,
        }
    }
}

/// The filter that lets everything through.
pub open spec fn empty_filter() -> FilterView {
    FilterView {
        min_level: None,
        max_level: None,
        categories: Seq::empty(),
        trace_id: None,
        node_id: None,
        pipeline_id: None,
        message_contains: None,
        start_time_ns: None,
        end_time_ns: None,
        limit: None,
        offset: None,
    }
}

/// `needle` occurs in `hay`.
pub open spec fn occurs_in(hay: Seq<char>, needle: Seq<char>) -> bool {
    exists|i: int| 0 <= i && i + needle.len() <= hay.len() && #[trigger] hay.subrange(i, i + needle.len()) == needle
}

/// The event passes the filter.
pub open spec fn passes(f: FilterView, e: EventView) -> bool {
    &&& (f.min_level matches Some(min) ==> level_rank(e.level) >= level_rank(min))
    &&& (f.max_level matches Some(max) ==> level_rank(e.level) <= level_rank(max))
    &&& (f.categories.len() == 0 || f.categories.contains(e.category))
    &&& (f.trace_id matches Some(t) ==> e.trace_id == Some(t))
    &&& (f.node_id matches Some(n) ==> e.node_id == Some(n))
    &&& (f.pipeline_id matches Some(p) ==> e.pipeline_id == Some(p))
    &&& (f.message_contains matches Some(m) ==> occurs_in(spec_lowercase(e.message), spec_lowercase(m)))
    &&& (f.start_time_ns matches Some(s) ==> e.timestamp_ns >= s)
    &&& (f.end_time_ns matches Some(t) ==> e.timestamp_ns <= t)
}

/// The filter constrains nothing but, perhaps, pagination.
pub open spec fn no_constraints(f: FilterView) -> bool {
    &&& f.min_level is None
    &&& f.max_level is None
    &&& f.categories.len() == 0
    &&& f.trace_id is None
    &&& f.node_id is None
    &&& f.pipeline_id is None
    &&& f.message_contains is None
    &&& f.start_time_ns is None
    &&& f.end_time_ns is None
}

/// A filter that constrains nothing lets every event through.
pub proof fn lemma_unconstrained_passes_all(f: FilterView, e: EventView)
    requires
        no_constraints(f),
    ensures
        passes(f, e),
{
}

/// Narrowing a filter by one more level bound passes no event the wider filter refused.
pub proof fn lemma_min_level_narrows(f: FilterView, e: EventView, min: LogLevel)
    requires
        f.min_level is None,
    ensures
        passes(FilterView { min_level: Some(min), ..f }, e) ==> passes(f, e),
{
}

/// A filter with a minimum level passes no event of a level declared before it, and a
/// filter with a maximum level none of a level declared after it.
pub proof fn lemma_level_bounds_exclude(f: FilterView, e: EventView)
    ensures
        (f.min_level matches Some(min) && declared_before(e.level, min)) ==> !passes(f, e),
        (f.max_level matches Some(max) && declared_before(max, e.level)) ==> !passes(f, e),
        passes(f, e) ==> (f.min_level matches Some(min) ==> !declared_before(e.level, min)),
{
    if let Some(min) = f.min_level {
        lemma_rank_follows_declared_order(e.level, min);
    }
    if let Some(max) = f.max_level {
        lemma_rank_follows_declared_order(max, e.level);
    }
}

/// The level part of a filter's description, if any.
pub open spec fn level_part(f: FilterView) -> Seq<Seq<char>> {
    match (f.min_level, f.max_level) {
        (Some(min), Some(max)) => if min == max {
            seq!["level="@ + level_text(min)]
        } else {
            seq!["level="@ + level_text(min) + "-"@ + level_text(max)]
        },
        (Some(min), None) => seq!["level>="@ + level_text(min)],
        (None, Some(max)) => seq!["level<="@ + level_text(max)],
        (None, None) => Seq::empty(),
    }
}

/// The category part of a filter's description, if any.
pub open spec fn category_part(f: FilterView) -> Seq<Seq<char>> {
    if f.categories.len() > 0 {
        seq!["category="@ + joined(f.categories.map_values(|c: LogCategory| category_text(c)), ","@)]
    } else {
        Seq::empty()
    }
}

/// The correlation and message parts of a filter's description.
pub open spec fn other_parts(f: FilterView) -> Seq<Seq<char>> {
    let trace: Seq<Seq<char>> = match f.trace_id {
        Some(t) => seq!["trace="@ + uuid_text(t.value)],
        None => Seq::empty(),
    };
    let node: Seq<Seq<char>> = match f.node_id {
        Some(n) => seq!["node="@ + decimal_text(n.value as nat)],
        None => Seq::empty(),
    };
    let pipe: Seq<Seq<char>> = match f.pipeline_id {
        Some(p) => seq!["pipeline="@ + p],
        None => Seq::empty(),
    };
    let msg: Seq<Seq<char>> = match f.message_contains {
        Some(m) => seq!["contains=\""@ + m + "\""@],
        None => Seq::empty(),
    };
    trace + node + pipe + msg
}

/// The parts of a filter's description, in order.
pub open spec fn describe_parts(f: FilterView) -> Seq<Seq<char>> {
    level_part(f) + category_part(f) + other_parts(f)
}

/// The texts of `parts` joined with `sep`.
pub open spec fn joined(parts: Seq<Seq<char>>, sep: Seq<char>) -> Seq<char>
    decreases parts.len(),
{
    if parts.len() == 0 {
        Seq::empty()
    } else if parts.len() == 1 {
        parts[0]
    } else {
        joined(parts.drop_last(), sep) + sep + parts.last()
    }
}

/// The description of a filter: its parts joined with `, `, or `all events`.
pub open spec fn describe_text(f: FilterView) -> Seq<char> {
    let parts = describe_parts(f);
    if parts.len() == 0 {
        "all events"@
    } else {
        joined(parts, ", "@)
    }
}

/// Whether `needle[..]` occurs in `hay[..]`.
fn find_text(hay: &Vec<char>, needle: &Vec<char>) -> (r: bool)
    ensures
        r == occurs_in(hay@, needle@),
{
    let n = needle.len();
    if n > hay.len() {
        proof {
            assert forall|i: int| 0 <= i && i + needle@.len() <= hay@.len() implies #[trigger] hay@.subrange(i, i + needle@.len()) != needle@ by {}
        }
        return false;
    }
    if n == 0 {
        assert(hay@.subrange(0int, 0int + needle@.len()) =~= needle@);
        return true;
    }
    let last = hay.len() - n;
    let mut i: usize = 0;
    while i <= last
        invariant
            n == needle@.len(),
            1 <= n <= hay@.len(),
            hay@.len() <= usize::MAX,
            last == hay@.len() - n,
            i <= last + 1,
            forall|k: int| 0 <= k < i ==> #[trigger] hay@.subrange(k, k + n) != needle@,
        decreases last + 1 - i,
    {
        let mut j: usize = 0;
        while j < n && hay[i + j] == needle[j]
            invariant
                n == needle@.len(),
                1 <= n <= hay@.len(),
                hay@.len() <= usize::MAX,
                i <= last,
                last == hay@.len() - n,
                j <= n,
                forall|k: int| 0 <= k < j ==> hay@[i + k] == needle@[k],
            decreases n - j,
        {
            j = j + 1;
        }
        if j == n {
            assert(hay@.subrange(i as int, i + n) =~= needle@);
            return true;
        }
        assert(hay@.subrange(i as int, i + n)[j as int] != needle@[j as int]);
        i = i + 1;
    }
    proof {
        assert forall|k: int| 0 <= k && k + needle@.len() <= hay@.len() implies #[trigger] hay@.subrange(k, k + needle@.len()) != needle@ by {
            assert(k < i);
        }
    }
    false
}

/// Whether `c` is in `cs`.
fn has_category(cs: &Vec<LogCategory>, c: LogCategory) -> (r: bool)
    ensures
        r == cs@.contains(c),
{
    let mut i: usize = 0;
    while i < cs.len()
        invariant
            i <= cs@.len(),
            forall|j: int| 0 <= j < i ==> cs@[j] != c,
        decreases cs@.len() - i,
    {
        if cs[i] == c {
            assert(cs@[i as int] == c);
            return true;
        }
        i = i + 1;
    }
    false
}

fn copy_text(s: &Option<String>) -> (r: Option<String>)
    ensures
        opt_text(r) == opt_text(*s),
{
    match s {
        Some(t) => Some(owned(t.as_str())),
        None => None,
    }
}

impl LogFilter {
    /// A filter with no constraints (it lets every event through).
    pub fn new() -> (r: Self)
        ensures
            r@ == empty_filter(),
    {
        let r = LogFilter {
            min_level: None,
            max_level: None,
            categories: Vec::new(),
            trace_id: None,
            node_id: None,
            pipeline_id: None,
            message_contains: None,
            start_time_ns: None,
            end_time_ns: None,
            limit: None,
            offset: None,
        };
        assert(r@.categories =~= Seq::<LogCategory>::empty());
        r
    }

    /// Set the minimum level.
    pub fn min_level(self, level: LogLevel) -> (r: Self)
        ensures
            r@ == (FilterView { min_level: Some(level), ..self@ }),
    {
        LogFilter { min_level: Some(level), ..self }
    }

    /// Set the maximum level.
    pub fn max_level(self, level: LogLevel) -> (r: Self)
        ensures
            r@ == (FilterView { max_level: Some(level), ..self@ }),
    {
        LogFilter { max_level: Some(level), ..self }
    }

    /// Set the exact level.
    pub fn level(self, level: LogLevel) -> (r: Self)
        ensures
            r@ == (FilterView { min_level: Some(level), max_level: Some(level), ..self@ }),
    {
        LogFilter { min_level: Some(level), max_level: Some(level), ..self }
    }

    /// Set the allowed categories.
    pub fn categories(self, categories: Vec<LogCategory>) -> (r: Self)
        ensures
            r@ == (FilterView { categories: categories@, ..self@ }),
    {
        LogFilter { categories, ..self }
    }

    /// Add an allowed category.
    pub fn category(self, category: LogCategory) -> (r: Self)
        ensures
            r@ == (FilterView { categories: self@.categories.push(category), ..self@ }),
    {
        let mut r = self;
        r.categories.push(category);
        r
    }

    /// Set the trace ID.
    pub fn trace_id(self, trace_id: TraceId) -> (r: Self)
        ensures
            r@ == (FilterView { trace_id: Some(trace_id), ..self@ }),
    {
        LogFilter { trace_id: Some(trace_id), ..self }
    }

    /// Set the node ID.
    pub fn node_id(self, node_id: NodeId) -> (r: Self)
        ensures
            r@ == (FilterView { node_id: Some(node_id), ..self@ }),
    {
        LogFilter { node_id: Some(node_id), ..self }
    }

    /// Set the pipeline ID.
    pub fn pipeline_id(self, pipeline_id: &str) -> (r: Self)
        ensures
            r@ == (FilterView { pipeline_id: Some(pipeline_id@), ..self@ }),
    {
        LogFilter { pipeline_id: Some(owned(pipeline_id)), ..self }
    }

    /// Set the message pattern (matched case-insensitively).
    pub fn message_contains(self, pattern: &str) -> (r: Self)
        ensures
            r@ == (FilterView { message_contains: Some(pattern@), ..self@ }),
    {
        LogFilter { message_contains: Some(owned(pattern)), ..self }
    }

    /// Set the start time.
    pub fn start_time(self, timestamp_ns: u64) -> (r: Self)
        ensures
            r@ == (FilterView { start_time_ns: Some(timestamp_ns), ..self@ }),
    {
        LogFilter { start_time_ns: Some(timestamp_ns), ..self }
    }

    /// Set the end time.
    pub fn end_time(self, timestamp_ns: u64) -> (r: Self)
        ensures
            r@ == (FilterView { end_time_ns: Some(timestamp_ns), ..self@ }),
    {
        LogFilter { end_time_ns: Some(timestamp_ns), ..self }
    }

    /// Set the time range.
    pub fn time_range(self, start_ns: u64, end_ns: u64) -> (r: Self)
        ensures
            r@ == (FilterView { start_time_ns: Some(start_ns), end_time_ns: Some(end_ns), ..self@ }),
    {
        LogFilter { start_time_ns: Some(start_ns), end_time_ns: Some(end_ns), ..self }
    }

    /// Set the result limit.
    pub fn limit(self, limit: usize) -> (r: Self)
        ensures
            r@ == (FilterView { limit: Some(limit), ..self@ }),
    {
        LogFilter { limit: Some(limit), ..self }
    }

    /// Set the pagination offset.
    pub fn offset(self, offset: usize) -> (r: Self)
        ensures
            r@ == (FilterView { offset: Some(offset), ..self@ }),
    {
        LogFilter { offset: Some(offset), ..self }
    }

    /// Whether an event passes every constraint of this filter.
    pub fn matches(&self, event: &LogEvent) -> (r: bool)
        ensures
            r == passes(self@, event@),
    {
        match self.min_level {
            Some(min) => {
                if event.level.rank() < min.rank() {
                    return false;
                }
            },
            None => {},
        }
        match self.max_level {
            Some(max) => {
                if event.level.rank() > max.rank() {
                    return false;
                }
            },
            None => {},
        }
        if self.categories.len() > 0 && !has_category(&self.categories, event.category) {
            return false;
        }
        match self.trace_id {
            Some(t) => {
                match event.trace_id {
                    Some(e) => {
                        if e.value != t.value {
                            return false;
                        }
                    },
                    None => {
                        return false;
                    },
                }
            },
            None => {},
        }
        match self.node_id {
            Some(n) => {
                match event.node_id {
                    Some(e) => {
                        if e.value != n.value {
                            return false;
                        }
                    },
                    None => {
                        return false;
                    },
                }
            },
            None => {},
        }
        match &self.pipeline_id {
            Some(p) => {
                match &event.pipeline_id {
                    Some(e) => {
                        if !str_eq(e.as_str(), p.as_str()) {
                            return false;
                        }
                    },
                    None => {
                        return false;
                    },
                }
            },
            None => {},
        }
        match &self.message_contains {
            Some(m) => {
                let hay = chars_of(lowercase(event.message.as_str()).as_str());
                let needle = chars_of(lowercase(m.as_str()).as_str());
                if !find_text(&hay, &needle) {
                    return false;
                }
            },
            None => {},
        }
        match self.start_time_ns {
            Some(s) => {
                if event.timestamp_ns < s {
                    return false;
                }
            },
            None => {},
        }
        match self.end_time_ns {
            Some(t) => {
                if event.timestamp_ns > t {
                    return false;
                }
            },
            None => {},
        }
        true
    }

    /// The events of `events` after skipping `offset` (default 0), at most `limit`
    /// (default all).
    pub fn paginate<'a>(&self, events: &'a [LogEvent]) -> (r: Vec<&'a LogEvent>)
        ensures
            ({
                let off = match self.offset {
                    Some(o) => o as int,
                    None => 0,
                };
                let start = if off < events@.len() { off } else { events@.len() as int };
                let lim = match self.limit {
                    Some(l) => l as int,
                    None => usize::MAX as int,
                };
                let end = if start + lim < events@.len() { start + lim } else { events@.len() as int };
                &&& r@.len() == end - start
                &&& forall|k: int| 0 <= k < r@.len() ==> *r@[k] == events@[start + k]
            }),
    {
        let off = match self.offset {
            Some(o) => o,
            None => 0,
        };
        let lim = match self.limit {
            Some(l) => l,
            None => usize::MAX,
        };
        let start = if off < events.len() { off } else { events.len() };
        let end = if lim < events.len() - start { start + lim } else { events.len() };
        let mut out: Vec<&'a LogEvent> = Vec::new();
        let mut i = start;
        while i < end
            invariant
                start <= i <= end,
                end <= events@.len(),
                out@.len() == i - start,
                forall|k: int| 0 <= k < out@.len() ==> *out@[k] == events@[start + k],
            decreases end - i,
        {
            out.push(&events[i]);
            i = i + 1;
        }
        out
    }

    /// Whether this filter constrains nothing (pagination aside).
    pub fn is_empty(&self) -> (r: bool)
        ensures
            r == no_constraints(self@),
    {
        self.min_level.is_none() && self.max_level.is_none() && self.categories.len() == 0
            && self.trace_id.is_none() && self.node_id.is_none() && self.pipeline_id.is_none()
            && self.message_contains.is_none() && self.start_time_ns.is_none() && self.end_time_ns.is_none()
    }

    fn level_parts(&self) -> (r: Vec<String>)
        ensures
            r@.map_values(|s: String| s@) == level_part(self@),
    {
        let mut parts: Vec<String> = Vec::new();
        match (self.min_level, self.max_level) {
            (Some(min), Some(max)) => {
                let mut p = owned("level=");
                p.append(min.as_str());
                if min != max {
                    p.append("-");
                    p.append(max.as_str());
                }
                parts.push(p);
            },
            (Some(min), None) => {
                let mut p = owned("level>=");
                p.append(min.as_str());
                parts.push(p);
            },
            (None, Some(max)) => {
                let mut p = owned("level<=");
                p.append(max.as_str());
                parts.push(p);
            },
            (None, None) => {},
        }
        assert(parts@.map_values(|s: String| s@) =~= level_part(self@));
        parts
    }

    fn category_parts(&self) -> (r: Vec<String>)
        ensures
            r@.map_values(|s: String| s@) == category_part(self@),
    {
        let mut parts: Vec<String> = Vec::new();
        if self.categories.len() > 0 {
            let mut p = owned("category=");
            let mut i: usize = 0;
            let ghost texts = self.categories@.map_values(|c: LogCategory| category_text(c));
            let ghost base = p@;
            while i < self.categories.len()
                invariant
                    i <= self.categories@.len(),
                    texts == self.categories@.map_values(|c: LogCategory| category_text(c)),
                    base == "category="@,
                    p@ == base + joined(texts.take(i as int), ","@),
                decreases self.categories@.len() - i,
            {
                if i > 0 {
                    p.append(",");
                }
                p.append(self.categories[i].as_str());
                proof {
                    assert(texts.take(i + 1).drop_last() =~= texts.take(i as int));
                    assert(texts.take(i + 1).last() == category_text(self.categories@[i as int]));
                    if i == 0 {
                        assert(texts.take(1) =~= seq![category_text(self.categories@[0])]);
                    }
                }
                i = i + 1;
            }
            assert(texts.take(i as int) =~= texts);
            parts.push(p);
        }
        assert(parts@.map_values(|s: String| s@) =~= category_part(self@));
        parts
    }

    fn other_parts(&self) -> (r: Vec<String>)
        ensures
            r@.map_values(|s: String| s@) == other_parts(self@),
    {
        let mut parts: Vec<String> = Vec::new();
        match self.trace_id {
            Some(t) => {
                let mut p = owned("trace=");
                p.append(t.to_text().as_str());
                parts.push(p);
            },
            None => {},
        }
        match self.node_id {
            Some(n) => {
                let mut p = owned("node=");
                p.append(u64_text(n.as_u32() as u64).as_str());
                parts.push(p);
            },
            None => {},
        }
        match &self.pipeline_id {
            Some(pid) => {
                let mut p = owned("pipeline=");
                p.append(pid.as_str());
                parts.push(p);
            },
            None => {},
        }
        match &self.message_contains {
            Some(m) => {
                let mut p = owned("contains=\"");
                p.append(m.as_str());
                p.append("\"");
                parts.push(p);
            },
            None => {},
        }
        assert(parts@.map_values(|s: String| s@) =~= other_parts(self@));
        parts
    }

    /// A human-readable description: the level bounds, categories, trace, node, pipeline
    /// and message pattern that are set, joined with `, `; `all events` when none is.
    pub fn describe(&self) -> (r: String)
        ensures
            r@ == describe_text(self@),
    {
        let mut parts = self.level_parts();
        let mut more = self.category_parts();
        let ghost a = parts@;
        let ghost b = more@;
        parts.append(&mut more);
        assert(parts@ =~= a + b);
        let mut rest = self.other_parts();
        let ghost c = rest@;
        let ghost ab = parts@;
        parts.append(&mut rest);
        assert(parts@ =~= ab + c);
        let ghost texts = parts@.map_values(|s: String| s@);
        assert(texts =~= describe_parts(self@)) by {
            assert(a.map_values(|s: String| s@) == level_part(self@));
            assert(b.map_values(|s: String| s@) == category_part(self@));
            assert(c.map_values(|s: String| s@) == other_parts(self@));
            assert((a + b).map_values(|s: String| s@) =~= a.map_values(|s: String| s@) + b.map_values(|s: String| s@));
            assert((ab + c).map_values(|s: String| s@) =~= ab.map_values(|s: String| s@) + c.map_values(|s: String| s@));
        }
        if parts.len() == 0 {
            return owned("all events");
        }
        let mut out = owned(parts[0].as_str());
        let mut i: usize = 1;
        assert(texts.take(1) =~= seq![texts[0]]);
        while i < parts.len()
            invariant
                1 <= i <= parts@.len(),
                texts == parts@.map_values(|s: String| s@),
                out@ == joined(texts.take(i as int), ", "@),
            decreases parts@.len() - i,
        {
            out.append(", ");
            out.append(parts[i].as_str());
            proof {
                assert(texts.take(i + 1).drop_last() =~= texts.take(i as int));
            }
            i = i + 1;
        }
        assert(texts.take(i as int) =~= texts);
        out
    }
}

impl Default for LogFilter {
    /// A filter with no constraints.
    fn default() -> (r: Self)
        ensures
            r@ == empty_filter(),
    {
        LogFilter::new()
    }
}

/// Builder for filters from command-line arguments or query parameters: text that does
/// not parse leaves its constraint unset.
#[derive(Debug)]
pub struct LogFilterBuilder {
    filter: LogFilter,
}

impl LogFilterBuilder {
    /// The filter built so far.
    pub closed spec fn spec_filter(&self) -> FilterView {
        self.filter@
    }

    /// A builder of a filter with no constraints.
    pub fn new() -> (r: Self)
        ensures
            r.spec_filter() == empty_filter(),
    {
        LogFilterBuilder { filter: LogFilter::new() }
    }

    /// Set the minimum level from text, when it names a level.
    pub fn parse_level(self, level: &str) -> (r: Self)
        ensures
            r.spec_filter() == (match level_named(spec_lowercase(level@)) {
                Some(l) => FilterView { min_level: Some(l), ..self.spec_filter() },
                None => self.spec_filter(),
            }),
    {
        match LogLevel::parse(level) {
            Some(l) => LogFilterBuilder { filter: self.filter.min_level(l) },
            None => self,
        }
    }

    /// Set the trace ID from its UUID text, when it parses.
    pub fn parse_trace_id(self, trace_id: &str) -> (r: Self)
        ensures
            r.spec_filter() == (match spec_uuid_parse(trace_id@) {
                Some(v) => FilterView { trace_id: Some(TraceId { value: v }), ..self.spec_filter() },
                None => self.spec_filter(),
            }),
    {
        match TraceId::parse(trace_id) {
            Some(t) => LogFilterBuilder { filter: self.filter.trace_id(t) },
            None => self,
        }
    }

    /// Set the node ID from its decimal text, when it reads as a `u32`.
    pub fn parse_node_id(self, node_id: &str) -> (r: Self)
        ensures
            r.spec_filter() == (match parsed_at_most(node_id@, u32::MAX as int) {
                Some(v) => FilterView { node_id: Some(NodeId { value: v as u32 }), ..self.spec_filter() },
                None => self.spec_filter(),
            }),
    {
        let cs = chars_of(node_id);
        assert(cs@.subrange(0, cs@.len() as int) =~= node_id@);
        match parse_unsigned_chars(&cs, 0, cs.len(), 4294967295) {
            Some(v) => LogFilterBuilder { filter: self.filter.node_id(NodeId::new(v as u32)) },
            None => self,
        }
    }

    /// Set the pipeline ID.
    pub fn pipeline_id(self, pipeline_id: &str) -> (r: Self)
        ensures
            r.spec_filter() == (FilterView { pipeline_id: Some(pipeline_id@), ..self.spec_filter() }),
    {
        LogFilterBuilder { filter: self.filter.pipeline_id(pipeline_id) }
    }

    /// Set the message pattern.
    pub fn message_contains(self, pattern: &str) -> (r: Self)
        ensures
            r.spec_filter() == (FilterView { message_contains: Some(pattern@), ..self.spec_filter() }),
    {
        LogFilterBuilder { filter: self.filter.message_contains(pattern) }
    }

    /// Set the limit.
    pub fn limit(self, limit: usize) -> (r: Self)
        ensures
            r.spec_filter() == (FilterView { limit: Some(limit), ..self.spec_filter() }),
    {
        LogFilterBuilder { filter: self.filter.limit(limit) }
    }

    /// The filter.
    pub fn build(self) -> (r: LogFilter)
        ensures
            r@ == self.spec_filter(),
    {
        self.filter
    }
}

impl Default for LogFilterBuilder {
    /// A builder of a filter with no constraints.
    fn default() -> (r: Self)
        ensures
            r.spec_filter() == empty_filter(),
    {
        LogFilterBuilder::new()
    }
}

} // verus!
