//! Redis dispatch: the keys a backend uses, the fields of the stream entries it writes,
//! and what it takes from the replies it reads. The commands themselves are sent by the
//! caller.
use vstd::prelude::*;
use super::config::redis::RedisConfig;
use super::request::TraceRequest;
use crate::text::{decimal_text, i64_text, owned, signed_decimal_text, str_eq, u64_text};
use crate::types::{PipelineId, TraceId, spec_uuid_parse, uuid_text};

verus! {

/// A stream entry: its ID and its fields, each a name with a value.
pub type StreamEntry = (String, Vec<(String, String)>);

/// The text of a pipeline ID: its name, `@v` and its version.
pub open spec fn pipeline_text(p: PipelineId) -> Seq<char> {
    p.name@ + "@v"@ + decimal_text(p.version as nat)
}

/// The text of a pipeline ID, such as `orders@v2`.
pub fn pipeline_string(p: &PipelineId) -> (r: String)
    ensures
        r@ == pipeline_text(*p),
{
    let mut r = owned(p.name.as_str());
    r.append("@v");
    r.append(u64_text(p.version as u64).as_str());
    r
}

/// The key of the stream of traces: `{prefix}:traces`.
pub fn stream_key(config: &RedisConfig) -> (r: String)
    ensures
        r@ == config.key_prefix@ + ":traces"@,
{
    let mut r = owned(config.key_prefix.as_str());
    r.append(":traces");
    r
}

/// The key of the hash of entries handed out: `{prefix}:pending`.
pub fn pending_key(config: &RedisConfig) -> (r: String)
    ensures
        r@ == config.key_prefix@ + ":pending"@,
{
    let mut r = owned(config.key_prefix.as_str());
    r.append(":pending");
    r
}

/// The key of the list used when streams are off: `{prefix}:queue`.
pub fn queue_key(config: &RedisConfig) -> (r: String)
    ensures
        r@ == config.key_prefix@ + ":queue"@,
{
    let mut r = owned(config.key_prefix.as_str());
    r.append(":queue");
    r
}

/// The value of the first field of `fields` named `name`.
pub open spec fn field_value(fields: Seq<(String, String)>, name: Seq<char>) -> Option<Seq<char>>
    decreases fields.len(),
{
    if fields.len() == 0 {
        None
    } else if fields[0].0@ == name {
        Some(fields[0].1@)
    } else {
        field_value(fields.drop_first(), name)
    }
}

/// The value of the first field named `name`, if any.
pub fn find_field(fields: &Vec<(String, String)>, name: &str) -> (r: Option<String>)
    ensures
        match field_value(fields@, name@) {
            Some(v) => r matches Some(s) && s@ == v,
            None => r is None,
        },
{
    let mut i: usize = 0;
    assert(fields@.skip(0) =~= fields@);
    while i < fields.len()
        invariant
            i <= fields@.len(),
            field_value(fields@, name@) == field_value(fields@.skip(i as int), name@),
        decreases fields@.len() - i,
    {
        proof {
            assert(fields@.skip(i as int).drop_first() =~= fields@.skip(i + 1));
        }
        if str_eq(fields[i].0.as_str(), name) {
            return Some(owned(fields[i].1.as_str()));
        }
        i = i + 1;
    }
    proof {
        assert(fields@.skip(i as int) =~= Seq::<(String, String)>::empty());
    }
    None
}

/// The fields of the stream entry of a request: its trace ID, its data (the request's
/// serialized form), its pipeline and its priority, in that order.
pub fn entry_fields(request: &TraceRequest, data: &str) -> (r: Vec<(String, String)>)
    ensures
        r@.len() == 4,
        r@[0].0@ == "trace_id"@ && r@[0].1@ == uuid_text(request.trace_id.value),
        r@[1].0@ == "data"@ && r@[1].1@ == data@,
        r@[2].0@ == "pipeline_id"@ && r@[2].1@ == pipeline_text(request.pipeline_id),
        r@[3].0@ == "priority"@ && r@[3].1@ == signed_decimal_text(request.priority as int),
{
    let mut r: Vec<(String, String)> = Vec::new();
    r.push((owned("trace_id"), request.trace_id.to_text()));
    r.push((owned("data"), owned(data)));
    r.push((owned("pipeline_id"), pipeline_string(&request.pipeline_id)));
    r.push((owned("priority"), i64_text(request.priority as i64)));
    r
}

/// What a claim or read hands over: the entry's ID and its data.
pub open spec fn entry_data(e: StreamEntry) -> Option<(Seq<char>, Seq<char>)> {
    match field_value(e.1@, "data"@) {
        Some(d) => Some((e.0@, d)),
        None => None,
    }
}

/// The entry that an automatic claim handed over: only the first entry counts, and only
/// when it has a data field.
pub fn claimed_entry(entries: &Vec<StreamEntry>) -> (r: Option<(String, String)>)
    ensures
        entries@.len() == 0 ==> r is None,
        entries@.len() > 0 ==> match entry_data(entries@[0]) {
            Some(p) => r matches Some(q) && q.0@ == p.0 && q.1@ == p.1,
            None => r is None,
        },
{
    if entries.len() == 0 {
        return None;
    }
    let entry = &entries[0];
    match find_field(&entry.1, "data") {
        Some(d) => Some((owned(entry.0.as_str()), d)),
        None => None,
    }
}

/// The entries of all streams of a group read, one stream after another.
pub open spec fn all_entries(streams: Seq<(String, Vec<StreamEntry>)>) -> Seq<StreamEntry>
    decreases streams.len(),
{
    if streams.len() == 0 {
        Seq::empty()
    } else {
        all_entries(streams.drop_last()) + streams.last().1@
    }
}

/// The first entry of `s` that has a data field, with that data.
pub open spec fn first_with_data(s: Seq<StreamEntry>) -> Option<(Seq<char>, Seq<char>)>
    decreases s.len(),
{
    if s.len() == 0 {
        None
    } else if entry_data(s[0]) is Some {
        entry_data(s[0])
    } else {
        first_with_data(s.drop_first())
    }
}

proof fn lemma_first_with_data_append(a: Seq<StreamEntry>, b: Seq<StreamEntry>)
    ensures
        first_with_data(a + b) == (if first_with_data(a) is Some { first_with_data(a) } else { first_with_data(b) }),
    decreases a.len(),
{
    if a.len() > 0 {
        assert((a + b).drop_first() =~= a.drop_first() + b);
        assert((a + b)[0] == a[0]);
        lemma_first_with_data_append(a.drop_first(), b);
    } else {
        assert(a + b =~= b);
    }
}

/// The first entry with a data field among the streams a group read returned.
pub fn first_entry_with_data(streams: &Vec<(String, Vec<StreamEntry>)>) -> (r: Option<(String, String)>)
    ensures
        match first_with_data(all_entries(streams@)) {
            Some(p) => r matches Some(q) && q.0@ == p.0 && q.1@ == p.1,
            None => r is None,
        },
{
    let mut i: usize = 0;
    while i < streams.len()
        invariant
            i <= streams@.len(),
            first_with_data(all_entries(streams@.take(i as int))) is None,
        decreases streams@.len() - i,
    {
        let entries = &streams[i].1;
        let ghost done = all_entries(streams@.take(i as int));
        proof {
            assert(streams@.take(i + 1).drop_last() =~= streams@.take(i as int));
            lemma_first_with_data_append(done, entries@);
        }
        let mut j: usize = 0;
        assert(entries@.skip(0) =~= entries@);
        while j < entries.len()
            invariant
                i < streams@.len(),
                entries@ == streams@[i as int].1@,
                first_with_data(all_entries(streams@.take(i as int))) is None,
                j <= entries@.len(),
                first_with_data(entries@) == first_with_data(entries@.skip(j as int)),
            decreases entries@.len() - j,
        {
            proof {
                assert(entries@.skip(j as int).drop_first() =~= entries@.skip(j + 1));
                assert(entries@.skip(j as int)[0] == entries@[j as int]);
            }
            let e = &entries[j];
            match find_field(&e.1, "data") {
                Some(d) => {
                    proof {
                        lemma_whole_after_prefix(streams@, i as int);
                    }
                    return Some((owned(e.0.as_str()), d));
                },
                None => {},
            }
            j = j + 1;
        }
        proof {
            assert(entries@.skip(j as int) =~= Seq::<StreamEntry>::empty());
        }
        i = i + 1;
    }
    proof {
        assert(streams@.take(i as int) =~= streams@);
    }
    None
}

/// When no entry of the first `i` streams has data, the first with data overall is the
/// first with data from stream `i` on.
proof fn lemma_whole_after_prefix(streams: Seq<(String, Vec<StreamEntry>)>, i: int)
    requires
        0 <= i < streams.len(),
        first_with_data(all_entries(streams.take(i))) is None,
        first_with_data(streams[i].1@) is Some,
    ensures
        first_with_data(all_entries(streams)) == first_with_data(streams[i].1@),
    decreases streams.len() - i,
{
    assert(streams.take(i + 1).drop_last() =~= streams.take(i));
    assert(streams.take(i + 1).last() == streams[i]);
    lemma_first_with_data_append(all_entries(streams.take(i)), streams[i].1@);
    assert(first_with_data(all_entries(streams.take(i + 1))) == first_with_data(streams[i].1@));
    lemma_all_entries_prefix(streams, i + 1);
}

/// The entries of all streams start with the entries of the first `k` streams, and the first
/// entry with data among those (when there is one) is the first overall.
proof fn lemma_all_entries_prefix(streams: Seq<(String, Vec<StreamEntry>)>, k: int)
    requires
        0 <= k <= streams.len(),
    ensures
        first_with_data(all_entries(streams.take(k))) is Some ==> first_with_data(all_entries(streams))
            == first_with_data(all_entries(streams.take(k))),
    decreases streams.len() - k,
{
    if k < streams.len() {
        assert(streams.take(k + 1).drop_last() =~= streams.take(k));
        assert(streams.take(k + 1).last() == streams[k]);
        lemma_first_with_data_append(all_entries(streams.take(k)), streams[k].1@);
        lemma_all_entries_prefix(streams, k + 1);
    } else {
        assert(streams.take(k) =~= streams);
    }
}

/// The trace IDs that the entries of `pipeline` name, in stream order: an entry counts
/// when its pipeline field is the pipeline's text and its trace ID field parses.
pub open spec fn pipeline_traces(entries: Seq<StreamEntry>, pipeline: Seq<char>) -> Seq<TraceId>
    decreases entries.len(),
{
    if entries.len() == 0 {
        Seq::empty()
    } else {
        let rest = pipeline_traces(entries.drop_last(), pipeline);
        let e = entries.last();
        match (field_value(e.1@, "pipeline_id"@), field_value(e.1@, "trace_id"@)) {
            (Some(p), Some(t)) => if p == pipeline {
                match spec_uuid_parse(t) {
                    Some(v) => rest.push(TraceId { value: v }),
                    None => rest,
                }
            } else {
                rest
            },
            _ => rest,
        }
    }
}

/// The trace IDs of `pipeline` among stream entries (see `pipeline_traces`).
pub fn pending_of_pipeline(entries: &Vec<StreamEntry>, pipeline: &PipelineId) -> (r: Vec<TraceId>)
    ensures
        r@ == pipeline_traces(entries@, pipeline_text(*pipeline)),
{
    let text = pipeline_string(pipeline);
    let mut out: Vec<TraceId> = Vec::new();
    let mut i: usize = 0;
    while i < entries.len()
        invariant
            i <= entries@.len(),
            text@ == pipeline_text(*pipeline),
            out@ == pipeline_traces(entries@.take(i as int), text@),
        decreases entries@.len() - i,
    {
        proof {
            assert(entries@.take(i + 1).drop_last() =~= entries@.take(i as int));
            assert(entries@.take(i + 1).last() == entries@[i as int]);
        }
        let fields = &entries[i].1;
        let pid = find_field(fields, "pipeline_id");
        let tid = find_field(fields, "trace_id");
        match (pid, tid) {
            (Some(p), Some(t)) => {
                if str_eq(p.as_str(), text.as_str()) {
                    match TraceId::parse(t.as_str()) {
                        Some(id) => out.push(id),
                        None => {},
                    }
                }
            },
            _ => {},
        }
        i = i + 1;
    }
    proof {
        assert(entries@.take(i as int) =~= entries@);
    }
    out
}

} // verus!
