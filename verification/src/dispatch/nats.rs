//! NATS JetStream dispatch: the subjects a backend publishes on, how long it waits for a
//! message, which stored messages it scans, and how it settles a failed trace. The
//! messages themselves are sent and received by the caller.
use vstd::prelude::*;
use super::config::nats::NatsConfig;
use super::request::{TraceRequest, exhausted};
use crate::text::owned;
use crate::types::{PipelineId, TraceId};

verus! {

/// The most messages a stream keeps.
pub const STREAM_MAX_MESSAGES: i64 = 1_000_000;

/// The most bytes a stream keeps (1 GB).
pub const STREAM_MAX_BYTES: i64 = 1_073_741_824;

/// How long a fetch waits when the caller asks not to wait, in milliseconds.
pub const MIN_POLL_MS: u64 = 100;

/// The most stored messages scanned when looking for a pipeline's traces.
pub const MAX_SCAN: u64 = 1000;

/// How long a retried message waits before it is delivered again, in milliseconds.
pub const RETRY_DELAY_MS: u64 = 1000;

/// The subject of a pipeline's traces: `{prefix}.traces.{pipeline name}`.
pub fn trace_subject(config: &NatsConfig, pipeline_id: &PipelineId) -> (r: String)
    ensures
        r@ == config.subject_prefix@ + ".traces."@ + pipeline_id.name@,
{
    let mut r = owned(config.subject_prefix.as_str());
    r.append(".traces.");
    r.append(pipeline_id.name());
    r
}

/// The subjects the stream takes: everything under the prefix, `{prefix}.>`.
pub fn stream_subject(config: &NatsConfig) -> (r: String)
    ensures
        r@ == config.subject_prefix@ + ".>"@,
{
    let mut r = owned(config.subject_prefix.as_str());
    r.append(".>");
    r
}

/// How long a fetch waits: the caller's timeout, or the minimum poll interval when it is 0.
pub fn fetch_timeout_ms(timeout_ms: u64) -> (r: u64)
    ensures
        r == (if timeout_ms > 0 { timeout_ms } else { MIN_POLL_MS }),
{
    if timeout_ms > 0 {
        timeout_ms
    } else {
        MIN_POLL_MS
    }
}

/// The sequence numbers to scan in a stream holding `first_seq..=last_seq`: the last
/// `MAX_SCAN` of them, or all when there are fewer.
pub fn scan_range(first_seq: u64, last_seq: u64) -> (r: (u64, u64))
    requires
        first_seq <= last_seq,
        last_seq - first_seq < u64::MAX,
    ensures
        r.1 == last_seq,
        r.0 == (if last_seq - first_seq + 1 <= MAX_SCAN { first_seq as int } else { last_seq - (MAX_SCAN - 1) }),
        first_seq <= r.0 <= r.1,
        r.1 - r.0 < MAX_SCAN,
{
    let span = last_seq - first_seq + 1;
    let count = if span < MAX_SCAN { span } else { MAX_SCAN };
    let start = last_seq - (count - 1);
    let start = if start < first_seq { first_seq } else { start };
    (start, last_seq)
}

/// How a failed message is settled with the server.
#[derive(Debug, Clone, Copy, PartialEq, Eq, Structural)]
pub enum NatsAck {
    /// Deliver it again after a delay.
    Nak { delay_ms: u64 },
    /// Never deliver it again.
    Term,
}

/// A failed trace is delivered again after the retry delay when a retry is asked and it
/// has attempts left; otherwise it is terminated.
pub fn nack_action(request: &TraceRequest, retry: bool) -> (r: NatsAck)
    ensures
        retry && !exhausted(*request) ==> r == (NatsAck::Nak { delay_ms: RETRY_DELAY_MS }),
        !(retry && !exhausted(*request)) ==> r == NatsAck::Term,
{
    if retry && !request.is_exhausted() {
        NatsAck::Nak { delay_ms: RETRY_DELAY_MS }
    } else {
        NatsAck::Term
    }
}

/// Add the trace of a stored request to a pipeline's list: only when the request belongs
/// to that pipeline (name and version) and the trace is not listed yet.
pub fn add_pipeline_trace(traces: &mut Vec<TraceId>, request: &TraceRequest, pipeline_id: &PipelineId)
    ensures
        ({
            let belongs = request.pipeline_id.name@ == pipeline_id.name@ && request.pipeline_id.version == pipeline_id.version;
            &&& belongs && !old(traces)@.contains(request.trace_id) ==> final(traces)@ == old(traces)@.push(request.trace_id)
            &&& !(belongs && !old(traces)@.contains(request.trace_id)) ==> final(traces)@ == old(traces)@
        }),
{
    if !request.pipeline_id.same_as(pipeline_id) {
        return;
    }
    let mut i: usize = 0;
    while i < traces.len()
        invariant
            i <= traces@.len(),
            forall|j: int| 0 <= j < i ==> traces@[j] != request.trace_id,
        decreases traces@.len() - i,
    {
        if traces[i].value == request.trace_id.value {
            proof {
                assert(traces@[i as int] == request.trace_id);
            }
            return;
        }
        i = i + 1;
    }
    traces.push(request.trace_id);
}

} // verus!
