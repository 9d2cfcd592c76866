//! Trace requests: the unit of work that is queued and handed to workers.
use vstd::prelude::*;
use crate::types::{PipelineId, TraceId};
use crate::strmap::StringMap;
use crate::text::owned;
use crate::clock::unix_time_millis;

verus! {

/// Content type of the request payload.
#[derive(Debug, Clone, Copy, PartialEq, Eq, Structural)]
pub enum PayloadType {
    /// JSON-encoded payload.
    Json,
    /// Rkyv-serialized payload (zero-copy).
    Rkyv,
    /// Raw bytes (opaque to dispatch layer).
    Raw,
}

impl Default for PayloadType {
    /// JSON.
    fn default() -> (r: Self)
        ensures
            r == PayloadType::Json,
    {
        PayloadType::Json
    }
}

/// A request to execute a trace.
#[derive(Debug)]
pub struct TraceRequest {
    /// Unique identifier for this trace.
    pub trace_id: TraceId,
    /// Pipeline this trace belongs to.
    pub pipeline_id: PipelineId,
    /// ID of the trigger that initiated this trace.
    pub trigger_id: String,
    /// Serialized trigger payload.
    pub payload: Vec<u8>,
    /// Content type of the payload.
    pub payload_type: PayloadType,
    /// When the request was created (Unix timestamp in milliseconds).
    pub created_at_ms: u64,
    /// Priority (higher = more urgent).
    pub priority: i32,
    /// Number of times this request has been attempted.
    pub attempt: u32,
    /// Maximum number of attempts before giving up.
    pub max_attempts: u32,
    /// Metadata for routing, filtering, etc.
    pub metadata: StringMap,
}

/// Two requests hold the same data (strings and maps compared by their contents).
pub open spec fn same_request(a: TraceRequest, b: TraceRequest) -> bool {
    &&& a.trace_id == b.trace_id
    &&& a.pipeline_id.name@ == b.pipeline_id.name@
    &&& a.pipeline_id.version == b.pipeline_id.version
    &&& a.trigger_id@ == b.trigger_id@
    &&& a.payload@ == b.payload@
    &&& a.payload_type == b.payload_type
    &&& a.created_at_ms == b.created_at_ms
    &&& a.priority == b.priority
    &&& a.attempt == b.attempt
    &&& a.max_attempts == b.max_attempts
    &&& a.metadata@ == b.metadata@
}

/// A request has used up its attempts.
pub open spec fn exhausted(r: TraceRequest) -> bool {
    r.attempt >= r.max_attempts
}

/// The time from `created` to `now` (0 when `now` is earlier).
pub open spec fn age_between(created: u64, now: u64) -> u64 {
    if now >= created {
        (now - created) as u64
    } else {
        0
    }
}

impl TraceRequest {
    /// A new request, created now: JSON payload, priority 0, no attempts yet, at most
    /// three attempts, no metadata.
    pub fn new(trace_id: TraceId, pipeline_id: PipelineId, trigger_id: &str, payload: Vec<u8>) -> (r: Self)
        ensures
            r.trace_id == trace_id,
            r.pipeline_id == pipeline_id,
            r.trigger_id@ == trigger_id@,
            r.payload@ == payload@,
            r.payload_type == PayloadType::Json,
            r.priority == 0,
            r.attempt == 0,
            r.max_attempts == 3,
            r.metadata@ == Map::<Seq<char>, Seq<char>>::empty(),
    {
        TraceRequest {
            trace_id,
            pipeline_id,
            trigger_id: owned(trigger_id),
            payload,
            payload_type: PayloadType::Json,
            created_at_ms: unix_time_millis(),
            priority: 0,
            attempt: 0,
            max_attempts: 3,
            metadata: StringMap::new(),
        }
    }

    /// A builder for more complex requests.
    pub fn builder(pipeline_id: PipelineId, trigger_id: &str) -> (r: TraceRequestBuilder)
        ensures
            r.spec_pipeline_id() == pipeline_id,
            r.spec_trigger_id() == trigger_id@,
            r.spec_trace_id() is None,
            r.spec_payload() == Seq::<u8>::empty(),
            r.spec_payload_type() == PayloadType::Json,
            r.spec_priority() == 0,
            r.spec_max_attempts() == 3,
            r.spec_metadata() == Map::<Seq<char>, Seq<char>>::empty(),
    {
        TraceRequestBuilder::new(pipeline_id, trigger_id)
    }

    /// Whether this request has used up its attempts.
    pub fn is_exhausted(&self) -> (r: bool)
        ensures
            r == exhausted(*self),
    {
        self.attempt >= self.max_attempts
    }

    /// Count one more attempt.
    pub fn increment_attempt(&mut self)
        requires
            old(self).attempt < u32::MAX,
        ensures
            final(self).attempt == old(self).attempt + 1,
            final(self).trace_id == old(self).trace_id,
            final(self).pipeline_id == old(self).pipeline_id,
            final(self).trigger_id == old(self).trigger_id,
            final(self).payload == old(self).payload,
            final(self).payload_type == old(self).payload_type,
            final(self).created_at_ms == old(self).created_at_ms,
            final(self).priority == old(self).priority,
            final(self).max_attempts == old(self).max_attempts,
            final(self).metadata == old(self).metadata,
    {
        self.attempt = self.attempt + 1;
    }

    /// The age of this request at the time `now_ms`, in milliseconds (0 when `now_ms` is
    /// earlier than its creation).
    pub fn age_at(&self, now_ms: u64) -> (r: u64)
        ensures
            r == age_between(self.created_at_ms, now_ms),
    {
        now_ms.saturating_sub(self.created_at_ms)
    }

    /// The age of this request now, in milliseconds: its age at the clock's reading.
    pub fn age_ms(&self) -> (r: u64)
        ensures
            exists|now: u64| r == #[trigger] age_between(self.created_at_ms, now),
    {
        let now = unix_time_millis();
        self.age_at(now)
    }

    /// Add a metadata entry (replacing an earlier value under the same key).
    pub fn with_metadata(self, key: &str, value: &str) -> (r: Self)
        ensures
            r.metadata@ == self.metadata@.insert(key@, value@),
            r.trace_id == self.trace_id,
            r.pipeline_id == self.pipeline_id,
            r.trigger_id == self.trigger_id,
            r.payload == self.payload,
            r.payload_type == self.payload_type,
            r.created_at_ms == self.created_at_ms,
            r.priority == self.priority,
            r.attempt == self.attempt,
            r.max_attempts == self.max_attempts,
    {
        let mut r = self;
        r.metadata.insert(key, value);
        r
    }

    /// A metadata value.
    pub fn get_metadata(&self, key: &str) -> (r: Option<&str>)
        ensures
            r is Some <==> self.metadata@.dom().contains(key@),
            r matches Some(v) ==> v@ == self.metadata@[key@],
    {
        self.metadata.get(key)
    }

    /// A copy of this request.
    pub fn duplicate(&self) -> (r: Self)
        ensures
            same_request(r, *self),
    {
        TraceRequest {
            trace_id: self.trace_id,
            pipeline_id: self.pipeline_id.duplicate(),
            trigger_id: owned(self.trigger_id.as_str()),
            payload: self.payload.clone(),
            payload_type: self.payload_type,
            created_at_ms: self.created_at_ms,
            priority: self.priority,
            attempt: self.attempt,
            max_attempts: self.max_attempts,
            metadata: self.metadata.duplicate(),
        }
    }
}

/// Builder for trace requests.
pub struct TraceRequestBuilder {
    pipeline_id: PipelineId,
    trigger_id: String,
    trace_id: Option<TraceId>,
    payload: Vec<u8>,
    payload_type: PayloadType,
    priority: i32,
    max_attempts: u32,
    metadata: StringMap,
}

impl TraceRequestBuilder {
    /// The pipeline of the request being built.
    pub closed spec fn spec_pipeline_id(&self) -> PipelineId {
        self.pipeline_id
    }

    /// The trigger of the request being built.
    pub closed spec fn spec_trigger_id(&self) -> Seq<char> {
        self.trigger_id@
    }

    /// The trace ID set, if any.
    pub closed spec fn spec_trace_id(&self) -> Option<TraceId> {
        self.trace_id
    }

    /// The payload set.
    pub closed spec fn spec_payload(&self) -> Seq<u8> {
        self.payload@
    }

    /// The payload type set.
    pub closed spec fn spec_payload_type(&self) -> PayloadType {
        self.payload_type
    }

    /// The priority set.
    pub closed spec fn spec_priority(&self) -> i32 {
        self.priority
    }

    /// The maximum attempts set.
    pub closed spec fn spec_max_attempts(&self) -> u32 {
        self.max_attempts
    }

    /// The metadata set.
    pub closed spec fn spec_metadata(&self) -> Map<Seq<char>, Seq<char>> {
        self.metadata@
    }

    /// A builder for a request of `pipeline_id` from `trigger_id`.
    pub fn new(pipeline_id: PipelineId, trigger_id: &str) -> (r: Self)
        ensures
            r.spec_pipeline_id() == pipeline_id,
            r.spec_trigger_id() == trigger_id@,
            r.spec_trace_id() is None,
            r.spec_payload() == Seq::<u8>::empty(),
            r.spec_payload_type() == PayloadType::Json,
            r.spec_priority() == 0,
            r.spec_max_attempts() == 3,
            r.spec_metadata() == Map::<Seq<char>, Seq<char>>::empty(),
    {
        TraceRequestBuilder {
            pipeline_id,
            trigger_id: owned(trigger_id),
            trace_id: None,
            payload: Vec::new(),
            payload_type: PayloadType::Json,
            priority: 0,
            max_attempts: 3,
            metadata: StringMap::new(),
        }
    }

    /// Set a specific trace ID (otherwise one is generated).
    pub fn trace_id(self, id: TraceId) -> (r: Self)
        ensures
            r.spec_trace_id() == Some(id),
            r.spec_pipeline_id() == self.spec_pipeline_id(),
            r.spec_trigger_id() == self.spec_trigger_id(),
            r.spec_payload() == self.spec_payload(),
            r.spec_payload_type() == self.spec_payload_type(),
            r.spec_priority() == self.spec_priority(),
            r.spec_max_attempts() == self.spec_max_attempts(),
            r.spec_metadata() == self.spec_metadata(),
    {
        TraceRequestBuilder { trace_id: Some(id), ..self }
    }

    /// Set the payload as JSON bytes (already serialized).
    pub fn json_payload(self, payload: Vec<u8>) -> (r: Self)
        ensures
            r.spec_payload() == payload@,
            r.spec_payload_type() == PayloadType::Json,
            r.spec_trace_id() == self.spec_trace_id(),
            r.spec_pipeline_id() == self.spec_pipeline_id(),
            r.spec_trigger_id() == self.spec_trigger_id(),
            r.spec_priority() == self.spec_priority(),
            r.spec_max_attempts() == self.spec_max_attempts(),
            r.spec_metadata() == self.spec_metadata(),
    {
        TraceRequestBuilder { payload, payload_type: PayloadType::Json, ..self }
    }

    /// Set the payload as raw bytes.
    pub fn raw_payload(self, payload: Vec<u8>) -> (r: Self)
        ensures
            r.spec_payload() == payload@,
            r.spec_payload_type() == PayloadType::Raw,
            r.spec_trace_id() == self.spec_trace_id(),
            r.spec_pipeline_id() == self.spec_pipeline_id(),
            r.spec_trigger_id() == self.spec_trigger_id(),
            r.spec_priority() == self.spec_priority(),
            r.spec_max_attempts() == self.spec_max_attempts(),
            r.spec_metadata() == self.spec_metadata(),
    {
        TraceRequestBuilder { payload, payload_type: PayloadType::Raw, ..self }
    }

    /// Set the payload as rkyv-serialized bytes.
    pub fn rkyv_payload(self, payload: Vec<u8>) -> (r: Self)
        ensures
            r.spec_payload() == payload@,
            r.spec_payload_type() == PayloadType::Rkyv,
            r.spec_trace_id() == self.spec_trace_id(),
            r.spec_pipeline_id() == self.spec_pipeline_id(),
            r.spec_trigger_id() == self.spec_trigger_id(),
            r.spec_priority() == self.spec_priority(),
            r.spec_max_attempts() == self.spec_max_attempts(),
            r.spec_metadata() == self.spec_metadata(),
    {
        TraceRequestBuilder { payload, payload_type: PayloadType::Rkyv, ..self }
    }

    /// Set the priority (higher = more urgent).
    pub fn priority(self, priority: i32) -> (r: Self)
        ensures
            r.spec_priority() == priority,
            r.spec_trace_id() == self.spec_trace_id(),
            r.spec_pipeline_id() == self.spec_pipeline_id(),
            r.spec_trigger_id() == self.spec_trigger_id(),
            r.spec_payload() == self.spec_payload(),
            r.spec_payload_type() == self.spec_payload_type(),
            r.spec_max_attempts() == self.spec_max_attempts(),
            r.spec_metadata() == self.spec_metadata(),
    {
        TraceRequestBuilder { priority, ..self }
    }

    /// Set the maximum number of attempts.
    pub fn max_attempts(self, max: u32) -> (r: Self)
        ensures
            r.spec_max_attempts() == max,
            r.spec_trace_id() == self.spec_trace_id(),
            r.spec_pipeline_id() == self.spec_pipeline_id(),
            r.spec_trigger_id() == self.spec_trigger_id(),
            r.spec_payload() == self.spec_payload(),
            r.spec_payload_type() == self.spec_payload_type(),
            r.spec_priority() == self.spec_priority(),
            r.spec_metadata() == self.spec_metadata(),
    {
        TraceRequestBuilder { max_attempts: max, ..self }
    }

    /// Add metadata (replacing an earlier value under the same key).
    pub fn metadata(self, key: &str, value: &str) -> (r: Self)
        ensures
            r.spec_metadata() == self.spec_metadata().insert(key@, value@),
            r.spec_trace_id() == self.spec_trace_id(),
            r.spec_pipeline_id() == self.spec_pipeline_id(),
            r.spec_trigger_id() == self.spec_trigger_id(),
            r.spec_payload() == self.spec_payload(),
            r.spec_payload_type() == self.spec_payload_type(),
            r.spec_priority() == self.spec_priority(),
            r.spec_max_attempts() == self.spec_max_attempts(),
    {
        let mut r = self;
        r.metadata.insert(key, value);
        r
    }

    /// Build the request, created now, with no attempts yet; its trace ID is the one set,
    /// or a fresh random one.
    pub fn build(self) -> (r: TraceRequest)
        ensures
            self.spec_trace_id() matches Some(id) ==> r.trace_id == id,
            r.pipeline_id == self.spec_pipeline_id(),
            r.trigger_id@ == self.spec_trigger_id(),
            r.payload@ == self.spec_payload(),
            r.payload_type == self.spec_payload_type(),
            r.priority == self.spec_priority(),
            r.attempt == 0,
            r.max_attempts == self.spec_max_attempts(),
            r.metadata@ == self.spec_metadata(),
    {
        let trace_id = match self.trace_id {
            Some(id) => id,
            None => TraceId::new(),
        };
        TraceRequest {
            trace_id,
            pipeline_id: self.pipeline_id,
            trigger_id: self.trigger_id,
            payload: self.payload,
            payload_type: self.payload_type,
            created_at_ms: unix_time_millis(),
            priority: self.priority,
            attempt: 0,
            max_attempts: self.max_attempts,
            metadata: self.metadata,
        }
    }
}

/// A request as a worker receives it: one more attempt counted (wrapping).
pub fn received(request: TraceRequest) -> (r: TraceRequest)
    ensures
        r.attempt == request.attempt.wrapping_add(1),
        r == (TraceRequest { attempt: r.attempt, ..request }),
{
    let mut r = request;
    r.attempt = r.attempt.wrapping_add(1);
    r
}

} // verus!
