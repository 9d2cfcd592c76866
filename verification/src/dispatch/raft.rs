//! The queue of the Raft dispatch backend: a first-in, first-out local queue with requests
//! in flight, and the decisions on what a cluster, when one is attached, must record.
//!
//! Talking to the cluster is left to the caller: this queue says when a record is due,
//! and the caller makes it before (`enqueue`) or after (`ack`, `nack`) the local change.
use vstd::prelude::*;
use crate::types::{PipelineId, TraceId};
use super::config::raft::RaftConfig;
use super::error::DispatchError;
use super::memory::{by_id, distinct_ids, put_in_flight, take_in_flight};
use super::request::{TraceRequest, exhausted, same_request};

verus! {

/// The local queue of a Raft dispatch backend.
pub struct RaftQueue {
    config: RaftConfig,
    cluster_attached: bool,
    pending: Vec<TraceRequest>,
    in_flight: Vec<TraceRequest>,
    shutting_down: bool,
}

impl RaftQueue {
    /// The configuration.
    pub closed spec fn spec_config(&self) -> RaftConfig {
        self.config
    }

    /// Whether a cluster is attached (every operation is then recorded in its log).
    pub closed spec fn spec_cluster(&self) -> bool {
        self.cluster_attached
    }

    /// The pending requests, oldest first.
    pub closed spec fn spec_pending(&self) -> Seq<TraceRequest> {
        self.pending@
    }

    /// The requests in flight, by trace ID.
    pub closed spec fn spec_in_flight(&self) -> Map<u128, TraceRequest> {
        by_id(self.in_flight@)
    }

    /// The requests in flight, in the order they went out (each trace once).
    pub closed spec fn spec_in_flight_list(&self) -> Seq<TraceRequest> {
        self.in_flight@
    }

    /// Whether the queue is shutting down.
    pub closed spec fn spec_shutting_down(&self) -> bool {
        self.shutting_down
    }

    /// The queue's invariant: each trace at most once in flight.
    pub closed spec fn wf(&self) -> bool {
        distinct_ids(self.in_flight@)
    }

    /// An empty queue in local mode.
    pub fn new(config: RaftConfig) -> (r: Self)
        ensures
            r.wf(),
            r.spec_config() == config,
            !r.spec_cluster(),
            r.spec_pending().len() == 0,
            r.spec_in_flight() == Map::<u128, TraceRequest>::empty(),
            !r.spec_shutting_down(),
    {
        let r = RaftQueue {
            config,
            cluster_attached: false,
            pending: Vec::new(),
            in_flight: Vec::new(),
            shutting_down: false,
        };
        assert(r.spec_in_flight() =~= Map::<u128, TraceRequest>::empty());
        r
    }

    /// Record that a cluster is attached: from now on operations are recorded in its log.
    pub fn attach_cluster(&mut self)
        ensures
            final(self).spec_cluster(),
            final(self).wf() == old(self).wf(),
            final(self).spec_config() == old(self).spec_config(),
            final(self).spec_pending() == old(self).spec_pending(),
            final(self).spec_in_flight() == old(self).spec_in_flight(),
            final(self).spec_shutting_down() == old(self).spec_shutting_down(),
    {
        self.cluster_attached = true;
    }

    /// Whether a cluster is attached.
    pub fn is_cluster_mode(&self) -> (r: bool)
        ensures
            r == self.spec_cluster(),
    {
        self.cluster_attached
    }

    /// The node ID from the configuration.
    pub fn node_id(&self) -> (r: u64)
        ensures
            r == self.spec_config().node_id,
    {
        self.config.node_id
    }

    /// Whether a request may be enqueued, and if so whether the cluster must record the
    /// trace's start first: refused with `ShuttingDown` while shutting down.
    pub fn check_enqueue(&self) -> (r: Result<bool, DispatchError>)
        ensures
            self.spec_shutting_down() ==> r matches Err(DispatchError::ShuttingDown),
            !self.spec_shutting_down() ==> r == Ok::<bool, DispatchError>(self.spec_cluster()),
    {
        if self.shutting_down {
            Err(DispatchError::ShuttingDown)
        } else {
            Ok(self.cluster_attached)
        }
    }

    /// Add a request at the back of the queue (once `check_enqueue` allowed it, and the
    /// cluster, if any, recorded it); its trace ID comes back.
    pub fn push(&mut self, request: TraceRequest) -> (r: TraceId)
        ensures
            r == request.trace_id,
            final(self).spec_pending() == old(self).spec_pending().push(request),
            final(self).wf() == old(self).wf(),
            final(self).spec_config() == old(self).spec_config(),
            final(self).spec_cluster() == old(self).spec_cluster(),
            final(self).spec_in_flight() == old(self).spec_in_flight(),
            final(self).spec_shutting_down() == old(self).spec_shutting_down(),
    {
        let id = request.trace_id;
        self.pending.push(request);
        id
    }

    /// Hand out the oldest pending request with one more attempt counted (wrapping), and
    /// keep a copy of it in flight; nothing while shutting down or when nothing is pending.
    pub fn dequeue(&mut self) -> (r: Option<TraceRequest>)
        requires
            old(self).wf(),
        ensures
            final(self).wf(),
            final(self).spec_config() == old(self).spec_config(),
            final(self).spec_cluster() == old(self).spec_cluster(),
            final(self).spec_shutting_down() == old(self).spec_shutting_down(),
            old(self).spec_shutting_down() || old(self).spec_pending().len() == 0 ==> {
                &&& r is None
                &&& final(self).spec_pending() == old(self).spec_pending()
                &&& final(self).spec_in_flight() == old(self).spec_in_flight()
            },
            !old(self).spec_shutting_down() && old(self).spec_pending().len() > 0 ==> {
                let q = old(self).spec_pending()[0];
                &&& final(self).spec_pending() == old(self).spec_pending().drop_first()
                &&& r matches Some(h) && h.attempt == q.attempt.wrapping_add(1)
                    && same_request(h, (TraceRequest { attempt: h.attempt, ..q }))
                    && final(self).spec_in_flight().dom() == old(self).spec_in_flight().dom().insert(q.trace_id.value)
                    && same_request(final(self).spec_in_flight()[q.trace_id.value], h)
                    && forall|id: u128| id != q.trace_id.value ==> #[trigger] final(self).spec_in_flight()[id] == old(self).spec_in_flight()[id]
            },
    {
        if self.shutting_down || self.pending.len() == 0 {
            return None;
        }
        let ghost before = self.pending@;
        let mut request = self.pending.remove(0);
        assert(self.pending@ =~= before.drop_first());
        request.attempt = request.attempt.wrapping_add(1);
        let copy = request.duplicate();
        put_in_flight(&mut self.in_flight, copy);
        Some(request)
    }

    /// Acknowledge a trace: it leaves the in-flight set; the result says whether the
    /// cluster must record its completion.
    pub fn ack(&mut self, trace_id: TraceId) -> (r: bool)
        requires
            old(self).wf(),
        ensures
            r == old(self).spec_cluster(),
            final(self).wf(),
            final(self).spec_in_flight() == old(self).spec_in_flight().remove(trace_id.value),
            final(self).spec_config() == old(self).spec_config(),
            final(self).spec_cluster() == old(self).spec_cluster(),
            final(self).spec_pending() == old(self).spec_pending(),
            final(self).spec_shutting_down() == old(self).spec_shutting_down(),
    {
        let _ = take_in_flight(&mut self.in_flight, trace_id.value);
        self.cluster_attached
    }

    /// Negative acknowledgement: the trace leaves the in-flight set; when it was in flight,
    /// `retry` is asked and it has attempts left, it goes to the back of the queue;
    /// otherwise it failed for good, and the result says whether the cluster must record
    /// the failure (only for a trace that was in flight).
    pub fn nack(&mut self, trace_id: TraceId, retry: bool) -> (r: bool)
        requires
            old(self).wf(),
        ensures
            final(self).wf(),
            final(self).spec_in_flight() == old(self).spec_in_flight().remove(trace_id.value),
            final(self).spec_config() == old(self).spec_config(),
            final(self).spec_cluster() == old(self).spec_cluster(),
            final(self).spec_shutting_down() == old(self).spec_shutting_down(),
            ({
                let was = old(self).spec_in_flight().dom().contains(trace_id.value);
                let back = was && retry && !exhausted(old(self).spec_in_flight()[trace_id.value]);
                &&& back ==> final(self).spec_pending() == old(self).spec_pending().push(old(self).spec_in_flight()[trace_id.value])
                &&& !back ==> final(self).spec_pending() == old(self).spec_pending()
                &&& r == (was && !back && old(self).spec_cluster())
            }),
    {
        let taken = take_in_flight(&mut self.in_flight, trace_id.value);
        match taken {
            Some(request) => {
                if retry && !request.is_exhausted() {
                    self.pending.push(request);
                    false
                } else {
                    self.cluster_attached
                }
            },
            None => false,
        }
    }

    /// The number of pending requests.
    pub fn queue_depth(&self) -> (r: usize)
        ensures
            r == self.spec_pending().len(),
    {
        self.pending.len()
    }

    /// The number of requests in flight.
    pub fn in_flight_count(&self) -> (r: usize)
        requires
            self.wf(),
        ensures
            r == self.spec_in_flight().dom().len(),
    {
        proof {
            lemma_by_id_len(self.in_flight@);
        }
        self.in_flight.len()
    }

    /// Health: not shutting down, and, with a cluster attached, the cluster's own health
    /// (`cluster_healthy`, as the caller asked it).
    pub fn health_check(&self, cluster_healthy: bool) -> (r: bool)
        ensures
            r == (!self.spec_shutting_down() && (!self.spec_cluster() || cluster_healthy)),
    {
        !self.shutting_down && (!self.cluster_attached || cluster_healthy)
    }

    /// Start shutting down: no more requests are accepted or handed out.
    pub fn shutdown(&mut self)
        ensures
            final(self).spec_shutting_down(),
            final(self).wf() == old(self).wf(),
            final(self).spec_config() == old(self).spec_config(),
            final(self).spec_cluster() == old(self).spec_cluster(),
            final(self).spec_pending() == old(self).spec_pending(),
            final(self).spec_in_flight() == old(self).spec_in_flight(),
    {
        self.shutting_down = true;
    }

    /// The trace IDs of a pipeline's requests: the pending ones in order, then those in
    /// flight.
    pub fn get_pending_by_pipeline(&self, pipeline_id: &PipelineId) -> (r: Vec<TraceId>)
        ensures
            r@ == self.spec_pending().filter(|q: TraceRequest| of_pipeline(q, *pipeline_id)).map_values(|q: TraceRequest| q.trace_id)
                + self.spec_in_flight_list().filter(|q: TraceRequest| of_pipeline(q, *pipeline_id)).map_values(|q: TraceRequest| q.trace_id),
    {
        let a = ids_of_pipeline(&self.pending, pipeline_id);
        let b = ids_of_pipeline(&self.in_flight, pipeline_id);
        let mut out = a;
        let mut other = b;
        out.append(&mut other);
        out
    }
}

/// The request belongs to the pipeline: same name and version.
pub open spec fn of_pipeline(q: TraceRequest, p: PipelineId) -> bool {
    q.pipeline_id.name@ == p.name@ && q.pipeline_id.version == p.version
}

/// The trace IDs of the requests of `list` that belong to the pipeline, in order.
fn ids_of_pipeline(list: &Vec<TraceRequest>, pipeline_id: &PipelineId) -> (r: Vec<TraceId>)
    ensures
        r@ == list@.filter(|q: TraceRequest| of_pipeline(q, *pipeline_id)).map_values(|q: TraceRequest| q.trace_id),
{
    let ghost f = |q: TraceRequest| of_pipeline(q, *pipeline_id);
    let mut out: Vec<TraceId> = Vec::new();
    let mut i: usize = 0;
    while i < list.len()
        invariant
            i <= list@.len(),
            f == (|q: TraceRequest| of_pipeline(q, *pipeline_id)),
            out@ == list@.take(i as int).filter(f).map_values(|q: TraceRequest| q.trace_id),
        decreases list@.len() - i,
    {
        proof {
            reveal(Seq::filter);
            assert(list@.take(i + 1).drop_last() =~= list@.take(i as int));
        }
        let q = &list[i];
        if q.pipeline_id.same_as(pipeline_id) {
            out.push(q.trace_id);
        }
        assert(out@ =~= list@.take(i + 1).filter(f).map_values(|q: TraceRequest| q.trace_id));
        i = i + 1;
    }
    assert(list@.take(i as int) =~= list@);
    out
}

/// A list of requests with distinct IDs holds as many requests as its map has keys.
proof fn lemma_by_id_len(s: Seq<TraceRequest>)
    requires
        distinct_ids(s),
    ensures
        by_id(s).dom().len() == s.len(),
{
    let ids = s.map_values(|q: TraceRequest| q.trace_id.value);
    assert(ids.no_duplicates()) by {
        assert forall|i: int, j: int| 0 <= i < ids.len() && 0 <= j < ids.len() && i != j implies ids[i] != ids[j] by {
            assert(s[i].trace_id != s[j].trace_id);
        }
    }
    ids.unique_seq_to_set();
    assert(ids.to_set() =~= by_id(s).dom()) by {
        assert forall|k: u128| ids.to_set().contains(k) implies by_id(s).dom().contains(k) by {
            let i = choose|i: int| 0 <= i < ids.len() && ids[i] == k;
            assert(s[i].trace_id.value == k);
        }
        assert forall|k: u128| by_id(s).dom().contains(k) implies ids.to_set().contains(k) by {
            let i = choose|i: int| 0 <= i < s.len() && s[i].trace_id.value == k;
            assert(ids[i] == k);
        }
    }
}

} // verus!
