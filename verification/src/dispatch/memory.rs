//! The in-memory dispatch queue: pending requests (first in, first out, or by priority),
//! requests in flight, and the retry rule.
//!
//! Waiting for work is left to the caller; this queue decides what each operation does.
use vstd::prelude::*;
use crate::types::{PipelineId, TraceId};
use super::config::memory::MemoryConfig;
use super::error::DispatchError;
use super::request::{TraceRequest, exhausted, same_request};

verus! {

/// `a` is to be served before `b` in priority order: higher priority first, then the
/// older request first.
pub open spec fn served_before(a: TraceRequest, b: TraceRequest) -> bool {
    a.priority > b.priority || (a.priority == b.priority && a.created_at_ms < b.created_at_ms)
}

/// Position `k` is the request a priority queue serves next: no request is to be served
/// before it, and it is to be served before every request ahead of it in the list.
pub open spec fn next_by_priority(s: Seq<TraceRequest>, k: int) -> bool {
    &&& 0 <= k < s.len()
    &&& forall|j: int| 0 <= j < s.len() ==> !served_before(#[trigger] s[j], s[k])
    &&& forall|j: int| 0 <= j < k ==> served_before(s[k], #[trigger] s[j])
}

/// What a priority queue serves next: a request of the highest pending priority; among
/// those, one created earliest; among those, the one enqueued first.
pub proof fn lemma_priority_queue_order(s: Seq<TraceRequest>, k: int)
    requires
        next_by_priority(s, k),
    ensures
        forall|j: int| 0 <= j < s.len() ==> (#[trigger] s[j]).priority <= s[k].priority,
        forall|j: int| 0 <= j < s.len() && (#[trigger] s[j]).priority == s[k].priority
            ==> s[j].created_at_ms >= s[k].created_at_ms,
        forall|j: int| 0 <= j < s.len() && (#[trigger] s[j]).priority == s[k].priority
            && s[j].created_at_ms == s[k].created_at_ms ==> k <= j,
{
    assert forall|j: int| 0 <= j < s.len() && (#[trigger] s[j]).priority == s[k].priority
        && s[j].created_at_ms == s[k].created_at_ms implies k <= j by {
        if j < k {
            assert(served_before(s[k], s[j]));
        }
    }
}

/// The position of the request served next: the front of a FIFO queue, or the one
/// chosen by priority.
pub open spec fn serves_next(s: Seq<TraceRequest>, priority: bool, k: int) -> bool {
    if priority {
        next_by_priority(s, k)
    } else {
        k == 0 && s.len() > 0
    }
}

/// At most one position is the one a priority queue serves next.
pub proof fn lemma_next_by_priority_unique(s: Seq<TraceRequest>, k1: int, k2: int)
    requires
        next_by_priority(s, k1),
        next_by_priority(s, k2),
    ensures
        k1 == k2,
{
    if k1 < k2 {
        assert(served_before(s[k2], s[k1]));
        assert(!served_before(s[k2], s[k1]));
    } else if k2 < k1 {
        assert(served_before(s[k1], s[k2]));
        assert(!served_before(s[k1], s[k2]));
    }
}

/// A non-empty queue has a request to serve next in priority order: the first of those
/// with the highest priority and, among them, the oldest creation time.
pub proof fn lemma_next_by_priority_exists(s: Seq<TraceRequest>)
    requires
        s.len() > 0,
    ensures
        exists|k: int| next_by_priority(s, k),
    decreases s.len(),
{
    if s.len() == 1 {
        assert(next_by_priority(s, 0));
    } else {
        let t = s.drop_last();
        lemma_next_by_priority_exists(t);
        let k = choose|k: int| next_by_priority(t, k);
        let x = s.last();
        if served_before(x, t[k]) {
            let n = s.len() - 1;
            assert forall|j: int| 0 <= j < s.len() implies !served_before(#[trigger] s[j], s[n]) by {
                if j < n {
                    assert(s[j] == t[j]);
                    assert(!served_before(t[j], t[k]));
                }
            }
            assert forall|j: int| 0 <= j < n implies served_before(s[n], #[trigger] s[j]) by {
                assert(s[j] == t[j]);
                assert(!served_before(t[j], t[k]));
            }
            assert(next_by_priority(s, n));
        } else {
            assert forall|j: int| 0 <= j < s.len() implies !served_before(#[trigger] s[j], s[k]) by {
                if j < s.len() - 1 {
                    assert(s[j] == t[j]);
                }
            }
            assert forall|j: int| 0 <= j < k implies served_before(s[k], #[trigger] s[j]) by {
                assert(s[j] == t[j]);
            }
            assert(next_by_priority(s, k));
        }
    }
}

/// The trace IDs of the requests in `s` are distinct.
pub open spec fn distinct_ids(s: Seq<TraceRequest>) -> bool {
    forall|i: int, j: int| 0 <= i < s.len() && 0 <= j < s.len() && i != j ==> s[i].trace_id != s[j].trace_id
}

/// The requests of a list with distinct IDs, by ID.
pub open spec fn by_id(s: Seq<TraceRequest>) -> Map<u128, TraceRequest> {
    Map::new(
        |k: u128| exists|i: int| 0 <= i < s.len() && s[i].trace_id.value == k,
        |k: u128| s[choose|i: int| 0 <= i < s.len() && s[i].trace_id.value == k],
    )
}

proof fn lemma_by_id_at(s: Seq<TraceRequest>, i: int)
    requires
        distinct_ids(s),
        0 <= i < s.len(),
    ensures
        by_id(s).dom().contains(s[i].trace_id.value),
        by_id(s)[s[i].trace_id.value] == s[i],
{
    let k = s[i].trace_id.value;
    assert(exists|j: int| 0 <= j < s.len() && s[j].trace_id.value == k);
    let j = choose|j: int| 0 <= j < s.len() && s[j].trace_id.value == k;
    assert(j == i);
}

/// Record `request` in flight, replacing a request with the same trace ID.
pub(crate) fn put_in_flight(list: &mut Vec<TraceRequest>, request: TraceRequest)
    requires
        distinct_ids(old(list)@),
    ensures
        distinct_ids(final(list)@),
        by_id(final(list)@) == by_id(old(list)@).insert(request.trace_id.value, request),
{
    let ghost before = list@;
    let ghost k = request.trace_id.value;
    let key = request.trace_id.value;
    let mut i: usize = 0;
    while i < list.len() && list[i].trace_id.value != key
        invariant
            list@ == before,
            key == k,
            i <= before.len(),
            forall|j: int| 0 <= j < i ==> before[j].trace_id.value != k,
        decreases before.len() - i,
    {
        i = i + 1;
    }
    if i < list.len() {
        assert(before[i as int].trace_id.value == k);
        list.set(i, request);
        let ghost after = list@;
        proof {
            assert(distinct_ids(after)) by {
                assert forall|a: int, b: int| 0 <= a < after.len() && 0 <= b < after.len() && a != b implies after[a].trace_id != after[b].trace_id by {
                    if a != i && b != i {
                        assert(before[a].trace_id != before[b].trace_id);
                    } else if a == i {
                        assert(before[i as int].trace_id != before[b].trace_id);
                    } else {
                        assert(before[a].trace_id != before[i as int].trace_id);
                    }
                }
            }
            assert forall|q: u128| #![trigger by_id(after).dom().contains(q)]
                by_id(after).dom().contains(q) == by_id(before).insert(k, request).dom().contains(q) by {
                if exists|j: int| 0 <= j < before.len() && before[j].trace_id.value == q {
                    let j = choose|j: int| 0 <= j < before.len() && before[j].trace_id.value == q;
                    assert(after[j].trace_id.value == q);
                }
                if exists|j: int| 0 <= j < after.len() && after[j].trace_id.value == q {
                    let j = choose|j: int| 0 <= j < after.len() && after[j].trace_id.value == q;
                    if j != i {
                        assert(before[j].trace_id.value == q);
                    }
                }
            }
            assert forall|q: u128| by_id(after).dom().contains(q) implies by_id(after)[q] == by_id(before).insert(k, request)[q] by {
                let j = choose|j: int| 0 <= j < after.len() && after[j].trace_id.value == q;
                lemma_by_id_at(after, j);
                if j != i {
                    lemma_by_id_at(before, j);
                }
            }
            assert(by_id(after) =~= by_id(before).insert(k, request));
        }
    } else {
        list.push(request);
        let ghost after = list@;
        proof {
            assert(distinct_ids(after)) by {
                assert forall|a: int, b: int| 0 <= a < after.len() && 0 <= b < after.len() && a != b implies after[a].trace_id != after[b].trace_id by {
                    if a < before.len() && b < before.len() {
                        assert(before[a].trace_id != before[b].trace_id);
                    }
                }
            }
            assert forall|q: u128| #![trigger by_id(after).dom().contains(q)]
                by_id(after).dom().contains(q) == by_id(before).insert(k, request).dom().contains(q) by {
                if exists|j: int| 0 <= j < before.len() && before[j].trace_id.value == q {
                    let j = choose|j: int| 0 <= j < before.len() && before[j].trace_id.value == q;
                    assert(after[j].trace_id.value == q);
                }
                if exists|j: int| 0 <= j < after.len() && after[j].trace_id.value == q {
                    let j = choose|j: int| 0 <= j < after.len() && after[j].trace_id.value == q;
                    if j < before.len() {
                        assert(before[j].trace_id.value == q);
                    }
                }
                if q == k {
                    assert(after[before.len() as int].trace_id.value == q);
                }
            }
            assert forall|q: u128| by_id(after).dom().contains(q) implies by_id(after)[q] == by_id(before).insert(k, request)[q] by {
                let j = choose|j: int| 0 <= j < after.len() && after[j].trace_id.value == q;
                lemma_by_id_at(after, j);
                if j < before.len() {
                    lemma_by_id_at(before, j);
                }
            }
            assert(by_id(after) =~= by_id(before).insert(k, request));
        }
    }
}

/// Take the request with trace ID `id` out of flight, if it is there.
pub(crate) fn take_in_flight(list: &mut Vec<TraceRequest>, id: u128) -> (r: Option<TraceRequest>)
    requires
        distinct_ids(old(list)@),
    ensures
        distinct_ids(final(list)@),
        by_id(final(list)@) == by_id(old(list)@).remove(id),
        r is Some <==> by_id(old(list)@).dom().contains(id),
        r matches Some(q) ==> q == by_id(old(list)@)[id],
{
    let ghost before = list@;
    let mut i: usize = 0;
    while i < list.len() && list[i].trace_id.value != id
        invariant
            list@ == before,
            i <= before.len(),
            forall|j: int| 0 <= j < i ==> before[j].trace_id.value != id,
        decreases before.len() - i,
    {
        i = i + 1;
    }
    if i == list.len() {
        proof {
            assert(!by_id(before).dom().contains(id));
            assert(by_id(before).remove(id) =~= by_id(before));
        }
        return None;
    }
    proof {
        lemma_by_id_at(before, i as int);
    }
    let taken = list.remove(i);
    let ghost after = list@;
    proof {
        assert(after =~= before.remove(i as int));
        assert(distinct_ids(after)) by {
            assert forall|a: int, b: int| 0 <= a < after.len() && 0 <= b < after.len() && a != b implies after[a].trace_id != after[b].trace_id by {
                let a2 = if a < i { a } else { a + 1 };
                let b2 = if b < i { b } else { b + 1 };
                assert(after[a] == before[a2]);
                assert(after[b] == before[b2]);
                assert(before[a2].trace_id != before[b2].trace_id);
            }
        }
        assert forall|q: u128| #![trigger by_id(after).dom().contains(q)]
            by_id(after).dom().contains(q) == by_id(before).remove(id).dom().contains(q) by {
            if exists|j: int| 0 <= j < before.len() && before[j].trace_id.value == q {
                let j = choose|j: int| 0 <= j < before.len() && before[j].trace_id.value == q;
                if q != id {
                    assert(j != i);
                    let j2 = if j < i { j } else { j - 1 };
                    assert(after[j2] == before[j]);
                }
            }
            if exists|j: int| 0 <= j < after.len() && after[j].trace_id.value == q {
                let j = choose|j: int| 0 <= j < after.len() && after[j].trace_id.value == q;
                let j2 = if j < i { j } else { j + 1 };
                assert(before[j2].trace_id.value == q);
                assert(j2 != i);
                assert(before[j2].trace_id != before[i as int].trace_id);
            }
        }
        assert forall|q: u128| by_id(after).dom().contains(q) implies by_id(after)[q] == by_id(before).remove(id)[q] by {
            let j = choose|j: int| 0 <= j < after.len() && after[j].trace_id.value == q;
            let j2 = if j < i { j } else { j + 1 };
            assert(after[j] == before[j2]);
            lemma_by_id_at(after, j);
            lemma_by_id_at(before, j2);
        }
        assert(by_id(after) =~= by_id(before).remove(id));
    }
    Some(taken)
}

/// The in-memory dispatch queue.
pub struct MemoryQueue {
    config: MemoryConfig,
    pending: Vec<TraceRequest>,
    in_flight: Vec<TraceRequest>,
    shutting_down: bool,
    total_enqueued: usize,
    total_dequeued: usize,
}

impl MemoryQueue {
    /// The queue's settings.
    pub closed spec fn spec_config(&self) -> MemoryConfig {
        self.config
    }

    /// The pending requests, in arrival order.
    pub closed spec fn spec_pending(&self) -> Seq<TraceRequest> {
        self.pending@
    }

    /// The requests in flight, by trace ID.
    pub closed spec fn spec_in_flight(&self) -> Map<u128, TraceRequest> {
        by_id(self.in_flight@)
    }

    /// Whether the queue is shutting down.
    pub closed spec fn spec_shutting_down(&self) -> bool {
        self.shutting_down
    }

    /// Requests accepted so far (wrapping).
    pub closed spec fn spec_total_enqueued(&self) -> usize {
        self.total_enqueued
    }

    /// Requests handed out so far (wrapping).
    pub closed spec fn spec_total_dequeued(&self) -> usize {
        self.total_dequeued
    }

    /// The queue's invariant: each trace at most once in flight.
    pub closed spec fn wf(&self) -> bool {
        distinct_ids(self.in_flight@)
    }

    /// An empty queue with the given settings.
    pub fn new(config: MemoryConfig) -> (r: Self)
        ensures
            r.wf(),
            r.spec_config() == config,
            r.spec_pending().len() == 0,
            r.spec_in_flight() == Map::<u128, TraceRequest>::empty(),
            !r.spec_shutting_down(),
            r.spec_total_enqueued() == 0,
            r.spec_total_dequeued() == 0,
    {
        let r = MemoryQueue {
            config,
            pending: Vec::new(),
            in_flight: Vec::new(),
            shutting_down: false,
            total_enqueued: 0,
            total_dequeued: 0,
        };
        assert(r.spec_in_flight() =~= Map::<u128, TraceRequest>::empty());
        r
    }

    /// An empty queue with default settings.
    pub fn with_defaults() -> (r: Self)
        ensures
            r.wf(),
            r.spec_config() == (MemoryConfig { max_queue_size: 10_000, priority_queue: false }),
            r.spec_pending().len() == 0,
            r.spec_in_flight() == Map::<u128, TraceRequest>::empty(),
            !r.spec_shutting_down(),
            r.spec_total_enqueued() == 0,
            r.spec_total_dequeued() == 0,
    {
        MemoryQueue::new(MemoryConfig::new())
    }

    /// The number of pending requests.
    pub fn len(&self) -> (r: usize)
        ensures
            r == self.spec_pending().len(),
    {
        self.pending.len()
    }

    /// Whether no request is pending.
    pub fn is_empty(&self) -> (r: bool)
        ensures
            r == (self.spec_pending().len() == 0),
    {
        self.pending.len() == 0
    }

    /// Requests accepted so far.
    pub fn total_enqueued(&self) -> (r: usize)
        ensures
            r == self.spec_total_enqueued(),
    {
        self.total_enqueued
    }

    /// Requests handed out so far.
    pub fn total_dequeued(&self) -> (r: usize)
        ensures
            r == self.spec_total_dequeued(),
    {
        self.total_dequeued
    }

    /// Append a request unless the queue is at its bound.
    fn push(&mut self, request: TraceRequest) -> (r: Result<(), DispatchError>)
        ensures
            final(self).spec_config() == old(self).spec_config(),
            final(self).spec_in_flight() == old(self).spec_in_flight(),
            final(self).wf() == old(self).wf(),
            final(self).spec_shutting_down() == old(self).spec_shutting_down(),
            final(self).spec_total_dequeued() == old(self).spec_total_dequeued(),
            old(self).spec_pending().len() >= old(self).spec_config().max_queue_size ==> {
                &&& r matches Err(DispatchError::QueueFull { current, max })
                    && current == old(self).spec_pending().len() && max == old(self).spec_config().max_queue_size
                &&& final(self).spec_pending() == old(self).spec_pending()
                &&& final(self).spec_total_enqueued() == old(self).spec_total_enqueued()
            },
            old(self).spec_pending().len() < old(self).spec_config().max_queue_size ==> {
                &&& r is Ok
                &&& final(self).spec_pending() == old(self).spec_pending().push(request)
                &&& final(self).spec_total_enqueued() == old(self).spec_total_enqueued().wrapping_add(1)
            },
    {
        let len = self.pending.len();
        if len >= self.config.max_queue_size {
            return Err(DispatchError::QueueFull { current: len, max: self.config.max_queue_size });
        }
        self.pending.push(request);
        self.total_enqueued = self.total_enqueued.wrapping_add(1);
        Ok(())
    }

    /// The position of the request served next, when any is pending.
    fn next_position(&self) -> (r: usize)
        requires
            self.pending@.len() > 0,
        ensures
            serves_next(self.pending@, self.config.priority_queue, r as int),
    {
        if !self.config.priority_queue {
            return 0;
        }
        let mut best: usize = 0;
        let mut i: usize = 1;
        while i < self.pending.len()
            invariant
                1 <= i <= self.pending@.len(),
                best < i,
                forall|j: int| 0 <= j < i ==> !served_before(#[trigger] self.pending@[j], self.pending@[best as int]),
                forall|j: int| 0 <= j < best ==> served_before(self.pending@[best as int], #[trigger] self.pending@[j]),
            decreases self.pending@.len() - i,
        {
            let a = &self.pending[i];
            let b = &self.pending[best];
            if a.priority > b.priority || (a.priority == b.priority && a.created_at_ms < b.created_at_ms) {
                best = i;
            }
            i = i + 1;
        }
        best
    }

    /// Take the request served next out of the pending list.
    fn pop(&mut self) -> (r: Option<TraceRequest>)
        ensures
            final(self).spec_config() == old(self).spec_config(),
            final(self).spec_in_flight() == old(self).spec_in_flight(),
            final(self).wf() == old(self).wf(),
            final(self).spec_shutting_down() == old(self).spec_shutting_down(),
            final(self).spec_total_enqueued() == old(self).spec_total_enqueued(),
            old(self).spec_pending().len() == 0 ==> r is None && final(self).spec_pending() == old(self).spec_pending()
                && final(self).spec_total_dequeued() == old(self).spec_total_dequeued(),
            old(self).spec_pending().len() > 0 ==> exists|k: int|
                serves_next(old(self).spec_pending(), old(self).spec_config().priority_queue, k)
                && r == Some(old(self).spec_pending()[k])
                && final(self).spec_pending() == old(self).spec_pending().remove(k),
            old(self).spec_pending().len() > 0 ==> final(self).spec_total_dequeued() == old(self).spec_total_dequeued().wrapping_add(1),
    {
        if self.pending.len() == 0 {
            return None;
        }
        let k = self.next_position();
        let request = self.pending.remove(k);
        self.total_dequeued = self.total_dequeued.wrapping_add(1);
        Some(request)
    }


    /// Accept a request: refused while shutting down, or with `QueueFull` when the queue
    /// is at its bound; otherwise appended, and its trace ID returned.
    pub fn enqueue(&mut self, request: TraceRequest) -> (r: Result<TraceId, DispatchError>)
        ensures
            final(self).spec_config() == old(self).spec_config(),
            final(self).spec_in_flight() == old(self).spec_in_flight(),
            final(self).wf() == old(self).wf(),
            final(self).spec_shutting_down() == old(self).spec_shutting_down(),
            final(self).spec_total_dequeued() == old(self).spec_total_dequeued(),
            old(self).spec_shutting_down() ==> {
                &&& r matches Err(DispatchError::ShuttingDown)
                &&& final(self).spec_pending() == old(self).spec_pending()
                &&& final(self).spec_total_enqueued() == old(self).spec_total_enqueued()
            },
            !old(self).spec_shutting_down() && old(self).spec_pending().len() >= old(self).spec_config().max_queue_size ==> {
                &&& r matches Err(DispatchError::QueueFull { current, max })
                    && current == old(self).spec_pending().len() && max == old(self).spec_config().max_queue_size
                &&& final(self).spec_pending() == old(self).spec_pending()
                &&& final(self).spec_total_enqueued() == old(self).spec_total_enqueued()
            },
            !old(self).spec_shutting_down() && old(self).spec_pending().len() < old(self).spec_config().max_queue_size ==> {
                &&& r == Ok::<TraceId, DispatchError>(request.trace_id)
                &&& final(self).spec_pending() == old(self).spec_pending().push(request)
                &&& final(self).spec_total_enqueued() == old(self).spec_total_enqueued().wrapping_add(1)
            },
    {
        if self.shutting_down {
            return Err(DispatchError::ShuttingDown);
        }
        let trace_id = request.trace_id;
        match self.push(request) {
            Ok(()) => Ok(trace_id),
            Err(e) => Err(e),
        }
    }

    /// Hand out the request served next, if any is pending and the queue is not shutting
    /// down: its attempt count goes up by one (wrapping), and a copy is kept in flight.
    pub fn dequeue(&mut self) -> (r: Option<TraceRequest>)
        requires
            old(self).wf(),
        ensures
            final(self).wf(),
            final(self).spec_config() == old(self).spec_config(),
            final(self).spec_shutting_down() == old(self).spec_shutting_down(),
            final(self).spec_total_enqueued() == old(self).spec_total_enqueued(),
            old(self).spec_shutting_down() || old(self).spec_pending().len() == 0 ==> {
                &&& r is None
                &&& final(self).spec_pending() == old(self).spec_pending()
                &&& final(self).spec_in_flight() == old(self).spec_in_flight()
                &&& final(self).spec_total_dequeued() == old(self).spec_total_dequeued()
            },
            !old(self).spec_shutting_down() && old(self).spec_pending().len() > 0 ==> {
                &&& final(self).spec_total_dequeued() == old(self).spec_total_dequeued().wrapping_add(1)
                &&& exists|k: int|
                    #![trigger serves_next(old(self).spec_pending(), old(self).spec_config().priority_queue, k)]
                    {
                    let q = old(self).spec_pending()[k];
                    &&& serves_next(old(self).spec_pending(), old(self).spec_config().priority_queue, k)
                    &&& final(self).spec_pending() == old(self).spec_pending().remove(k)
                    &&& r matches Some(h) && h.attempt == q.attempt.wrapping_add(1)
                        && same_request(h, (TraceRequest { attempt: h.attempt, ..q }))
                        && final(self).spec_in_flight().dom() == old(self).spec_in_flight().dom().insert(q.trace_id.value)
                        && same_request(final(self).spec_in_flight()[q.trace_id.value], h)
                        && forall|id: u128| id != q.trace_id.value ==> #[trigger] final(self).spec_in_flight()[id] == old(self).spec_in_flight()[id]
                }
            },
    {
        if self.shutting_down {
            return None;
        }
        match self.pop() {
            Some(mut request) => {
                request.attempt = request.attempt.wrapping_add(1);
                let copy = request.duplicate();
                put_in_flight(&mut self.in_flight, copy);
                Some(request)
            },
            None => None,
        }
    }

    /// Acknowledge a trace: it leaves the in-flight set.
    pub fn ack(&mut self, trace_id: TraceId)
        requires
            old(self).wf(),
        ensures
            final(self).wf(),
            final(self).spec_in_flight() == old(self).spec_in_flight().remove(trace_id.value),
            final(self).spec_config() == old(self).spec_config(),
            final(self).spec_pending() == old(self).spec_pending(),
            final(self).spec_shutting_down() == old(self).spec_shutting_down(),
            final(self).spec_total_enqueued() == old(self).spec_total_enqueued(),
            final(self).spec_total_dequeued() == old(self).spec_total_dequeued(),
    {
        let _ = take_in_flight(&mut self.in_flight, trace_id.value);
    }

    /// Negative acknowledgement: the trace leaves the in-flight set; when `retry` is
    /// asked and its attempts are not used up, it goes back to the queue (unless the queue
    /// is at its bound, when it is dropped).
    pub fn nack(&mut self, trace_id: TraceId, retry: bool)
        requires
            old(self).wf(),
        ensures
            final(self).wf(),
            final(self).spec_in_flight() == old(self).spec_in_flight().remove(trace_id.value),
            final(self).spec_config() == old(self).spec_config(),
            final(self).spec_shutting_down() == old(self).spec_shutting_down(),
            final(self).spec_total_dequeued() == old(self).spec_total_dequeued(),
            ({
                let back = old(self).spec_in_flight().dom().contains(trace_id.value)
                    && retry
                    && !exhausted(old(self).spec_in_flight()[trace_id.value])
                    && old(self).spec_pending().len() < old(self).spec_config().max_queue_size;
                &&& back ==> final(self).spec_pending() == old(self).spec_pending().push(old(self).spec_in_flight()[trace_id.value])
                    && final(self).spec_total_enqueued() == old(self).spec_total_enqueued().wrapping_add(1)
                &&& !back ==> final(self).spec_pending() == old(self).spec_pending()
                    && final(self).spec_total_enqueued() == old(self).spec_total_enqueued()
            }),
    {
        let taken = take_in_flight(&mut self.in_flight, trace_id.value);
        match taken {
            Some(request) => {
                if retry && !request.is_exhausted() {
                    let _ = self.push(request);
                }
            },
            None => {},
        }
    }

    /// The number of pending requests.
    pub fn queue_depth(&self) -> (r: usize)
        ensures
            r == self.spec_pending().len(),
    {
        self.pending.len()
    }

    /// The number of requests in flight.
    pub fn in_flight_count(&self) -> (r: usize)
        requires
            self.wf(),
        ensures
            r == self.spec_in_flight().dom().len(),
    {
        proof {
            let s = self.in_flight@;
            let keys = s.map_values(|e: TraceRequest| e.trace_id.value);
            assert(keys.no_duplicates()) by {
                assert forall|i: int, j: int| 0 <= i < keys.len() && 0 <= j < keys.len() && i != j implies keys[i] != keys[j] by {
                    assert(s[i].trace_id != s[j].trace_id);
                }
            }
            keys.unique_seq_to_set();
            assert(keys.to_set() =~= by_id(s).dom()) by {
                assert forall|q: u128| keys.to_set().contains(q) implies by_id(s).dom().contains(q) by {
                    let i = choose|i: int| 0 <= i < keys.len() && keys[i] == q;
                    assert(s[i].trace_id.value == q);
                }
                assert forall|q: u128| by_id(s).dom().contains(q) implies keys.to_set().contains(q) by {
                    let i = choose|i: int| 0 <= i < s.len() && s[i].trace_id.value == q;
                    assert(keys[i] == q);
                }
            }
        }
        self.in_flight.len()
    }

    /// Whether the queue takes work (it is not shutting down).
    pub fn health_check(&self) -> (r: bool)
        ensures
            r == !self.spec_shutting_down(),
    {
        !self.shutting_down
    }

    /// Stop taking and handing out work.
    pub fn shutdown(&mut self)
        ensures
            final(self).spec_shutting_down(),
            final(self).wf() == old(self).wf(),
            final(self).spec_config() == old(self).spec_config(),
            final(self).spec_pending() == old(self).spec_pending(),
            final(self).spec_in_flight() == old(self).spec_in_flight(),
            final(self).spec_total_enqueued() == old(self).spec_total_enqueued(),
            final(self).spec_total_dequeued() == old(self).spec_total_dequeued(),
    {
        self.shutting_down = true;
    }

    /// The trace IDs of the pending requests of a pipeline, in arrival order.
    pub fn get_pending_by_pipeline(&self, pipeline_id: &PipelineId) -> (r: Vec<TraceId>)
        ensures
            r@ == self.spec_pending().filter(|q: TraceRequest| q.pipeline_id.name@ == pipeline_id.name@
                && q.pipeline_id.version == pipeline_id.version).map_values(|q: TraceRequest| q.trace_id),
    {
        let ghost f = |q: TraceRequest| q.pipeline_id.name@ == pipeline_id.name@ && q.pipeline_id.version == pipeline_id.version;
        let mut out: Vec<TraceId> = Vec::new();
        let mut i: usize = 0;
        while i < self.pending.len()
            invariant
                i <= self.pending@.len(),
                f == (|q: TraceRequest| q.pipeline_id.name@ == pipeline_id.name@ && q.pipeline_id.version == pipeline_id.version),
                out@ == self.pending@.take(i as int).filter(f).map_values(|q: TraceRequest| q.trace_id),
            decreases self.pending@.len() - i,
        {
            proof {
                reveal(Seq::filter);
                assert(self.pending@.take(i + 1).drop_last() =~= self.pending@.take(i as int));
            }
            let q = &self.pending[i];
            if q.pipeline_id.same_as(pipeline_id) {
                out.push(q.trace_id);
                assert(out@ =~= self.pending@.take(i + 1).filter(f).map_values(|q: TraceRequest| q.trace_id));
            } else {
                assert(out@ =~= self.pending@.take(i + 1).filter(f).map_values(|q: TraceRequest| q.trace_id));
            }
            i = i + 1;
        }
        assert(self.pending@.take(i as int) =~= self.pending@);
        out
    }
}

} // verus!
