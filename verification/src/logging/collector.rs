//! Collecting log events: the bounded event buffer with ID assignment and an optional
//! admission filter, and the collector that discards everything.
use vstd::prelude::*;
use super::event::{EventView, LogEvent, LogLevel, level_rank};
use super::filter::{FilterView, LogFilter, passes};
use crate::types::{NodeId, TraceId};
use crate::text::str_eq;

verus! {

/// Default number of events a buffer keeps.
pub const DEFAULT_BUFFER_CAPACITY: usize = 10_000;

/// A collector of log events.
pub trait LogCollector {
    /// Collect a log event.
    fn collect(&self, event: LogEvent);

    /// The number of collected events.
    fn len(&self) -> usize;

    /// Whether no event is collected.
    fn is_empty(&self) -> bool {
        self.len() == 0
    }
}

/// A collector that discards every event.
pub struct NullCollector;

impl LogCollector for NullCollector {
    /// Discard the event.
    fn collect(&self, event: LogEvent) {
    }

    /// Always 0.
    fn len(&self) -> (r: usize)
        ensures
            r == 0,
    {
        0
    }
}

/// The views of a list of events.
pub open spec fn views(s: Seq<LogEvent>) -> Seq<EventView> {
    s.map_values(|e: LogEvent| e@)
}

/// A bounded buffer of log events, oldest first; when full, storing drops the oldest.
pub struct EventBuffer {
    events: Vec<LogEvent>,
    capacity: usize,
    next_id: u64,
    filter: Option<LogFilter>,
}

/// Storing `e` in `s` with room for `cap` events: the oldest goes first when full.
pub open spec fn stored(s: Seq<EventView>, cap: int, e: EventView) -> Seq<EventView> {
    (if s.len() >= cap && s.len() > 0 { s.drop_first() } else { s }).push(e)
}

/// Storing never takes a buffer past its capacity, and what was held stays held in order,
/// less the oldest when the buffer was full.
pub proof fn lemma_stored_within_capacity(s: Seq<EventView>, cap: int, e: EventView)
    requires
        cap > 0,
        s.len() <= cap,
    ensures
        stored(s, cap, e).len() <= cap,
        stored(s, cap, e).last() == e,
        s.len() < cap ==> stored(s, cap, e).drop_last() == s,
        s.len() == cap ==> stored(s, cap, e).drop_last() == s.drop_first(),
{
    assert(stored(s, cap, e).drop_last() =~= (if s.len() >= cap && s.len() > 0 { s.drop_first() } else { s }));
}

impl EventBuffer {
    /// The events held, oldest first.
    pub closed spec fn spec_events(&self) -> Seq<EventView> {
        views(self.events@)
    }

    /// The buffer's capacity.
    pub closed spec fn spec_capacity(&self) -> usize {
        self.capacity
    }

    /// The ID the next admitted event gets.
    pub closed spec fn spec_next_id(&self) -> u64 {
        self.next_id
    }

    /// The admission filter, if any.
    pub closed spec fn spec_filter(&self) -> Option<FilterView> {
        match self.filter {
            Some(f) => Some(f@),
            None => None,
        }
    }

    /// An empty buffer for `capacity` events; IDs start at 1; no admission filter.
    pub fn new(capacity: usize) -> (r: Self)
        ensures
            r.spec_events() == Seq::<EventView>::empty(),
            r.spec_capacity() == capacity,
            r.spec_next_id() == 1,
            r.spec_filter() is None,
    {
        let r = EventBuffer { events: Vec::new(), capacity, next_id: 1, filter: None };
        assert(r.spec_events() =~= Seq::<EventView>::empty());
        r
    }

    /// An empty buffer with the default capacity.
    pub fn with_default_capacity() -> (r: Self)
        ensures
            r.spec_events() == Seq::<EventView>::empty(),
            r.spec_capacity() == DEFAULT_BUFFER_CAPACITY,
            r.spec_next_id() == 1,
            r.spec_filter() is None,
    {
        EventBuffer::new(DEFAULT_BUFFER_CAPACITY)
    }

    /// Admit only events that pass `filter`.
    pub fn with_filter(self, filter: LogFilter) -> (r: Self)
        ensures
            r.spec_events() == self.spec_events(),
            r.spec_capacity() == self.spec_capacity(),
            r.spec_next_id() == self.spec_next_id(),
            r.spec_filter() == Some(filter@),
    {
        EventBuffer { filter: Some(filter), ..self }
    }

    /// Admit an event: refused when it fails the admission filter; otherwise it gets the
    /// next ID (IDs count up, wrapping) and is handed back, ready to store.
    pub fn accept(&mut self, event: LogEvent) -> (r: Option<LogEvent>)
        ensures
            final(self).spec_events() == old(self).spec_events(),
            final(self).spec_capacity() == old(self).spec_capacity(),
            final(self).spec_filter() == old(self).spec_filter(),
            (old(self).spec_filter() matches Some(f) && !passes(f, event@)) ==> {
                &&& r is None
                &&& final(self).spec_next_id() == old(self).spec_next_id()
            },
            !(old(self).spec_filter() matches Some(f) && !passes(f, event@)) ==> {
                &&& r matches Some(e) && e@ == (EventView { id: old(self).spec_next_id(), ..event@ })
                &&& final(self).spec_next_id() == old(self).spec_next_id().wrapping_add(1)
            },
    {
        match &self.filter {
            Some(f) => {
                if !f.matches(&event) {
                    return None;
                }
            },
            None => {},
        }
        let mut e = event;
        e.id = self.next_id;
        self.next_id = self.next_id.wrapping_add(1);
        Some(e)
    }

    /// Store an event, dropping the oldest when the buffer is full.
    pub fn store(&mut self, event: LogEvent)
        ensures
            final(self).spec_events() == stored(old(self).spec_events(), old(self).spec_capacity() as int, event@),
            final(self).spec_capacity() == old(self).spec_capacity(),
            final(self).spec_next_id() == old(self).spec_next_id(),
            final(self).spec_filter() == old(self).spec_filter(),
    {
        let ghost before = self.events@;
        if self.events.len() >= self.capacity && self.events.len() > 0 {
            self.events.remove(0);
            assert(views(self.events@) =~= views(before).drop_first());
        }
        let ghost mid = self.events@;
        self.events.push(event);
        assert(views(self.events@) =~= views(mid).push(event@));
    }

    /// Admit and store an event; returns whether it was stored.
    pub fn collect(&mut self, event: LogEvent) -> (r: bool)
        ensures
            final(self).spec_capacity() == old(self).spec_capacity(),
            final(self).spec_filter() == old(self).spec_filter(),
            r == !(old(self).spec_filter() matches Some(f) && !passes(f, event@)),
            !r ==> final(self).spec_events() == old(self).spec_events() && final(self).spec_next_id() == old(self).spec_next_id(),
            r ==> final(self).spec_events() == stored(
                old(self).spec_events(),
                old(self).spec_capacity() as int,
                EventView { id: old(self).spec_next_id(), ..event@ },
            ) && final(self).spec_next_id() == old(self).spec_next_id().wrapping_add(1),
    {
        match self.accept(event) {
            Some(e) => {
                self.store(e);
                true
            },
            None => false,
        }
    }

    /// The number of events held.
    pub fn len(&self) -> (r: usize)
        ensures
            r == self.spec_events().len(),
    {
        self.events.len()
    }

    /// Whether no event is held.
    pub fn is_empty(&self) -> (r: bool)
        ensures
            r == (self.spec_events().len() == 0),
    {
        self.events.len() == 0
    }

    /// The capacity.
    pub fn capacity(&self) -> (r: usize)
        ensures
            r == self.spec_capacity(),
    {
        self.capacity
    }

    /// Drop every event (IDs keep counting).
    pub fn clear(&mut self)
        ensures
            final(self).spec_events() == Seq::<EventView>::empty(),
            final(self).spec_capacity() == old(self).spec_capacity(),
            final(self).spec_next_id() == old(self).spec_next_id(),
            final(self).spec_filter() == old(self).spec_filter(),
    {
        self.events.clear();
        assert(views(self.events@) =~= Seq::<EventView>::empty());
    }

    /// Copies of the events that pass `filter`, oldest first.
    pub fn query(&self, filter: &LogFilter) -> (r: Vec<LogEvent>)
        ensures
            views(r@) == self.spec_events().filter(|e: EventView| passes(filter@, e)),
    {
        let ghost p = |e: EventView| passes(filter@, e);
        let mut out: Vec<LogEvent> = Vec::new();
        let mut i: usize = 0;
        while i < self.events.len()
            invariant
                i <= self.events@.len(),
                p == (|e: EventView| passes(filter@, e)),
                views(out@) == views(self.events@).take(i as int).filter(p),
            decreases self.events@.len() - i,
        {
            proof {
                reveal(Seq::filter);
                assert(views(self.events@).take(i + 1).drop_last() =~= views(self.events@).take(i as int));
                assert(views(self.events@).take(i + 1).last() == self.events@[i as int]@);
            }
            if filter.matches(&self.events[i]) {
                let ghost before = out@;
                out.push(self.events[i].duplicate());
                assert(views(out@) =~= views(before).push(self.events@[i as int]@));
            }
            i = i + 1;
        }
        assert(views(self.events@).take(i as int) =~= views(self.events@));
        out
    }

    /// Copies of the most recent `limit` events, newest first.
    pub fn recent(&self, limit: usize) -> (r: Vec<LogEvent>)
        ensures
            views(r@) == self.spec_events().reverse().take(
                if limit < self.spec_events().len() { limit as int } else { self.spec_events().len() as int },
            ),
    {
        let n = self.events.len();
        let count = if limit < n { limit } else { n };
        let mut out: Vec<LogEvent> = Vec::new();
        let mut k: usize = 0;
        while k < count
            invariant
                n == self.events@.len(),
                count <= n,
                k <= count,
                views(out@) == views(self.events@).reverse().take(k as int),
            decreases count - k,
        {
            let e = self.events[n - 1 - k].duplicate();
            let ghost before = out@;
            out.push(e);
            proof {
                assert(views(self.events@).reverse()[k as int] == self.events@[n - 1 - k]@);
                assert(views(out@) =~= views(before).push(self.events@[n - 1 - k]@));
                assert(views(self.events@).reverse().take(k + 1) =~= views(self.events@).reverse().take(k as int).push(views(self.events@).reverse()[k as int]));
            }
            k = k + 1;
        }
        out
    }

    /// Copies of the events of a trace, oldest first.
    pub fn by_trace(&self, trace_id: TraceId) -> (r: Vec<LogEvent>)
        ensures
            views(r@) == self.spec_events().filter(|e: EventView| e.trace_id == Some(trace_id)),
    {
        let f = LogFilter::new().trace_id(trace_id);
        let r = self.query(&f);
        proof {
            assert((|e: EventView| passes(f@, e)) =~= (|e: EventView| e.trace_id == Some(trace_id)));
        }
        r
    }

    /// Copies of the events of a node within a trace, oldest first.
    pub fn by_trace_node(&self, trace_id: TraceId, node_id: NodeId) -> (r: Vec<LogEvent>)
        ensures
            views(r@) == self.spec_events().filter(|e: EventView| e.trace_id == Some(trace_id) && e.node_id == Some(node_id)),
    {
        let f = LogFilter::new().trace_id(trace_id).node_id(node_id);
        let r = self.query(&f);
        proof {
            assert((|e: EventView| passes(f@, e)) =~= (|e: EventView| e.trace_id == Some(trace_id) && e.node_id == Some(node_id)));
        }
        r
    }

    /// Copies of the events of a pipeline, oldest first.
    pub fn by_pipeline(&self, pipeline_id: &str) -> (r: Vec<LogEvent>)
        ensures
            views(r@) == self.spec_events().filter(|e: EventView| e.pipeline_id == Some(pipeline_id@)),
    {
        let f = LogFilter::new().pipeline_id(pipeline_id);
        let r = self.query(&f);
        proof {
            assert((|e: EventView| passes(f@, e)) =~= (|e: EventView| e.pipeline_id == Some(pipeline_id@)));
        }
        r
    }

    /// Copies of the events at `min_level` or above, oldest first.
    pub fn by_level(&self, min_level: LogLevel) -> (r: Vec<LogEvent>)
        ensures
            views(r@) == self.spec_events().filter(|e: EventView| level_rank(e.level) >= level_rank(min_level)),
    {
        let f = LogFilter::new().min_level(min_level);
        let r = self.query(&f);
        proof {
            assert((|e: EventView| passes(f@, e)) =~= (|e: EventView| level_rank(e.level) >= level_rank(min_level)));
        }
        r
    }

    /// Copies of every event held, oldest first.
    pub fn all(&self) -> (r: Vec<LogEvent>)
        ensures
            views(r@) == self.spec_events(),
    {
        let mut out: Vec<LogEvent> = Vec::new();
        let mut i: usize = 0;
        while i < self.events.len()
            invariant
                i <= self.events@.len(),
                views(out@) == views(self.events@).take(i as int),
            decreases self.events@.len() - i,
        {
            let ghost before = out@;
            out.push(self.events[i].duplicate());
            assert(views(out@) =~= views(before).push(self.events@[i as int]@));
            assert(views(self.events@).take(i + 1) =~= views(self.events@).take(i as int).push(self.events@[i as int]@));
            i = i + 1;
        }
        assert(views(self.events@).take(i as int) =~= views(self.events@));
        out
    }

    /// Copies of the events with an ID above `after_id`, oldest first.
    pub fn since(&self, after_id: u64) -> (r: Vec<LogEvent>)
        ensures
            views(r@) == self.spec_events().filter(|e: EventView| e.id > after_id),
    {
        let ghost p = |e: EventView| e.id > after_id;
        let mut out: Vec<LogEvent> = Vec::new();
        let mut i: usize = 0;
        while i < self.events.len()
            invariant
                i <= self.events@.len(),
                p == (|e: EventView| e.id > after_id),
                views(out@) == views(self.events@).take(i as int).filter(p),
            decreases self.events@.len() - i,
        {
            proof {
                reveal(Seq::filter);
                assert(views(self.events@).take(i + 1).drop_last() =~= views(self.events@).take(i as int));
                assert(views(self.events@).take(i + 1).last() == self.events@[i as int]@);
            }
            if self.events[i].id > after_id {
                let ghost before = out@;
                out.push(self.events[i].duplicate());
                assert(views(out@) =~= views(before).push(self.events@[i as int]@));
            }
            i = i + 1;
        }
        assert(views(self.events@).take(i as int) =~= views(self.events@));
        out
    }

    /// Copies of the events within a time range (inclusive), oldest first.
    pub fn time_range(&self, start_ns: u64, end_ns: u64) -> (r: Vec<LogEvent>)
        ensures
            views(r@) == self.spec_events().filter(|e: EventView| e.timestamp_ns >= start_ns && e.timestamp_ns <= end_ns),
    {
        let f = LogFilter::new().time_range(start_ns, end_ns);
        let r = self.query(&f);
        proof {
            assert((|e: EventView| passes(f@, e)) =~= (|e: EventView| e.timestamp_ns >= start_ns && e.timestamp_ns <= end_ns));
        }
        r
    }
}

impl Default for EventBuffer {
    /// An empty buffer with the default capacity.
    fn default() -> (r: Self)
        ensures
            r.spec_events() == Seq::<EventView>::empty(),
            r.spec_capacity() == DEFAULT_BUFFER_CAPACITY,
            r.spec_next_id() == 1,
            r.spec_filter() is None,
    {
        EventBuffer::with_default_capacity()
    }
}

} // verus!
