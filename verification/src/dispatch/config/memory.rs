//! In-memory dispatch configuration.
use vstd::prelude::*;

verus! {

/// Configuration for in-memory dispatch: a queue bound and the queue discipline.
#[derive(Debug, Clone, Copy, PartialEq, Eq, Structural)]
pub struct MemoryConfig {
    /// Maximum queue size before backpressure is applied.
    pub max_queue_size: usize,
    /// Enable priority queue (higher priority traces processed first).
    pub priority_queue: bool,
}

/// The default queue bound.
pub const DEFAULT_MAX_QUEUE_SIZE: usize = 10_000;

impl Default for MemoryConfig {
    /// A FIFO queue of at most 10 000 traces.
    fn default() -> (r: Self)
        ensures
            r.max_queue_size == DEFAULT_MAX_QUEUE_SIZE,
            !r.priority_queue,
    {
        MemoryConfig { max_queue_size: DEFAULT_MAX_QUEUE_SIZE, priority_queue: false }
    }
}

impl MemoryConfig {
    /// A memory config with default values.
    pub fn new() -> (r: Self)
        ensures
            r.max_queue_size == DEFAULT_MAX_QUEUE_SIZE,
            !r.priority_queue,
    {
        MemoryConfig { max_queue_size: DEFAULT_MAX_QUEUE_SIZE, priority_queue: false }
    }

    /// Set the maximum queue size.
    pub fn max_queue_size(self, size: usize) -> (r: Self)
        ensures
            r.max_queue_size == size,
            r.priority_queue == self.priority_queue,
    {
        MemoryConfig { max_queue_size: size, ..self }
    }

    /// Enable the priority queue.
    pub fn with_priority_queue(self) -> (r: Self)
        ensures
            r.max_queue_size == self.max_queue_size,
            r.priority_queue,
    {
        MemoryConfig { priority_queue: true, ..self }
    }
}

} // verus!
