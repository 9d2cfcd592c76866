//! Errors of dispatch operations.
use vstd::prelude::*;
use crate::types::{TraceId, uuid_text};
use crate::text::{decimal_text, owned, u64_text};

verus! {

/// Errors that can occur during dispatch operations.
#[derive(Debug)]
pub enum DispatchError {
    /// Failed to connect to the dispatch backend.
    ConnectionFailed(String),
    /// The dispatch queue is full.
    QueueFull {
        /// Current queue size.
        current: usize,
        /// Maximum queue size.
        max: usize,
    },
    /// Trace not found in the queue.
    TraceNotFound(TraceId),
    /// Backend-specific error.
    BackendError(String),
    /// Serialization error.
    SerializationError(String),
    /// Timeout waiting for operation.
    Timeout(u64),
    /// The backend is shutting down.
    ShuttingDown,
    /// Configuration error.
    ConfigError(String),
}

/// The message of an error, as its `Display` writes it.
pub open spec fn dispatch_error_message(e: DispatchError) -> Seq<char> {
    match e {
        DispatchError::ConnectionFailed(s) => "Connection failed: "@ + s@,
        DispatchError::QueueFull { current, max } => "Queue full: "@ + decimal_text(current as nat) + "/"@
            + decimal_text(max as nat) + " pending traces"@,
        DispatchError::TraceNotFound(id) => "Trace "@ + uuid_text(id.value) + " not found in queue"@,
        DispatchError::BackendError(s) => "Backend error: "@ + s@,
        DispatchError::SerializationError(s) => "Serialization error: "@ + s@,
        DispatchError::Timeout(ms) => "Operation timed out after "@ + decimal_text(ms as nat) + "ms"@,
        DispatchError::ShuttingDown => "Backend is shutting down"@,
        DispatchError::ConfigError(s) => "Configuration error: "@ + s@,
    }
}

impl DispatchError {
    /// The error's message.
    pub fn message(&self) -> (r: String)
        ensures
            r@ == dispatch_error_message(*self),
    {
        match self {
            DispatchError::ConnectionFailed(s) => {
                let mut r = owned("Connection failed: ");
                r.append(s.as_str());
                r
            },
            DispatchError::QueueFull { current, max } => {
                let mut r = owned("Queue full: ");
                r.append(u64_text(*current as u64).as_str());
                r.append("/");
                r.append(u64_text(*max as u64).as_str());
                r.append(" pending traces");
                r
            },
            DispatchError::TraceNotFound(id) => {
                let mut r = owned("Trace ");
                r.append(id.to_text().as_str());
                r.append(" not found in queue");
                r
            },
            DispatchError::BackendError(s) => {
                let mut r = owned("Backend error: ");
                r.append(s.as_str());
                r
            },
            DispatchError::SerializationError(s) => {
                let mut r = owned("Serialization error: ");
                r.append(s.as_str());
                r
            },
            DispatchError::Timeout(ms) => {
                let mut r = owned("Operation timed out after ");
                r.append(u64_text(*ms).as_str());
                r.append("ms");
                r
            },
            DispatchError::ShuttingDown => owned("Backend is shutting down"),
            DispatchError::ConfigError(s) => {
                let mut r = owned("Configuration error: ");
                r.append(s.as_str());
                r
            },
        }
    }
}

} // verus!
