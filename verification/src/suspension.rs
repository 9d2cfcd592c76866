//! Suspension of a trace until an outside action is taken (human-in-the-loop workflows).
use vstd::prelude::*;
use crate::text::owned;
use crate::logging::event::{json_valid, spec_json_valid};

verus! {

/// Action to take when a suspension times out.
#[derive(Debug, Clone, Copy, PartialEq, Eq, Structural)]
pub enum TimeoutAction {
    /// Approve and continue on the `out` port.
    Approve,
    /// Reject and emit on the `rejected` port.
    Reject,
    /// Escalate and emit on the `escalated` port.
    Escalate,
}

/// The output port of a timeout action.
pub open spec fn port_of(a: TimeoutAction) -> Seq<char> {
    match a {
        TimeoutAction::Approve => "out"@,
        TimeoutAction::Reject => "rejected"@,
        TimeoutAction::Escalate => "escalated"@,
    }
}

impl TimeoutAction {
    /// The output port this action emits on.
    pub fn output_port(&self) -> (r: &'static str)
        ensures
            r@ == port_of(*self),
    {
        match self {
            TimeoutAction::Approve => "out",
            TimeoutAction::Reject => "rejected",
            TimeoutAction::Escalate => "escalated",
        }
    }
}

impl Default for TimeoutAction {
    /// Rejection.
    fn default() -> (r: Self)
        ensures
            r == TimeoutAction::Reject,
    {
        TimeoutAction::Reject
    }
}

/// A node's request to suspend its trace. The metadata for the approval UI is held as JSON
/// text.
#[derive(Debug, Clone)]
pub struct SuspensionRequest {
    /// Hook ID the trace is resumed by; unique within the pipeline.
    pub hook_id: String,
    /// Timeout in seconds (`None`: no timeout).
    pub timeout_secs: Option<u64>,
    /// Action to take on timeout.
    pub timeout_action: TimeoutAction,
    /// Metadata for the approval UI, as JSON text.
    pub metadata: String,
}

impl SuspensionRequest {
    /// A request under `hook_id`, with no timeout, rejection on timeout and `null` metadata.
    pub fn new(hook_id: &str) -> (r: Self)
        ensures
            r.hook_id@ == hook_id@,
            r.timeout_secs is None,
            r.timeout_action == TimeoutAction::Reject,
            r.metadata@ == "null"@,
    {
        SuspensionRequest {
            hook_id: owned(hook_id),
            timeout_secs: None,
            timeout_action: TimeoutAction::Reject,
            metadata: owned("null"),
        }
    }

    /// The same request with a timeout of `secs` seconds and `action` on timeout.
    pub fn with_timeout(self, secs: u64, action: TimeoutAction) -> (r: Self)
        ensures
            r == (SuspensionRequest { timeout_secs: Some(secs), timeout_action: action, ..self }),
    {
        SuspensionRequest { timeout_secs: Some(secs), timeout_action: action, ..self }
    }

    /// The same request with `metadata` (JSON text, one JSON value) as its metadata.
    pub fn with_metadata(self, metadata: &str) -> (r: Self)
        requires
            spec_json_valid(metadata@),
        ensures
            r.metadata@ == metadata@,
            r.hook_id == self.hook_id,
            r.timeout_secs == self.timeout_secs,
            r.timeout_action == self.timeout_action,
    {
        SuspensionRequest { metadata: owned(metadata), ..self }
    }

    /// The same request with `metadata` as its metadata when the text is one JSON value;
    /// `None` when it is not.
    pub fn try_with_metadata(self, metadata: &str) -> (r: Option<Self>)
        ensures
            r is Some <==> spec_json_valid(metadata@),
            r matches Some(q) ==> q.metadata@ == metadata@ && q.hook_id == self.hook_id
                && q.timeout_secs == self.timeout_secs && q.timeout_action == self.timeout_action,
    {
        if json_valid(metadata) {
            Some(self.with_metadata(metadata))
        } else {
            None
        }
    }
}

} // verus!
