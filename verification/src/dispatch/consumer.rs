//! The name under which a worker consumes from a shared queue.
use vstd::prelude::*;
use crate::text::owned;
use crate::types::{TraceId, uuid_text};

verus! {

/// The configured consumer name, or `worker-` followed by a fresh random UUID.
pub fn consumer_name(configured: &Option<String>) -> (r: String)
    ensures
        configured matches Some(n) ==> r@ == n@,
        configured is None ==> exists|v: u128| r@ == "worker-"@ + uuid_text(v),
{
    match configured {
        Some(n) => owned(n.as_str()),
        None => {
            let id = TraceId::new();
            let mut r = owned("worker-");
            r.append(id.to_text().as_str());
            r
        },
    }
}

} // verus!
