//! Arena storage: header layout, allocation tracking and compaction.

pub mod encoding;
pub mod header;
pub mod allocation;
pub mod compaction;
pub mod writer;
