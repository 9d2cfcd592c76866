//! Structured logging: events, filters and the event buffer of a collector.
pub mod event;
pub mod filter;
pub mod collector;
