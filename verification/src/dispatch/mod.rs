//! Dispatch of trace requests to workers: configuration, requests, errors, the in-memory
//! queue and the queue of the Raft backend.
pub mod config;
pub mod request;
pub mod error;
pub mod memory;
pub mod raft;
pub mod redis;
pub mod nats;
pub mod consumer;
