//! Core types and verified logic of the XERV orchestration platform.

pub mod types;
mod clock;
pub mod text;
pub mod strmap;
pub mod keyed;
pub mod error;
pub mod arena;
pub mod schema;
pub mod dispatch;
pub mod auth;
pub mod logging;
pub mod flow;
pub mod suspension;
