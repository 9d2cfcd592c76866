//! Authentication: API keys, scopes, configuration and request authentication.
pub mod context;
pub mod config;
pub mod api_key;
pub mod middleware;
