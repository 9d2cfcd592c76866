//! Flow definitions: edges, nodes, triggers and their validation.
pub mod edge;
pub mod yaml;
pub mod trigger;
pub mod node;
pub mod definition;
pub mod validation;
