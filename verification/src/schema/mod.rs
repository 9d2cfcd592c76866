//! Schema versioning: versions, compatibility reports, defaults and migrations.
pub mod version;
pub mod type_info;
pub mod defaults;
pub mod compatibility;
pub mod migration;
pub mod registry;
pub mod persistence;
