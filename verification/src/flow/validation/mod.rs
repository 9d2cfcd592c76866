//! Flow validation: errors, limits and the validator.
pub mod error;
pub mod limits;
pub mod validator;
