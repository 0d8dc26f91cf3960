//! Resolving templates against a deployment.
pub mod context;
