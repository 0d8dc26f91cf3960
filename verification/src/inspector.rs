//! The rows that the inspector lists: resolver definitions and releases.
pub mod definitions;
pub mod releases;
