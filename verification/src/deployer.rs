//! Deploying GraphQL mutations.
pub mod mutation;
