//! Continuous integration pipelines.
pub mod circleci;
