//! Building functions, layers and images.
pub mod ruby;
