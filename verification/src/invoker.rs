//! Running state machines.
pub mod sfn;
