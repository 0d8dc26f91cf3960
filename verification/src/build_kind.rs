//! What a function's build produces.
use vstd::prelude::*;

verus! {

/// The kind of artifact a build produces.
#[derive(Clone, Copy, Debug, PartialEq, Eq, Structural)]
pub enum BuildKind {
    Code,
    Inline,
    Layer,
    Library,
    Extension,
    Image,
    Runtime,
}

} // verus!
