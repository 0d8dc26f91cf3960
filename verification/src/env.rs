//! The deployment environment, as the plain values that the library reads
//! of it.
use vstd::prelude::*;

verus! {

/// A named deployment environment: its profile name, the cloud account and
/// region it resolves to, whether deployments update the CI metadata, and
/// the profile that holds the shared layers.
#[derive(Debug, PartialEq, Eq)]
pub struct Env {
    pub name: String,
    pub account: String,
    pub region: String,
    pub update_metadata: bool,
    pub layers_profile: String,
}

impl Env {
    /// The account the environment deploys to.
    pub fn account(&self) -> (r: String)
        ensures
            r@ == self.account@,
    {
        self.account.clone()
    }

    /// The region the environment deploys to.
    pub fn region(&self) -> (r: String)
        ensures
            r@ == self.region@,
    {
        self.region.clone()
    }
}

} // verus!
