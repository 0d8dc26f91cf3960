//! The parts of a compiled topology that the library reads: its identity,
//! its functions, its GraphQL mutations and the nodes composed under it.
//! Keyed collections are held as (key, value) pairs whose keys are distinct.
use vstd::prelude::*;

verus! {

/// Whether no two pairs of `s` share a key.
pub open spec fn distinct_keys<T>(s: Seq<(String, T)>) -> bool {
    forall|a: int, b: int| 0 <= a < b < s.len() ==> #[trigger] s[a].0@ != #[trigger] s[b].0@
}

/// A function of a topology: its name and the directory it is built from.
#[derive(Debug, PartialEq, Eq)]
pub struct Function {
    pub name: String,
    pub dir: String,
}

/// A GraphQL field resolver: what it is called, what kind of target serves
/// it (as text), that target, and its input and output types.
#[derive(Debug, PartialEq, Eq)]
pub struct Resolver {
    pub name: String,
    pub kind: String,
    pub target_arn: String,
    pub input: String,
    pub output: String,
}

/// A GraphQL API with its authorizer, the role its data sources assume, its
/// types (name and definition) and its resolvers keyed by field name.
#[derive(Debug, PartialEq, Eq)]
pub struct Mutation {
    pub api_name: String,
    pub authorizer: String,
    pub role_arn: String,
    pub types: Vec<(String, String)>,
    pub resolvers: Vec<(String, Resolver)>,
}

impl Mutation {
    /// No type and no field is named twice.
    pub open spec fn well_formed(self) -> bool {
        &&& distinct_keys(self.types@)
        &&& distinct_keys(self.resolvers@)
    }
}

/// A topology: its namespace, sandbox and version, its functions and its
/// mutations keyed by name, and the topologies composed under it.
#[derive(Debug, PartialEq, Eq)]
pub struct Topology {
    pub namespace: String,
    pub sandbox: String,
    pub version: String,
    pub functions: Vec<(String, Function)>,
    pub mutations: Vec<(String, Mutation)>,
    pub nodes: Vec<Topology>,
}

impl Topology {
    /// No function and no mutation is named twice, and each mutation is
    /// well formed.
    pub open spec fn well_formed(self) -> bool {
        &&& distinct_keys(self.functions@)
        &&& distinct_keys(self.mutations@)
        &&& forall|i: int| 0 <= i < self.mutations@.len() ==> (#[trigger] self.mutations@[i]).1.well_formed()
    }
}

} // verus!
