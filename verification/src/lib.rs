//! Planning and bookkeeping for deploying serverless topologies: which
//! builds, publications and pipeline runs a command asks for, the names and
//! payloads they use, and the rows the inspector lists.
use vstd::prelude::*;

pub mod build_kind;
pub mod builder;
pub mod ci;
pub mod commands;
pub mod deployer;
pub mod env;
pub mod inspector;
pub mod invoker;
pub mod publisher;
pub mod resolver;
pub mod steps;
pub mod template;
pub mod text;
pub mod topology;

pub use commands::{
    BootstrapPlan, BuildOpts, BuildPlan, CompileOpts, CompilePlan, CreateHook, DeployNotice,
    DeployPlan, EmulatePlan, FreezePlan, InvokeOptions, InvokePlan, ListPlan, MetadataUpdate,
    PublishOpts, PublishPlan, ReleasePlan, RepoProfilePlan, ResolvePlan, RoutePlan, TagPlan,
    bootstrap, build, compile, deploy, download_layer, emulate, freeze, init, init_repo_profile,
    invocation_mode, invoke, list, publish, release, resolve, route, run_create_hook, scaffold,
    tag, unfreeze,
};
pub use steps::{create, delete, delete_component, update, update_component};
