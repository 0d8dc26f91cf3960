//! Building Ruby functions: which builder a kind of build runs, and what the
//! build reports.
use vstd::prelude::*;
use crate::build_kind::BuildKind;
use crate::text::{basename, tail_after};

verus! {

/// How a function is built: its kind and the commands around it.
#[derive(Debug, PartialEq, Eq)]
pub struct Build {
    pub kind: BuildKind,
    pub pre: Vec<String>,
    pub post: Vec<String>,
    pub command: String,
}

/// The builder a build runs, with what it is given.
#[derive(Debug, PartialEq, Eq)]
pub enum BuildStep {
    /// Run `command` in `dir`.
    Code { dir: String, command: String },
    /// Vendor the dependencies of `dir` into its `target` directory.
    Inline { dir: String, target: String },
    /// Build layer `name` for `runtime`, running `pre` before and `post` after.
    Layer { dir: String, name: String, runtime: String, pre: Vec<String>, post: Vec<String> },
    /// Package `dir` as a library.
    Library { dir: String },
    /// Build extension `name` from `dir`.
    Extension { dir: String, name: String },
    /// Build image `name` from `dir`.
    Image { dir: String, name: String },
}

/// The builder that builds `name` in `dir` for `runtime`, chosen by the
/// kind of `spec`. Runtimes cannot be built this way.
pub fn build(dir: &str, runtime: &str, name: &str, spec: Build) -> (step: BuildStep)
    requires
        spec.kind != BuildKind::Runtime,
    ensures
        spec.kind == BuildKind::Code ==> step is Code && step->Code_dir@ == dir@
            && step->command@ == spec.command@,
        spec.kind == BuildKind::Inline ==> step is Inline && step->Inline_dir@ == dir@
            && step->target@ == "inline-deps"@,
        spec.kind == BuildKind::Layer ==> step is Layer && step->Layer_dir@ == dir@
            && step->Layer_name@ == name@ && step->runtime@ == runtime@ && step->pre == spec.pre
            && step->post == spec.post,
        spec.kind == BuildKind::Library ==> step is Library && step->Library_dir@ == dir@,
        spec.kind == BuildKind::Extension ==> step is Extension && step->Extension_dir@ == dir@
            && step->Extension_name@ == name@,
        spec.kind == BuildKind::Image ==> step is Image && step->Image_dir@ == dir@
            && step->Image_name@ == name@,
{
    let Build { kind, pre, post, command } = spec;
    match kind {
        BuildKind::Code => BuildStep::Code { dir: String::from_str(dir), command },
        BuildKind::Inline => BuildStep::Inline {
            dir: String::from_str(dir),
            target: String::from_str("inline-deps"),
        },
        BuildKind::Layer => BuildStep::Layer {
            dir: String::from_str(dir),
            name: String::from_str(name),
            runtime: String::from_str(runtime),
            pre,
            post,
        },
        BuildKind::Library => BuildStep::Library { dir: String::from_str(dir) },
        BuildKind::Extension => BuildStep::Extension {
            dir: String::from_str(dir),
            name: String::from_str(name),
        },
        _ => BuildStep::Image { dir: String::from_str(dir), name: String::from_str(name) },
    }
}

/// What a build reports: the artifact's name, where it was built, the
/// archive it produced, its kind and its runtime.
#[derive(Debug, PartialEq, Eq)]
pub struct BuildOutput {
    pub name: String,
    pub dir: String,
    pub zipfile: String,
    pub kind: BuildKind,
    pub runtime: String,
}

/// The report of building `name` in `dir` into `zipfile`: the artifact is
/// named after the function and the last component of its directory.
pub fn build_output(dir: &str, runtime: &str, name: &str, kind: BuildKind, zipfile: String) -> (out:
    BuildOutput)
    ensures
        out.name@ == name@ + "-"@ + tail_after(dir@, '/'),
        out.dir@ == dir@,
        out.zipfile@ == zipfile@,
        out.kind == kind,
        out.runtime@ == runtime@,
{
    let mut full = String::from_str(name);
    full.append("-");
    let base = basename(dir);
    full.append(base.as_str());
    BuildOutput {
        name: full,
        dir: String::from_str(dir),
        zipfile,
        kind,
        runtime: String::from_str(runtime),
    }
}

} // verus!
