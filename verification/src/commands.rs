//! What each command of the tool decides before it reaches out to the cloud,
//! the file system or the network: which work it asks for and with which
//! names, defaults and messages.
use vstd::prelude::*;
use crate::text::{maybe_string, basename, tail_after, str_eq};
use crate::env::Env;
use crate::build_kind::BuildKind;
use crate::topology::{Function, Topology};

verus! {

/// Options of the `build` command.
#[derive(Debug, PartialEq, Eq)]
pub struct BuildOpts {
    pub merge: bool,
    pub recursive: bool,
    pub clean: bool,
    pub split: bool,
    pub dirty: bool,
}

/// The builds the `build` command asks for.
#[derive(Debug, PartialEq, Eq)]
pub enum BuildPlan {
    /// Build every function under the current directory, of kind `kind`.
    Recursive { dirty: bool, kind: Option<BuildKind> },
    /// Remove the build artifacts of `dir`.
    Clean { dir: String },
    /// Build the function in `dir`, named `name`, of kind `kind`.
    Single { dir: String, name: Option<String>, kind: Option<BuildKind> },
}

/// What `build` does: a recursive build if asked for, else a clean if asked
/// for, else a build of `dir`. The kind, where one is named, has already
/// been read as a `BuildKind`.
pub fn build(kind: Option<BuildKind>, name: Option<String>, dir: &str, opts: BuildOpts) -> (p:
    BuildPlan)
    ensures
        opts.recursive ==> p is Recursive && p->dirty == opts.dirty && p->Recursive_kind == kind,
        !opts.recursive && opts.clean ==> p is Clean && p->Clean_dir@ == dir@,
        !opts.recursive && !opts.clean ==> p is Single && p->Single_dir@ == dir@ && p->name
            == name && p->Single_kind == kind,
{
    let BuildOpts { clean, dirty, recursive, .. } = opts;
    if recursive {
        BuildPlan::Recursive { dirty, kind }
    } else if clean {
        BuildPlan::Clean { dir: String::from_str(dir) }
    } else {
        BuildPlan::Single { dir: String::from_str(dir), name, kind }
    }
}

/// Options of the `publish` command.
#[derive(Debug, PartialEq, Eq)]
pub struct PublishOpts {
    pub promote: bool,
    pub demote: bool,
    pub version: Option<String>,
}

/// The publication the `publish` command asks for.
#[derive(Debug, PartialEq, Eq)]
pub enum PublishPlan {
    /// Promote layer `name` (at `version`, or its latest) to stable, for the
    /// runtime of the functions in `dir`.
    Promote { name: String, dir: String, version: Option<String> },
    /// Republish `layer` (every layer where none is given) as a
    /// development version for runtime `lang`.
    Demote { layer: Option<String>, lang: String },
    /// Publish every build listed in the build manifest.
    Manifest,
}

/// What `publish` does for the functions in `dir`, run in directory `cwd`:
/// a promotion of the named layer (by default the one named after `cwd`)
/// for the runtime of `dir`, a demotion, or the publication of the last
/// builds.
pub fn publish(name: Option<String>, dir: &str, cwd: &str, opts: PublishOpts) -> (p: PublishPlan)
    ensures
        opts.promote ==> p is Promote && p->name@ == match name {
            Some(n) => n@,
            None => tail_after(cwd@, '/'),
        } && p->dir@ == dir@ && p->version == opts.version,
        !opts.promote && opts.demote ==> p is Demote && p->layer == name && p->lang@
            == "python3.10"@,
        !opts.promote && !opts.demote ==> p is Manifest,
{
    let PublishOpts { promote, demote, version } = opts;
    if promote {
        let base = basename(cwd);
        PublishPlan::Promote {
            name: maybe_string(name, base.as_str()),
            dir: String::from_str(dir),
            version,
        }
    } else if demote {
        PublishPlan::Demote { layer: name, lang: String::from_str("python3.10") }
    } else {
        PublishPlan::Manifest
    }
}

/// Options of the `compile` command.
#[derive(Debug, PartialEq, Eq)]
pub struct CompileOpts {
    pub versions: bool,
    pub recursive: bool,
    pub component: Option<String>,
    pub format: Option<String>,
}

/// What the `compile` command shows.
#[derive(Debug, PartialEq, Eq)]
pub enum CompilePlan {
    /// Component `component` of the topology, in `format`.
    Component { component: String, format: String, recursive: bool },
    /// The whole topology, as JSON.
    Topology { recursive: bool },
}

/// What `compile` shows: the named component, in the given format or JSON,
/// or else the whole topology.
pub fn compile(opts: CompileOpts) -> (p: CompilePlan)
    ensures
        opts.component is Some ==> p is Component && p->component@ == opts.component->0@
            && p->format@ == match opts.format {
            Some(f) => f@,
            None => "json"@,
        } && p->Component_recursive == opts.recursive,
        opts.component is None ==> p is Topology && p->Topology_recursive == opts.recursive,
{
    let CompileOpts { recursive, component, format, .. } = opts;
    let format = maybe_string(format, "json");
    match component {
        Some(c) => CompilePlan::Component { component: c, format, recursive },
        None => CompilePlan::Topology { recursive },
    }
}

/// What the `resolve` command resolves.
#[derive(Debug, PartialEq, Eq)]
pub enum ResolvePlan {
    /// Component `component` of the topology.
    Component { component: String },
    /// The whole topology, reusing cached values where `cache` holds.
    All { cache: bool },
}

/// What `resolve` resolves: the named component, or the whole topology with
/// the cache unless it is turned off.
pub fn resolve(component: Option<String>, no_cache: bool) -> (p: ResolvePlan)
    ensures
        component is Some ==> p is Component && p->component@ == component->0@,
        component is None ==> p is All && p->cache == !no_cache,
{
    match component {
        Some(c) => ResolvePlan::Component { component: c },
        None => ResolvePlan::All { cache: !no_cache },
    }
}

/// The announcement of a deployment: its tag and the message sent.
#[derive(Debug, PartialEq, Eq)]
pub struct DeployNotice {
    pub tag: String,
    pub message: String,
}

/// The CI metadata update recorded after a deployment: made in the
/// environment of the layers profile `profile`, for the deployed sandbox,
/// namespace and version, environment `env_name` and directory `dir`.
#[derive(Debug, PartialEq, Eq)]
pub struct MetadataUpdate {
    pub profile: String,
    pub sandbox: String,
    pub namespace: String,
    pub version: String,
    pub env_name: String,
    pub dir: String,
}

/// What follows a deployment: the announcement, then, where the
/// environment asks for it, the CI metadata update.
#[derive(Debug, PartialEq, Eq)]
pub struct CreateHook {
    pub notice: DeployNotice,
    pub metadata: Option<MetadataUpdate>,
}

/// The announcement of deploying `root` to `env`.
pub open spec fn deploy_message(root: Topology, env: Env) -> Seq<char> {
    "Deployed `"@ + root.namespace@ + "-"@ + root.version@ + "` to *"@ + env.name@ + "*::"@
        + root.namespace@ + "_"@ + root.sandbox@
}

/// Whether `h` is what follows deploying `root` to `env` from directory `dir`.
pub open spec fn follows_deploy(h: CreateHook, root: Topology, env: Env, dir: Seq<char>) -> bool {
    &&& h.notice.tag@ == root.namespace@ + "-"@ + root.version@
    &&& h.notice.message@ == deploy_message(root, env)
    &&& (h.metadata is Some <==> env.update_metadata)
    &&& h.metadata matches Some(m) ==> {
        &&& m.profile@ == env.layers_profile@
        &&& m.sandbox@ == root.sandbox@
        &&& m.namespace@ == root.namespace@
        &&& m.version@ == root.version@
        &&& m.env_name@ == env.name@
        &&& m.dir@ == dir
    }
}

/// What follows deploying topology `root` to environment `env` from
/// directory `dir`: an announcement tagged `namespace-version`, then the CI
/// metadata update where the environment asks for one.
pub fn run_create_hook(root: &Topology, env: &Env, dir: &str) -> (h: CreateHook)
    ensures
        follows_deploy(h, *root, *env, dir@),
{
    let mut tag = root.namespace.clone();
    tag.append("-");
    tag.append(root.version.as_str());
    let mut message = String::from_str("Deployed `");
    message.append(tag.as_str());
    message.append("` to *");
    message.append(env.name.as_str());
    message.append("*::");
    message.append(root.namespace.as_str());
    message.append("_");
    message.append(root.sandbox.as_str());
    let metadata = if env.update_metadata {
        Some(
            MetadataUpdate {
                profile: env.layers_profile.clone(),
                sandbox: root.sandbox.clone(),
                namespace: root.namespace.clone(),
                version: root.version.clone(),
                env_name: env.name.clone(),
                dir: String::from_str(dir),
            },
        )
    } else {
        None
    };
    assert(message@ =~= deploy_message(*root, *env));
    CreateHook { notice: DeployNotice { tag, message }, metadata }
}

/// The functions `scaffold` scaffolds in a directory of kind `kind`: every
/// function of a step function (`functions`), else the function found in
/// the directory (`current`), which must have been found.
pub fn scaffold(kind: &str, current: Option<Function>, functions: Vec<Function>) -> (r:
    Vec<Function>)
    requires
        kind@ != "step-function"@ ==> current is Some,
    ensures
        kind@ == "step-function"@ ==> r == functions,
        kind@ != "step-function"@ ==> r@ == seq![current->0],
{
    if str_eq(kind, "step-function") {
        functions
    } else {
        let mut r: Vec<Function> = Vec::new();
        r.push(current.unwrap());
        r
    }
}

/// What the `list` command lists.
#[derive(Debug, PartialEq, Eq)]
pub enum ListPlan {
    /// Component `component` of the deployed topology.
    Component { component: String },
    /// The deployed topology as a whole.
    All,
}

/// What `list` lists: the named component, or else the whole topology.
pub fn list(component: Option<String>) -> (p: ListPlan)
    ensures
        component is Some ==> p is Component && p->component@ == component->0@,
        component is None ==> p is All,
{
    match component {
        Some(c) => ListPlan::Component { component: c },
        None => ListPlan::All,
    }
}

/// The layer the `download_layer` command downloads, or the message shown
/// where no name is given.
pub fn download_layer(name: Option<String>) -> (r: Result<String, String>)
    ensures
        name is Some ==> r is Ok && r->Ok_0@ == name->0@,
        name is None ==> r is Err && r->Err_0@ == "provide layer name"@,
{
    match name {
        Some(n) => Ok(n),
        None => Err(String::from_str("provide layer name")),
    }
}

/// What the `bootstrap` command does with a role.
#[derive(Debug, PartialEq, Eq)]
pub enum BootstrapPlan {
    Create { role: String },
    Delete { role: String },
    Show { role: String },
    /// No role was named: show `message`.
    NoRole { message: String },
}

/// What `bootstrap` does: create, else delete, else show the named role.
pub fn bootstrap(role_name: Option<String>, create: bool, delete: bool, show: bool) -> (p:
    BootstrapPlan)
    ensures
        role_name is None ==> p is NoRole && p->message@ == "No role name given"@,
        role_name is Some && create ==> p is Create && p->Create_role@ == role_name->0@,
        role_name is Some && !create && delete ==> p is Delete && p->Delete_role@
            == role_name->0@,
        role_name is Some && !create && !delete ==> p is Show && p->Show_role@
            == role_name->0@,
{
    match role_name {
        Some(role) => {
            if create {
                BootstrapPlan::Create { role }
            } else if delete {
                BootstrapPlan::Delete { role }
            } else if show {
                BootstrapPlan::Show { role }
            } else {
                BootstrapPlan::Show { role }
            }
        },
        None => BootstrapPlan::NoRole { message: String::from_str("No role name given") },
    }
}

/// Options of the `invoke` command.
#[derive(Debug, PartialEq, Eq)]
pub struct InvokeOptions {
    pub sandbox: Option<String>,
    pub payload: Option<String>,
    pub name: Option<String>,
    pub kind: Option<String>,
    pub local: bool,
    pub dumb: bool,
}

/// Where the `invoke` command runs a function or state machine.
#[derive(Debug, PartialEq, Eq)]
pub enum InvokePlan {
    /// In the local emulator, with `payload`.
    Local { payload: Option<String> },
    /// In sandbox `sandbox` of the cloud, with `payload`; `dumb` keeps the
    /// console closed.
    Remote { sandbox: Option<String>, payload: Option<String>, dumb: bool },
}

/// What `invoke` does: run locally where asked, else in the cloud.
pub fn invoke(opts: InvokeOptions) -> (p: InvokePlan)
    ensures
        opts.local ==> p is Local && p->Local_payload == opts.payload,
        !opts.local ==> p is Remote && p->sandbox == opts.sandbox && p->Remote_payload
            == opts.payload && p->dumb == opts.dumb,
{
    let InvokeOptions { sandbox, payload, local, dumb, .. } = opts;
    if local {
        InvokePlan::Local { payload }
    } else {
        InvokePlan::Remote { sandbox, payload, dumb }
    }
}

/// The execution mode of a topology's state machine: that of its flow, or
/// `Standard` where it has none.
pub fn invocation_mode(flow_mode: Option<String>) -> (m: String)
    ensures
        m@ == match flow_mode {
            Some(f) => f@,
            None => "Standard"@,
        },
{
    match flow_mode {
        Some(f) => f,
        None => String::from_str("Standard"),
    }
}

/// What the `emulate` command starts.
#[derive(Debug, PartialEq, Eq)]
pub enum EmulatePlan {
    /// The state machine emulator.
    StepFunction,
    /// A shell inside the function's runtime.
    Shell,
    /// The function's runtime.
    Lambda,
}

/// What `emulate` starts in a directory of kind `kind`.
pub fn emulate(kind: &str, shell: bool) -> (p: EmulatePlan)
    ensures
        kind@ == "step-function"@ ==> p is StepFunction,
        kind@ == "function"@ && shell ==> p is Shell,
        kind@ == "function"@ && !shell ==> p is Lambda,
        kind@ != "step-function"@ && kind@ != "function"@ ==> p is Lambda,
{
    proof {
        reveal_strlit("step-function");
        reveal_strlit("function");
        assert("function"@.len() != "step-function"@.len());
    }
    if str_eq(kind, "step-function") {
        EmulatePlan::StepFunction
    } else if str_eq(kind, "function") {
        if shell {
            EmulatePlan::Shell
        } else {
            EmulatePlan::Lambda
        }
    } else {
        EmulatePlan::Lambda
    }
}

/// The tag the `tag` command creates.
#[derive(Debug, PartialEq, Eq)]
pub struct TagPlan {
    pub next: String,
    pub prefix: String,
    pub suffix: String,
}

/// What `tag` creates: the next (`patch` by default) version of the service
/// `prefix`, with suffix `suffix` (`default` by default). A prefix must be
/// given.
pub fn tag(prefix: Option<String>, next: Option<String>, suffix: Option<String>) -> (p: TagPlan)
    requires
        prefix is Some,
    ensures
        p.prefix@ == prefix->0@,
        p.next@ == match next {
            Some(n) => n@,
            None => "patch"@,
        },
        p.suffix@ == match suffix {
            Some(s) => s@,
            None => "default"@,
        },
{
    let prefix = prefix.unwrap();
    let next = maybe_string(next, "patch");
    let suffix = maybe_string(suffix, "default");
    TagPlan { next, prefix, suffix }
}

/// The route the `route` command sets up.
#[derive(Debug, PartialEq, Eq)]
pub struct RoutePlan {
    pub event: String,
    pub rule: String,
}

/// What `route` sets up: the rule for `event` (`default` by default); where
/// no rule is named, the message shown instead.
pub fn route(event: Option<String>, rule: Option<String>) -> (p: Result<RoutePlan, String>)
    ensures
        rule is None ==> p is Err && p->Err_0@ == "Rule not specified"@,
        rule is Some ==> p is Ok && p->Ok_0.rule@ == rule->0@ && p->Ok_0.event@ == match event {
            Some(e) => e@,
            None => "default"@,
        },
{
    let event = maybe_string(event, "default");
    match rule {
        Some(r) => Ok(RoutePlan { event, rule: r }),
        None => Err(String::from_str("Rule not specified")),
    }
}

/// What freezing or unfreezing a sandbox acts on and announces.
#[derive(Debug, PartialEq, Eq)]
pub struct FreezePlan {
    pub service: String,
    pub name: String,
    pub message: String,
}

/// The service to act on (`topology_name` by default) and its sandbox's name
/// `service_sandbox`.
fn sandbox_name(service: Option<String>, topology_name: &str, sandbox: &str) -> (r: (
    String,
    String,
))
    ensures
        r.0@ == match service {
            Some(s) => s@,
            None => topology_name@,
        },
        r.1@ == r.0@ + "_"@ + sandbox@,
{
    let service = maybe_string(service, topology_name);
    let mut name = service.clone();
    name.append("_");
    name.append(sandbox);
    (service, name)
}

/// What `freeze` freezes in environment `env_name`, and the message sent.
pub fn freeze(service: Option<String>, topology_name: &str, sandbox: &str, env_name: &str) -> (p:
    FreezePlan)
    ensures
        p.service@ == match service {
            Some(s) => s@,
            None => topology_name@,
        },
        p.name@ == p.service@ + "_"@ + sandbox@,
        p.message@ == "*"@ + env_name@ + "*::"@ + sandbox@ + " is frozen"@,
{
    let (service, name) = sandbox_name(service, topology_name, sandbox);
    let mut message = String::from_str("*");
    message.append(env_name);
    message.append("*::");
    message.append(sandbox);
    message.append(" is frozen");
    FreezePlan { service, name, message }
}

/// What `unfreeze` unfreezes, and the message sent.
pub fn unfreeze(service: Option<String>, topology_name: &str, sandbox: &str) -> (p: FreezePlan)
    ensures
        p.service@ == match service {
            Some(s) => s@,
            None => topology_name@,
        },
        p.name@ == p.service@ + "_"@ + sandbox@,
        p.message@ == p.name@ + " is now unfrozen"@,
{
    let (service, name) = sandbox_name(service, topology_name, sandbox);
    let mut message = name.clone();
    message.append(" is now unfrozen");
    FreezePlan { service, name, message }
}

/// The deploy the `deploy` command asks CI for.
#[derive(Debug, PartialEq, Eq)]
pub struct DeployPlan {
    pub service: String,
    pub sandbox: String,
}

/// What `deploy` asks for: the service (the topology's namespace by
/// default) in the sandbox (`stable` by default).
pub fn deploy(service: Option<String>, namespace: &str, sandbox: Option<String>) -> (p: DeployPlan)
    ensures
        p.service@ == match service {
            Some(s) => s@,
            None => namespace@,
        },
        p.sandbox@ == match sandbox {
            Some(s) => s@,
            None => "stable"@,
        },
{
    DeployPlan { service: maybe_string(service, namespace), sandbox: maybe_string(sandbox, "stable") }
}

/// What the `release` command does.
#[derive(Debug, PartialEq, Eq)]
pub enum ReleasePlan {
    /// Undo the last release of `service`.
    Unwind { service: String },
    /// Release `service` with suffix `suffix`.
    Release { service: String, suffix: String },
}

/// What `release` does: unwind where asked, else release the service (the
/// topology's namespace by default) with suffix `default` unless another is
/// given.
pub fn release(service: Option<String>, suffix: Option<String>, unwind: bool, namespace: &str) -> (p:
    ReleasePlan)
    ensures
        unwind ==> p is Unwind && p->Unwind_service@ == match service {
            Some(s) => s@,
            None => namespace@,
        },
        !unwind ==> p is Release && p->Release_service@ == match service {
            Some(s) => s@,
            None => namespace@,
        } && p->suffix@ == match suffix {
            Some(s) => s@,
            None => "default"@,
        },
{
    let suffix = maybe_string(suffix, "default");
    let service = maybe_string(service, namespace);
    if unwind {
        ReleasePlan::Unwind { service }
    } else {
        ReleasePlan::Release { service, suffix }
    }
}

/// The configuration profile the tool starts with: the given profile, or
/// the default (empty) one.
pub fn init(profile: &Option<String>) -> (p: String)
    ensures
        p@ == match profile {
            Some(s) => s@,
            None => Seq::<char>::empty(),
        },
{
    match profile {
        Some(p) => p.clone(),
        None => String::new(),
    }
}

/// How the tool starts for repository-wide work.
#[derive(Debug, PartialEq, Eq)]
pub struct RepoProfilePlan {
    /// The configuration profile to start with.
    pub profile: String,
    /// Whether to switch to the profile that holds the shared layers.
    pub inherit_layers_profile: bool,
}

/// How `init_repo_profile` starts: with the given profile, or else with the
/// default one switched to the profile that holds the shared layers.
pub fn init_repo_profile(profile: &Option<String>) -> (p: RepoProfilePlan)
    ensures
        p.profile@ == match profile {
            Some(s) => s@,
            None => Seq::<char>::empty(),
        },
        p.inherit_layers_profile == (profile is None),
{
    RepoProfilePlan { profile: init(profile), inherit_layers_profile: profile.is_none() }
}

} // verus!
