use tc::env::Env;
use tc::build_kind::BuildKind;
use tc::topology::{Function, Topology};
use tc::{
    bootstrap, build, compile, deploy, emulate, freeze, init, init_repo_profile, invocation_mode,
    invoke, publish, release, resolve, route, run_create_hook, scaffold, tag, unfreeze, list,
    download_layer, ListPlan, MetadataUpdate,
    BootstrapPlan, BuildOpts, BuildPlan, CompileOpts, CompilePlan, EmulatePlan, InvokeOptions,
    InvokePlan, PublishOpts, PublishPlan, ReleasePlan, ResolvePlan,
};

fn s(x: &str) -> String {
    x.to_string()
}

fn opts(recursive: bool, clean: bool) -> BuildOpts {
    BuildOpts { merge: false, recursive, clean, split: false, dirty: true }
}

#[test]
fn build_chooses_recursive_then_clean_then_single() {
    assert_eq!(
        build(Some(BuildKind::Layer), None, "/src", opts(true, true)),
        BuildPlan::Recursive { dirty: true, kind: Some(BuildKind::Layer) }
    );
    assert_eq!(build(None, None, "/src", opts(false, true)), BuildPlan::Clean { dir: s("/src") });
    assert_eq!(
        build(None, Some(s("api")), "/src", opts(false, false)),
        BuildPlan::Single { dir: s("/src"), name: Some(s("api")), kind: None }
    );
}

#[test]
fn publish_modes() {
    let p = publish(None, "/src/fn", "/home/dev/deps", PublishOpts { promote: true, demote: true, version: Some(s("3")) });
    assert_eq!(p, PublishPlan::Promote { name: s("deps"), dir: s("/src/fn"), version: Some(s("3")) });
    let p = publish(Some(s("x")), "/src/fn", "/home/dev/deps", PublishOpts { promote: true, demote: false, version: None });
    assert_eq!(p, PublishPlan::Promote { name: s("x"), dir: s("/src/fn"), version: None });
    let p = publish(Some(s("x")), "/src/fn", "/d", PublishOpts { promote: false, demote: true, version: None });
    assert_eq!(p, PublishPlan::Demote { layer: Some(s("x")), lang: s("python3.10") });
    let p = publish(None, "/src/fn", "/d", PublishOpts { promote: false, demote: false, version: None });
    assert_eq!(p, PublishPlan::Manifest);
}

#[test]
fn compile_component_or_topology() {
    let p = compile(CompileOpts { versions: false, recursive: true, component: Some(s("functions")), format: None });
    assert_eq!(p, CompilePlan::Component { component: s("functions"), format: s("json"), recursive: true });
    let p = compile(CompileOpts { versions: false, recursive: false, component: Some(s("flow")), format: Some(s("yaml")) });
    assert_eq!(p, CompilePlan::Component { component: s("flow"), format: s("yaml"), recursive: false });
    let p = compile(CompileOpts { versions: true, recursive: false, component: None, format: Some(s("yaml")) });
    assert_eq!(p, CompilePlan::Topology { recursive: false });
}

#[test]
fn resolve_component_or_all() {
    assert_eq!(resolve(Some(s("events")), true), ResolvePlan::Component { component: s("events") });
    assert_eq!(resolve(None, true), ResolvePlan::All { cache: false });
    assert_eq!(resolve(None, false), ResolvePlan::All { cache: true });
}

fn env(update_metadata: bool) -> Env {
    Env {
        name: s("prod"),
        account: s("1"),
        region: s("us-west-2"),
        update_metadata,
        layers_profile: s("shared-layers"),
    }
}

#[test]
fn deploy_announcement() {
    let root = Topology { namespace: s("orders"), sandbox: s("stable"), version: s("0.4.1"), functions: vec![], mutations: vec![], nodes: vec![] };
    let h = run_create_hook(&root, &env(false), "/src/orders");
    assert_eq!(h.notice.tag, "orders-0.4.1");
    assert_eq!(h.notice.message, "Deployed `orders-0.4.1` to *prod*::orders_stable");
    assert_eq!(h.metadata, None);
}

#[test]
fn deploy_metadata_update() {
    let root = Topology { namespace: s("orders"), sandbox: s("stable"), version: s("0.4.1"), functions: vec![], mutations: vec![], nodes: vec![] };
    let h = run_create_hook(&root, &env(true), "/src/orders");
    assert_eq!(
        h.metadata,
        Some(MetadataUpdate {
            profile: s("shared-layers"),
            sandbox: s("stable"),
            namespace: s("orders"),
            version: s("0.4.1"),
            env_name: s("prod"),
            dir: s("/src/orders"),
        })
    );
}

#[test]
fn scaffold_and_emulate_by_directory_kind() {
    let f = |n: &str| Function { name: s(n), dir: format!("/src/{}", n) };
    assert_eq!(scaffold("step-function", None, vec![f("a"), f("b")]), vec![f("a"), f("b")]);
    assert_eq!(scaffold("function", Some(f("c")), vec![f("a")]), vec![f("c")]);
    assert_eq!(scaffold("anything", Some(f("c")), vec![]), vec![f("c")]);
    assert_eq!(emulate("step-function", true), EmulatePlan::StepFunction);
    assert_eq!(emulate("function", true), EmulatePlan::Shell);
    assert_eq!(emulate("function", false), EmulatePlan::Lambda);
    assert_eq!(emulate("other", true), EmulatePlan::Lambda);
}

#[test]
fn bootstrap_priorities() {
    assert_eq!(bootstrap(None, true, true, true), BootstrapPlan::NoRole { message: s("No role name given") });
    assert_eq!(bootstrap(Some(s("r")), true, true, false), BootstrapPlan::Create { role: s("r") });
    assert_eq!(bootstrap(Some(s("r")), false, true, true), BootstrapPlan::Delete { role: s("r") });
    assert_eq!(bootstrap(Some(s("r")), false, false, true), BootstrapPlan::Show { role: s("r") });
    assert_eq!(bootstrap(Some(s("r")), false, false, false), BootstrapPlan::Show { role: s("r") });
}

#[test]
fn invoke_locally_or_remotely() {
    let o = InvokeOptions { sandbox: Some(s("dev")), payload: Some(s("{}")), name: None, kind: None, local: true, dumb: false };
    assert_eq!(invoke(o), InvokePlan::Local { payload: Some(s("{}")) });
    let o = InvokeOptions { sandbox: Some(s("dev")), payload: None, name: None, kind: None, local: false, dumb: true };
    assert_eq!(invoke(o), InvokePlan::Remote { sandbox: Some(s("dev")), payload: None, dumb: true });
    assert_eq!(invocation_mode(Some(s("Express"))), "Express");
    assert_eq!(invocation_mode(None), "Standard");
}

#[test]
fn tag_defaults() {
    let t = tag(Some(s("orders")), None, None);
    assert_eq!((t.prefix, t.next, t.suffix), (s("orders"), s("patch"), s("default")));
    let t = tag(Some(s("orders")), Some(s("minor")), Some(s("rc")));
    assert_eq!((t.prefix, t.next, t.suffix), (s("orders"), s("minor"), s("rc")));
}

#[test]
fn route_needs_a_rule() {
    assert_eq!(route(Some(s("e")), None), Err(s("Rule not specified")));
    let r = route(None, Some(s("rule-1"))).unwrap();
    assert_eq!((r.event, r.rule), (s("default"), s("rule-1")));
}

#[test]
fn freezing_messages() {
    let f = freeze(None, "orders", "stable", "prod");
    assert_eq!(f.service, "orders");
    assert_eq!(f.name, "orders_stable");
    assert_eq!(f.message, "*prod*::stable is frozen");
    let u = unfreeze(Some(s("billing")), "orders", "dev");
    assert_eq!(u.name, "billing_dev");
    assert_eq!(u.message, "billing_dev is now unfrozen");
}

#[test]
fn deploy_and_release_defaults() {
    let d = deploy(None, "orders", None);
    assert_eq!((d.service, d.sandbox), (s("orders"), s("stable")));
    let d = deploy(Some(s("b")), "orders", Some(s("dev")));
    assert_eq!((d.service, d.sandbox), (s("b"), s("dev")));
    assert_eq!(release(None, None, true, "orders"), ReleasePlan::Unwind { service: s("orders") });
    assert_eq!(
        release(Some(s("b")), None, false, "orders"),
        ReleasePlan::Release { service: s("b"), suffix: s("default") }
    );
}

#[test]
fn starting_profiles() {
    assert_eq!(init(&Some(s("prod"))), "prod");
    assert_eq!(init(&None), "");
    let p = init_repo_profile(&None);
    assert_eq!((p.profile, p.inherit_layers_profile), (s(""), true));
    let p = init_repo_profile(&Some(s("prod")));
    assert_eq!((p.profile, p.inherit_layers_profile), (s("prod"), false));
}

#[test]
fn list_component_or_all() {
    assert_eq!(list(Some(s("functions"))), ListPlan::Component { component: s("functions") });
    assert_eq!(list(None), ListPlan::All);
}

#[test]
fn download_needs_a_name() {
    assert_eq!(download_layer(Some(s("deps"))), Ok(s("deps")));
    assert_eq!(download_layer(None), Err(s("provide layer name")));
}
