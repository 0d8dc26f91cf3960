use tc::env::Env;
use tc::steps::{prelude, Command, Step};
use tc::topology::{Function, Topology};
use tc::{create, delete, delete_component, update, update_component};

fn s(x: &str) -> String {
    x.to_string()
}

fn function(name: &str) -> (String, Function) {
    (s(name), Function { name: s(name), dir: format!("/src/{}", name) })
}

fn topology(ns: &str, functions: &[&str]) -> Topology {
    Topology {
        namespace: s(ns),
        sandbox: s("stable"),
        version: s("0.2.0"),
        functions: functions.iter().map(|f| function(f)).collect(),
        mutations: vec![],
        nodes: vec![],
    }
}

fn env(update_metadata: bool) -> Env {
    Env {
        name: s("prod"),
        account: s("1"),
        region: s("us-west-2"),
        update_metadata,
        layers_profile: s("shared-layers"),
    }
}

#[test]
fn preludes_guard_before_anything_else() {
    let expected = |cache: bool, resolving: bool| {
        let mut v = vec![
            Step::Guard { sandbox: s("stable") },
            Step::Say { text: s("Compiling topology") },
            Step::Compile { dir: s("/src"), recursive: true },
            Step::Count,
        ];
        if resolving {
            v.push(Step::Say { text: s("Resolving topology") });
        }
        v.push(Step::Resolve { sandbox: s("stable"), cache });
        v
    };
    assert_eq!(prelude(Command::Create, "stable", "/src", true, true), expected(false, false));
    assert_eq!(prelude(Command::Update, "stable", "/src", true, false), expected(true, false));
    assert_eq!(prelude(Command::UpdateComponent, "stable", "/src", true, true), expected(true, false));
    assert_eq!(prelude(Command::Delete, "stable", "/src", true, true), expected(true, false));
    assert_eq!(prelude(Command::DeleteComponent, "stable", "/src", true, true), expected(true, true));
}

#[test]
fn create_builds_deploys_announces_and_cleans() {
    let ts = vec![topology("orders", &["a", "b"]), topology("billing", &["c"])];
    assert_eq!(
        create(&ts, true, &env(true), "/src", false),
        vec![
            Step::Build { dir: s("/src/a") },
            Step::Build { dir: s("/src/b") },
            Step::Create { topology: 0 },
            Step::Build { dir: s("/src/c") },
            Step::Create { topology: 1 },
            Step::Notify { namespace: s("orders"), message: s("Deployed `orders-0.2.0` to *prod*::orders_stable") },
            Step::UpdateMetadata {
                profile: s("shared-layers"),
                sandbox: s("stable"),
                namespace: s("orders"),
                version: s("0.2.0"),
                env_name: s("prod"),
                dir: s("/src"),
            },
            Step::Clean { recursive: false },
        ]
    );
    assert_eq!(
        create(&ts, false, &env(true), "/src", true),
        vec![
            Step::Build { dir: s("/src/a") },
            Step::Build { dir: s("/src/b") },
            Step::Create { topology: 0 },
            Step::Build { dir: s("/src/c") },
            Step::Create { topology: 1 },
            Step::Clean { recursive: true },
        ]
    );
    assert_eq!(create(&vec![], true, &env(true), "/src", true), vec![Step::Clean { recursive: true }]);
    let notice_only = create(&ts[..1].iter().map(|t| topology(&t.namespace, &[])).collect(), true, &env(false), "/src", false);
    assert_eq!(
        notice_only,
        vec![
            Step::Create { topology: 0 },
            Step::Notify { namespace: s("orders"), message: s("Deployed `orders-0.2.0` to *prod*::orders_stable") },
            Step::Clean { recursive: false },
        ]
    );
}

#[test]
fn update_builds_updates_and_cleans() {
    let ts = vec![topology("orders", &["a"])];
    assert_eq!(
        update(&ts, true),
        vec![Step::Build { dir: s("/src/a") }, Step::Update { topology: 0 }, Step::Clean { recursive: true }]
    );
}

#[test]
fn component_and_deletion_steps() {
    assert_eq!(
        update_component(2, &Some(s("functions"))),
        vec![
            Step::UpdateComponent { topology: 0, component: Some(s("functions")) },
            Step::UpdateComponent { topology: 1, component: Some(s("functions")) },
        ]
    );
    assert_eq!(delete(2), vec![Step::Delete { topology: 0 }, Step::Delete { topology: 1 }]);
    assert_eq!(delete_component(1, &None), vec![Step::DeleteComponent { topology: 0, component: None }]);
    assert_eq!(delete(0), vec![]);
}

#[test]
fn testing_each_function() {
    assert_eq!(
        tc::steps::test(&vec![function("a"), function("b")]),
        vec![
            Step::Test { path: s("a"), name: s("a"), dir: s("/src/a") },
            Step::Test { path: s("b"), name: s("b"), dir: s("/src/b") },
        ]
    );
}
