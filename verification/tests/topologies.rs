use tc::deployer::mutation::{create, create_mutation, delete, DatasourceInput, MutationStep};
use tc::inspector::definitions;
use tc::inspector::releases;
use tc::topology::{Mutation, Resolver, Topology};

fn s(x: &str) -> String {
    x.to_string()
}

fn resolver(name: &str) -> Resolver {
    Resolver {
        name: s(name),
        kind: s("function"),
        target_arn: format!("arn:aws:lambda:us-west-2:1:function:{}", name),
        input: s("Input"),
        output: s("Output"),
    }
}

fn mutation(api: &str, fields: &[&str]) -> Mutation {
    Mutation {
        api_name: s(api),
        authorizer: s("auth"),
        role_arn: s("arn:aws:iam::1:role/appsync"),
        types: vec![(s("Order"), s("type Order { id: ID! }"))],
        resolvers: fields.iter().map(|f| (s(f), resolver(f))).collect(),
    }
}

fn topology(ns: &str, version: &str, mutations: Vec<(String, Mutation)>, nodes: Vec<Topology>) -> Topology {
    Topology { namespace: s(ns), sandbox: s("stable"), version: s(version), functions: vec![], mutations, nodes }
}

fn field_steps(field: &str) -> Vec<MutationStep> {
    vec![
        MutationStep::Announce { message: format!("Creating mutation {}", field) },
        MutationStep::Datasource {
            input: DatasourceInput {
                kind: s("function"),
                name: s(field),
                role_arn: s("arn:aws:iam::1:role/appsync"),
                target_arn: format!("arn:aws:lambda:us-west-2:1:function:{}", field),
            },
        },
        MutationStep::Function { field: s(field), datasource: s(field) },
        MutationStep::Resolver { field: s(field), datasource: s(field) },
    ]
}

#[test]
fn mutation_requests_in_order() {
    let m = mutation("orders-api", &["createOrder", "cancelOrder"]);
    let mut expected = vec![
        MutationStep::Api { api_name: s("orders-api"), authorizer: s("auth") },
        MutationStep::Permission { principal: s("appsync.amazonaws.com"), statement_id: s("orders-api") },
        MutationStep::Types { types: vec![(s("Order"), s("type Order { id: ID! }"))] },
    ];
    expected.extend(field_steps("createOrder"));
    expected.extend(field_steps("cancelOrder"));
    assert_eq!(create_mutation(&m), expected);
}

#[test]
fn deploying_and_deleting_mutations() {
    let ms = vec![(s("m1"), mutation("a-api", &["x"])), (s("m2"), mutation("b-api", &[]))];
    let plans = create(&ms);
    assert_eq!(plans.len(), 2);
    assert_eq!(plans[0], create_mutation(&ms[0].1));
    assert_eq!(plans[0].len(), 7);
    assert_eq!(plans[1].len(), 3);
    assert_eq!(delete(&ms), vec![s("a-api"), s("b-api")]);
}

#[test]
fn definition_rows_of_a_topology() {
    let t = topology("orders", "0.1.0", vec![(s("m"), mutation("api", &["a", "b"]))], vec![]);
    let rows = definitions::build_aux(&t);
    assert_eq!(rows.len(), 2);
    assert_eq!(rows[0].namespace, "orders");
    assert_eq!(rows[0].name, "a");
    assert_eq!(rows[1].name, "b");
    assert_eq!(rows[1].target, "arn:aws:lambda:us-west-2:1:function:b");
    assert_eq!(rows[1].input, "Input");
    assert_eq!(rows[1].output, "Output");
    assert_eq!(rows[1].kind, "function");
}

#[test]
fn definition_rows_include_nodes() {
    let node = topology("orders-child", "0.1.0", vec![(s("m"), mutation("child-api", &["c"]))], vec![]);
    let t = topology("orders", "0.1.0", vec![(s("m"), mutation("api", &["a"]))], vec![node]);
    let other = topology("billing", "1.0.0", vec![(s("m"), mutation("bill-api", &["d"]))], vec![]);
    let rows = definitions::build(&vec![t, other]);
    let names: Vec<(String, String)> = rows.iter().map(|r| (r.namespace.clone(), r.name.clone())).collect();
    assert_eq!(
        names,
        vec![(s("orders"), s("a")), (s("orders-child"), s("c")), (s("billing"), s("d"))]
    );
}

#[test]
fn release_rows_ordered_by_namespace() {
    let ts = vec![
        topology("payments", "2.0.0", vec![], vec![]),
        topology("billing", "1.0.0", vec![], vec![]),
        topology("orders", "0.3.0", vec![], vec![]),
    ];
    let rows = releases::build(&ts);
    let got: Vec<(String, String, String)> =
        rows.iter().map(|r| (r.id.clone(), r.namespace.clone(), r.version.clone())).collect();
    assert_eq!(
        got,
        vec![
            (s("billing"), s("billing"), s("1.0.0")),
            (s("orders"), s("orders"), s("0.3.0")),
            (s("payments"), s("payments"), s("2.0.0")),
        ]
    );
}

#[test]
fn release_rows_with_a_shared_namespace_come_in_reverse() {
    let ts = vec![
        topology("orders", "1", vec![], vec![]),
        topology("b", "x", vec![], vec![]),
        topology("orders", "2", vec![], vec![]),
    ];
    let rows = releases::build(&ts);
    let got: Vec<String> = rows.iter().map(|r| format!("{}@{}", r.namespace, r.version)).collect();
    assert_eq!(got, vec![s("b@x"), s("orders@2"), s("orders@1")]);
    // The same order as sorting by namespace, descending, then reversing.
    let mut reference: Vec<(String, String)> =
        ts.iter().map(|t| (t.namespace.clone(), t.version.clone())).collect();
    reference.sort_by(|a, b| b.0.cmp(&a.0));
    reference.reverse();
    let reference: Vec<String> = reference.iter().map(|(n, v)| format!("{}@{}", n, v)).collect();
    assert_eq!(got, reference);
}

#[test]
fn namespace_order_is_the_order_of_strings() {
    assert!(releases::str_lt("abc", "abd"));
    assert!(releases::str_lt("ab", "abc"));
    assert!(!releases::str_lt("abc", "ab"));
    assert!(!releases::str_lt("same", "same"));
    assert!(releases::str_lt("Zeta", "alpha"));
    assert!(releases::str_lt("", "a"));
}
