use tc::ci::circleci::{deploy_payload, release_payload, Circle};
use tc::env::Env;
use tc::invoker::sfn::{build_vars, execute_state_machine, get_id, name_of, open_execution, ExecutionConsole};

const ARN: &str = "arn:aws:states:us-west-2:123456789012:execution:orders_stable:run-42";

#[test]
fn execution_id_and_name() {
    assert_eq!(get_id(ARN), "run-42");
    assert_eq!(name_of(ARN), "orders_stable");
    assert_eq!(get_id("no-colons"), "no-colons");
    assert_eq!(name_of("a:b:c"), "");
}

#[test]
fn express_executions_are_shown_by_arn() {
    match open_execution("Express", ARN) {
        ExecutionConsole::Express { name, exec_arn } => {
            assert_eq!(name, "orders_stable");
            assert_eq!(exec_arn, ARN);
        }
        _ => panic!("expected an express view"),
    }
}

#[test]
fn standard_executions_are_shown_by_name_and_id() {
    match open_execution("Standard", ARN) {
        ExecutionConsole::Standard { name, id } => {
            assert_eq!(name, "orders_stable");
            assert_eq!(id, "run-42");
        }
        _ => panic!("expected a standard view"),
    }
    assert!(matches!(open_execution("express", ARN), ExecutionConsole::Standard { .. }));
}

#[test]
fn execution_input_variables() {
    let env = Env {
        name: "dev".to_string(),
        account: "123".to_string(),
        region: "eu-west-1".to_string(),
        update_metadata: false,
        layers_profile: "shared".to_string(),
    };
    let vars = build_vars(&env);
    assert_eq!(vars, vec![("account".to_string(), "123".to_string()), ("region".to_string(), "eu-west-1".to_string())]);
}

#[test]
fn circle_endpoints() {
    let ci = Circle::init("orders", "SECRET-REDACTED".to_string());
    assert_eq!(ci.repo, "orders");
    assert_eq!(ci.url(), "https://circleci.com/api/v2/project/github/Informed/orders/pipeline");
    assert_eq!(ci.workflow_url("17"), "https://app.circleci.com/pipelines/github/Informed/orders/17");
}

#[test]
fn circle_headers() {
    let ci = Circle::init("orders", "tok".to_string());
    let h = ci.headers();
    assert_eq!(h.len(), 4);
    assert_eq!(h[0], ("circle-token".to_string(), "tok".to_string()));
    assert_eq!(h[1], ("content-type".to_string(), "application/json".to_string()));
    assert_eq!(h[2], ("accept".to_string(), "application/json".to_string()));
    assert_eq!(h[3], ("user-agent".to_string(), "libcurl/7.64.1 r-curl/4.3.2 httr/1.4.2".to_string()));
}

#[test]
fn release_parameters() {
    let suffix = "beta";
    let prefix = "orders";
    let expected = format!(
        r#"
           {{
             "branch": "main",
             "parameters": {{
              "tc-release-version-suffix": "{suffix}",
              "tc-release-service": "{prefix}",
              "api_call": true
           }}}}"#
    );
    assert_eq!(release_payload(prefix, suffix), expected);
    let v: serde_json::Value = serde_json::from_str(&release_payload(prefix, suffix)).unwrap();
    assert_eq!(v["parameters"]["tc-release-service"], "orders");
}

#[test]
fn deploy_parameters() {
    let (env, sandbox, prefix, version) = ("prod", "stable", "orders", "0.4.1");
    let expected = format!(
        r#"
           {{
             "branch": "main",
             "parameters": {{
              "tc-deploy-service": "{prefix}",
              "tc-deploy-version": "{version}",
              "tc-deploy-sandbox": "{sandbox}",
              "tc-deploy-env": "{env}",
              "api_call": true
           }}}}"#
    );
    assert_eq!(deploy_payload(env, sandbox, prefix, version), expected);
}

#[test]
fn console_opens_unless_dumb() {
    assert_eq!(execute_state_machine("Standard", ARN, true), None);
    assert_eq!(
        execute_state_machine("Standard", ARN, false),
        Some(ExecutionConsole::Standard { name: "orders_stable".to_string(), id: "run-42".to_string() })
    );
    assert_eq!(
        execute_state_machine("Express", ARN, false),
        Some(ExecutionConsole::Express { name: "orders_stable".to_string(), exec_arn: ARN.to_string() })
    );
}
