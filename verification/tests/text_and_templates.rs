use tc::resolver::context::{abbr, abbreviate, Context};
use tc::env::Env;
use tc::template::{placeholder, replace, stencil};
use tc::text::{basename, maybe_string, nth, split, str_eq, tail_of};

fn s(x: &str) -> String {
    x.to_string()
}

#[test]
fn split_keeps_empty_pieces() {
    assert_eq!(split("a:b::c", ':'), vec![s("a"), s("b"), s(""), s("c")]);
    assert_eq!(split("", ':'), vec![s("")]);
    assert_eq!(split(":", ':'), vec![s(""), s("")]);
    assert_eq!(split("plain", ':'), vec![s("plain")]);
}

#[test]
fn tail_and_basename() {
    assert_eq!(tail_of("a:b:c", ':'), "c");
    assert_eq!(tail_of("abc", ':'), "abc");
    assert_eq!(tail_of("abc:", ':'), "");
    assert_eq!(basename("/home/dev/services/orders"), "orders");
    assert_eq!(basename("orders"), "orders");
}

#[test]
fn nth_and_defaults() {
    let parts = vec![s("x"), s("y")];
    assert_eq!(nth(&parts, 1), "y");
    assert_eq!(nth(&parts, 2), "");
    assert_eq!(maybe_string(Some(s("given")), "fallback"), "given");
    assert_eq!(maybe_string(None, "fallback"), "fallback");
    assert!(str_eq("Express", "Express"));
    assert!(!str_eq("Express", "Standard"));
}

#[test]
fn replace_is_left_to_right_and_non_overlapping() {
    assert_eq!(replace("{{a}} and {{a}}", "{{a}}", "X"), "X and X");
    assert_eq!(replace("aaa", "aa", "b"), "ba");
    assert_eq!(replace("nothing here", "{{a}}", "X"), "nothing here");
    assert_eq!(replace("", "x", "y"), "");
    assert_eq!(replace("ab", "ab", ""), "");
}

#[test]
fn placeholders_are_doubly_braced() {
    assert_eq!(placeholder("region"), "{{region}}");
}

#[test]
fn stencil_fills_in_table_order() {
    let table = vec![(s("a"), s("1")), (s("b"), s("{{a}}"))];
    // `b` is filled after `a`, so the placeholder it brings stays.
    assert_eq!(stencil("{{a}}-{{b}}", &table), "1-{{a}}");
    assert_eq!(stencil("{{c}}", &table), "{{c}}");
    assert_eq!(stencil("no braces", &table), "no braces");
}

#[test]
fn abbreviations() {
    assert_eq!(abbreviate("customer-notification-service", '-'), "cns");
    assert_eq!(abbreviate("a--b", '-'), "ab");
    assert_eq!(abbr("short-name"), "short-name");
    assert_eq!(abbr("exactly-fifteen"), "exactly-fifteen");
    assert_eq!(abbr("customer-notification-service"), "cns");
}

fn context() -> Context {
    Context {
        env: Env {
            name: s("dev"),
            account: s("123456789012"),
            region: s("us-west-2"),
            update_metadata: false,
            layers_profile: s("shared"),
        },
        namespace: s("customer-notification-service"),
        sandbox: s("stable"),
        trace: false,
    }
}

#[test]
fn render_fills_every_context_placeholder() {
    let c = context();
    assert_eq!(
        c.render("arn:aws:states:{{region}}:{{account}}:stateMachine:{{namespace}}_{{sandbox}}"),
        "arn:aws:states:us-west-2:123456789012:stateMachine:customer-notification-service_stable"
    );
    assert_eq!(c.render("{{acc}}/{{abbr_namespace}}/{{env}}/{{profile}}"), "123456789012/cns/dev/dev");
    assert_eq!(c.render("{{unknown}}"), "{{unknown}}");
    assert_eq!(c.render("plain text"), "plain text");
}

#[test]
fn context_table_order() {
    let t = context().table();
    let keys: Vec<String> = t.iter().map(|e| e.0.clone()).collect();
    assert_eq!(
        keys,
        vec![s("account"), s("acc"), s("region"), s("namespace"), s("abbr_namespace"), s("sandbox"), s("env"), s("profile")]
    );
    assert_eq!(t[4].1, "cns");
}
