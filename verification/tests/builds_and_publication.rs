use tc::builder::ruby::{build, build_output, Build, BuildStep};
use tc::publisher::{checks_split, demote, list, publish, ListTarget, PublishStep};
use tc::build_kind::BuildKind;

fn s(x: &str) -> String {
    x.to_string()
}

fn layer(lang: &str, name: &str, zip: &str) -> PublishStep {
    PublishStep::Layer { lang: s(lang), layer_name: s(name), zipfile: s(zip) }
}

#[test]
fn split_layers_publish_two_parts() {
    let steps = publish(BuildKind::Layer, true, "lambda.zip", "python3.10", "deps");
    assert_eq!(
        steps,
        vec![layer("python3.10", "deps-0-dev", "deps1.zip"), layer("python3.10", "deps-1-dev", "deps2.zip")]
    );
}

#[test]
fn whole_layers_and_libraries_publish_once() {
    assert_eq!(
        publish(BuildKind::Library, false, "lib.zip", "ruby3.2", "util"),
        vec![layer("ruby3.2", "util-dev", "lib.zip")]
    );
    assert_eq!(
        publish(BuildKind::Layer, false, "l.zip", "python3.10", "deps"),
        vec![layer("python3.10", "deps-dev", "l.zip")]
    );
}

#[test]
fn images_are_pushed_and_code_is_not_published() {
    assert_eq!(publish(BuildKind::Image, true, "x", "y", "api"), vec![PublishStep::Image { name: s("api") }]);
    assert_eq!(publish(BuildKind::Code, false, "x", "y", "api"), vec![]);
    assert_eq!(publish(BuildKind::Extension, true, "x", "y", "api"), vec![]);
}

#[test]
fn demoting_a_named_layer() {
    let layers = vec![(s("other"), s("ruby3.2"))];
    assert_eq!(demote(Some(s("deps")), "python3.10", &layers), vec![(s("deps"), s("python3.10"))]);
}

#[test]
fn demoting_all_layers_keeps_each_name_once_with_its_last_runtime() {
    let layers = vec![
        (s("a"), s("python3.9")),
        (s("b"), s("ruby3.2")),
        (s("a"), s("python3.10")),
        (s("c"), s("node20")),
    ];
    let mut r = demote(None, "python3.10", &layers);
    r.sort();
    assert_eq!(r, vec![(s("a"), s("python3.10")), (s("b"), s("ruby3.2")), (s("c"), s("node20"))]);
    assert_eq!(demote(None, "python3.10", &vec![]), vec![]);
}

#[test]
fn listing_kinds() {
    assert_eq!(list(BuildKind::Layer), ListTarget::Layers);
    assert_eq!(list(BuildKind::Image), ListTarget::Images { name: s("xxx") });
}

fn spec(kind: BuildKind) -> Build {
    Build { kind, pre: vec![s("bundle config")], post: vec![s("rm -rf tmp")], command: s("zip -r lambda.zip .") }
}

#[test]
fn ruby_builders_by_kind() {
    assert_eq!(
        build("/src/api", "ruby3.2", "api", spec(BuildKind::Code)),
        BuildStep::Code { dir: s("/src/api"), command: s("zip -r lambda.zip .") }
    );
    assert_eq!(
        build("/src/api", "ruby3.2", "api", spec(BuildKind::Inline)),
        BuildStep::Inline { dir: s("/src/api"), target: s("inline-deps") }
    );
    assert_eq!(
        build("/src/api", "ruby3.2", "api", spec(BuildKind::Layer)),
        BuildStep::Layer {
            dir: s("/src/api"),
            name: s("api"),
            runtime: s("ruby3.2"),
            pre: vec![s("bundle config")],
            post: vec![s("rm -rf tmp")],
        }
    );
    assert_eq!(build("/src/api", "ruby3.2", "api", spec(BuildKind::Library)), BuildStep::Library { dir: s("/src/api") });
    assert_eq!(
        build("/src/api", "ruby3.2", "api", spec(BuildKind::Extension)),
        BuildStep::Extension { dir: s("/src/api"), name: s("api") }
    );
    assert_eq!(
        build("/src/api", "ruby3.2", "api", spec(BuildKind::Image)),
        BuildStep::Image { dir: s("/src/api"), name: s("api") }
    );
}

#[test]
fn build_reports_are_named_after_the_directory() {
    let out = build_output("/src/services/orders", "ruby3.2", "api", BuildKind::Code, s("/tmp/lambda.zip"));
    assert_eq!(out.name, "api-orders");
    assert_eq!(out.dir, "/src/services/orders");
    assert_eq!(out.zipfile, "/tmp/lambda.zip");
    assert_eq!(out.kind, BuildKind::Code);
    assert_eq!(out.runtime, "ruby3.2");
}

#[test]
fn only_layers_and_libraries_check_for_a_split() {
    assert!(checks_split(BuildKind::Layer));
    assert!(checks_split(BuildKind::Library));
    assert!(!checks_split(BuildKind::Image));
    assert!(!checks_split(BuildKind::Code));
}
