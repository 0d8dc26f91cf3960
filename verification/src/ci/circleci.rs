//! Triggering release and deploy pipelines on CircleCI: the endpoints, the
//! request headers and the pipeline parameters sent.
use vstd::prelude::*;

verus! {

/// A CircleCI project and the token used to reach it.
#[derive(Debug, PartialEq, Eq)]
pub struct Circle {
    pub repo: String,
    pub token: String,
}

/// The body that asks for a release pipeline of service `prefix`.
pub open spec fn release_payload_text(prefix: Seq<char>, suffix: Seq<char>) -> Seq<char> {
    "\n           {\n             \"branch\": \"main\",\n             \"parameters\": {\n              \"tc-release-version-suffix\": \""@ + suffix + "\",\n              \"tc-release-service\": \""@ + prefix + "\",\n              \"api_call\": true\n           }}"@
}

/// The body that asks for a deploy pipeline of service `prefix` at `version`.
pub open spec fn deploy_payload_text(
    prefix: Seq<char>,
    version: Seq<char>,
    sandbox: Seq<char>,
    env: Seq<char>,
) -> Seq<char> {
    "\n           {\n             \"branch\": \"main\",\n             \"parameters\": {\n              \"tc-deploy-service\": \""@ + prefix + "\",\n              \"tc-deploy-version\": \""@ + version + "\",\n              \"tc-deploy-sandbox\": \""@ + sandbox
        + "\",\n              \"tc-deploy-env\": \""@ + env + "\",\n              \"api_call\": true\n           }}"@
}

impl Circle {
    /// A client for project `repo` that authenticates with `token` (read
    /// from the environment by the caller).
    pub fn init(repo: &str, token: String) -> (c: Circle)
        ensures
            c.repo@ == repo@,
            c.token@ == token@,
    {
        Circle { repo: String::from_str(repo), token }
    }

    /// The pipeline endpoint of the project.
    pub fn url(&self) -> (r: String)
        ensures
            r@ == "https://circleci.com/api/v2/project/github/Informed/"@ + self.repo@
                + "/pipeline"@,
    {
        let mut r = String::from_str("https://circleci.com/api/v2/project/github/Informed/");
        r.append(self.repo.as_str());
        r.append("/pipeline");
        r
    }

    /// The request headers, as (name, value) pairs.
    pub fn headers(&self) -> (h: Vec<(String, String)>)
        ensures
            h.len() == 4,
            h[0].0@ == "circle-token"@,
            h[0].1@ == self.token@,
            h[1].0@ == "content-type"@,
            h[1].1@ == "application/json"@,
            h[2].0@ == "accept"@,
            h[2].1@ == "application/json"@,
            h[3].0@ == "user-agent"@,
            h[3].1@ == "libcurl/7.64.1 r-curl/4.3.2 httr/1.4.2"@,
    {
        let mut h: Vec<(String, String)> = Vec::new();
        h.push((String::from_str("circle-token"), self.token.clone()));
        h.push((String::from_str("content-type"), String::from_str("application/json")));
        h.push((String::from_str("accept"), String::from_str("application/json")));
        h.push(
            (
                String::from_str("user-agent"),
                String::from_str("libcurl/7.64.1 r-curl/4.3.2 httr/1.4.2"),
            ),
        );
        h
    }

    /// The page that shows pipeline number `num` of the project.
    pub fn workflow_url(&self, num: &str) -> (r: String)
        ensures
            r@ == "https://app.circleci.com/pipelines/github/Informed/"@ + self.repo@ + "/"@
                + num@,
    {
        let mut r = String::from_str("https://app.circleci.com/pipelines/github/Informed/");
        r.append(self.repo.as_str());
        r.append("/");
        r.append(num);
        r
    }
}

/// The pipeline parameters that ask for a release of service `prefix`.
pub fn release_payload(prefix: &str, suffix: &str) -> (r: String)
    ensures
        r@ == release_payload_text(prefix@, suffix@),
{
    let mut r = String::from_str("\n           {\n             \"branch\": \"main\",\n             \"parameters\": {\n              \"tc-release-version-suffix\": \"");
    r.append(suffix);
    r.append("\",\n              \"tc-release-service\": \"");
    r.append(prefix);
    r.append("\",\n              \"api_call\": true\n           }}");
    r
}

/// The pipeline parameters that ask for a deploy of service `prefix`.
pub fn deploy_payload(env: &str, sandbox: &str, prefix: &str, version: &str) -> (r: String)
    ensures
        r@ == deploy_payload_text(prefix@, version@, sandbox@, env@),
{
    let mut r = String::from_str("\n           {\n             \"branch\": \"main\",\n             \"parameters\": {\n              \"tc-deploy-service\": \"");
    r.append(prefix);
    r.append("\",\n              \"tc-deploy-version\": \"");
    r.append(version);
    r.append("\",\n              \"tc-deploy-sandbox\": \"");
    r.append(sandbox);
    r.append("\",\n              \"tc-deploy-env\": \"");
    r.append(env);
    r.append("\",\n              \"api_call\": true\n           }}");
    r
}

} // verus!
