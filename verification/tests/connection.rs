//! The connection test, step by step, and its panel.

use kubyl_kubeconfig::certs::{certificates, data_from_pem, Moment};
use kubyl_kubeconfig::conntest::{
    before, ca_source, describe_connect, expiry_note, judge_credentials, judge_network, median,
    proxy_for, question_for, rejected_token, summary_line, target_for, trust_from,
    unauthorized_message, Answer, Attempt, AuthMethod, CaSource, ConnectError, ContextInfo,
    ExecSummary, Failure, Lookup, Outcome, Plugin, Question,
};
use kubyl_kubeconfig::editor_view::Tone;
use kubyl_kubeconfig::model::Doc;
use kubyl_kubeconfig::panel::{
    badge, capitalize, check_mark, fix_row, namespaces, panel, step_row, truncate, FixRow,
};
use kubyl_kubeconfig::report::{Check, Findings, Fix, Latency, Report, Status, StepKind};
use kubyl_kubeconfig::state::SignInState;
use kubyl_kubeconfig::test_run::{
    accesses, namespace_for, ClientOutcome, Run, ServerVersion, Stage, TlsOutcome, UserInfo,
};
use kubyl_kubeconfig::tls::{classify, verifies_at, Handshake, Target, Trust, VerifyError};
use kubyl_kubeconfig::validate::Severity;
use kubyl_kubeconfig::value::{Object, Value};
use kubyl_kubeconfig::widgets::{severity_style, status_icon, Symbol};

const CA: &str = "\
-----BEGIN CERTIFICATE-----\n\
MIIBVzCB/aADAgECAhQtKUdj9BMVO4ngZSsKs4LDDY97gjAKBggqhkjOPQQDAjAY\n\
MRYwFAYDVQQDDA1rdWJ5bC10ZXN0LWNhMCAXDTI0MDEwMTAwMDAwMFoYDzIxMjQw\n\
MTAxMDAwMDAwWjAYMRYwFAYDVQQDDA1rdWJ5bC10ZXN0LWNhMFkwEwYHKoZIzj0C\n\
AQYIKoZIzj0DAQcDQgAE+wLD7nnCO0Gwhw1qHOgigr4BIeaqbHRFh+PMQw0ErMkB\n\
jqvM9Qw5PrBdAKu1bWxw8dFF45i9eUr4W2ATX8tWFKMjMCEwDwYDVR0TAQH/BAUw\n\
AwEB/zAOBgNVHQ8BAf8EBAMCAYYwCgYIKoZIzj0EAwIDSQAwRgIhAJH6XD/69AAd\n\
dHWoF02GcarJBM5fboIKc92bAmoF8ZfsAiEA9JxFe9BRF8+4QqxRfTWNOSkTCLFu\n\
+dcJnwHSvE2Q8NE=\n\
-----END CERTIFICATE-----\n\
";

const OTHER_CA: &str = "\
-----BEGIN CERTIFICATE-----\n\
MIIBWDCB/6ADAgECAhQiQdmUANAI9Wj6NQSCFFZZ1uhK1TAKBggqhkjOPQQDAjAZ\n\
MRcwFQYDVQQDDA5rdWJ5bC1vdGhlci1jYTAgFw0yNDAxMDEwMDAwMDBaGA8yMTI0\n\
MDEwMTAwMDAwMFowGTEXMBUGA1UEAwwOa3VieWwtb3RoZXItY2EwWTATBgcqhkjO\n\
PQIBBggqhkjOPQMBBwNCAARX8ytjpvTKdlPg9cjEQkHlFUN6NYrpId+gtzoEQ1jb\n\
CRoGrY8UMqr9Y+kSwZjb1wS6fBDR2h3jnyyG3aooR840oyMwITAPBgNVHRMBAf8E\n\
BTADAQH/MA4GA1UdDwEB/wQEAwIBhjAKBggqhkjOPQQDAgNIADBFAiBBBTGKVOOS\n\
4kG+V0UcG14sElujfrp+xCgr3d4kSO8iEwIhAPG8N2V8QNrIMQnArRsWKoBQ9zhH\n\
ndyuieTJP82F7qnH\n\
-----END CERTIFICATE-----\n\
";

const SERVER: &str = "\
-----BEGIN CERTIFICATE-----\n\
MIIBiTCCAS6gAwIBAgIUW8COoFcWVNUV0n+ubJLoWEl/juUwCgYIKoZIzj0EAwIw\n\
GDEWMBQGA1UEAwwNa3VieWwtdGVzdC1jYTAgFw0yNDAxMDEwMDAwMDBaGA8yMTI0\n\
MDEwMTAwMDAwMFowGTEXMBUGA1UEAwwOa3ViZS1hcGlzZXJ2ZXIwWTATBgcqhkjO\n\
PQIBBggqhkjOPQMBBwNCAARoHV5tYsh3VYWc95tEFPJRuG4w++r74gNs572G3Blv\n\
pnYDe4JPoOg8X6lIRkDJfRAlhiosHWXT91s8HHuyIQ6+o1MwUTAMBgNVHRMBAf8E\n\
AjAAMBMGA1UdJQQMMAoGCCsGAQUFBwMBMCwGA1UdEQQlMCOCCWxvY2FsaG9zdIcE\n\
fwAAAYcQAAAAAAAAAAAAAAAAAAAAATAKBggqhkjOPQQDAgNJADBGAiEAsJUacXwB\n\
TPkJGqkHQ+n+GAZewoBa7JrBw+vyTTo2LFQCIQDogPM8BL0xPTe3DYrLwc1hghq4\n\
r9ZAIMVw4aCQtDcxFg==\n\
-----END CERTIFICATE-----\n\
";

fn now() -> Moment {
    Moment { second: 1_767_225_600, nanosecond: 0 }
}

fn later(seconds: i64) -> Option<Moment> {
    Some(Moment { second: 1_767_225_600 + seconds, nanosecond: 0 })
}

fn object(fields: Vec<(&str, Value)>) -> Value {
    Value::Object(Object::of(fields.into_iter().map(|(k, v)| (k.to_string(), v)).collect()))
}

fn named(name: &str, key: &str, body: Value) -> Value {
    Value::Array(vec![object(vec![("name", Value::text(name)), (key, body)])])
}

fn doc(server: &str, ca: &str, user: Vec<(&str, Value)>) -> Doc {
    Doc::parse(object(vec![
        (
            "clusters",
            named(
                "c",
                "cluster",
                object(vec![
                    ("server", Value::text(server)),
                    ("certificate-authority-data", Value::Str(data_from_pem(ca))),
                ]),
            ),
        ),
        (
            "contexts",
            named(
                "ctx",
                "context",
                object(vec![("cluster", Value::text("c")), ("user", Value::text("u"))]),
            ),
        ),
        ("users", named("u", "user", object(user))),
    ]))
    .unwrap()
}

fn info(server: &str, auth: AuthMethod) -> ContextInfo {
    ContextInfo {
        name: "ctx".to_string(),
        cluster: "c".to_string(),
        user: Some("u".to_string()),
        server: Some(server.to_string()),
        tls_server_name: None,
        proxy_url: None,
        insecure_skip_tls_verify: false,
        namespace: None,
        auth,
        error: None,
    }
}

fn plugin() -> AuthMethod {
    AuthMethod::Exec(ExecSummary {
        command: "kubyl-missing-plugin-zzz".to_string(),
        subcommands: Vec::new(),
    })
}

/// A handshake with the fixture server, judged by what the kubeconfig trusts.
fn handshake(doc: &Doc, info: &ContextInfo, target: &Target) -> TlsOutcome {
    let trusted = trust_from(&ca_source(doc, info), &Err("unread".to_string()));
    let (trust, label) = match trusted {
        Ok(t) => t,
        Err(e) => return TlsOutcome::Unreadable(e),
    };
    let served = certificates(SERVER).unwrap();
    let ca = match &trust {
        Trust::Pem(pem) => certificates(pem).unwrap().remove(0),
        _ => unreachable!(),
    };
    let result = if verifies_at(&ca, &served, target, 1_767_225_600) {
        Ok(Handshake { protocol: "TLS 1.3".to_string(), chain: served, millis: 3 })
    } else {
        Err((classify(Some(&VerifyError::UnknownIssuer), "", target, &served), served))
    };
    TlsOutcome::Checked { insecure: false, label, result }
}

/// A test up to its credentials, against the fixture server.
fn run_test(doc: &Doc, info: ContextInfo, lookup: Lookup, allow_exec: bool, answer: Answer) -> Run {
    let mut run = Run::begin("ctx", now());
    let target = match target_for(&Ok(Some(copy(&info))), "ctx") {
        Ok(target) => target,
        Err(e) => {
            run.refuse(e, 0, 0);
            return run;
        }
    };
    run.start(0);
    if !run.network(judge_network(&target, &lookup, true), 1, 1) {
        return run;
    }
    run.start(1);
    if !run.tls(&handshake(doc, &info, &target), 2, 3) {
        return run;
    }
    run.start(3);
    run.credentials(judge_credentials(doc, &info, allow_exec, &answer, now()), 4, 7);
    run
}

fn copy(i: &ContextInfo) -> ContextInfo {
    info(i.server.as_deref().unwrap(), AuthMethod::Token)
}

fn connected() -> Lookup {
    Lookup::Found(vec![Attempt { addr: "127.0.0.1:6443".to_string(), outcome: Outcome::Connected }])
}

fn token(text: &str) -> Vec<(&'static str, Value)> {
    vec![("token", Value::text(text))]
}

#[test]
fn a_wrong_ca_fails_at_tls_before_credentials_are_sent() {
    let server = "https://127.0.0.1:6443";
    let doc = doc(server, OTHER_CA, token("s3cret"));
    let run = run_test(&doc, info(server, AuthMethod::Token), connected(), false, Answer::Expiry(None));
    let report = run.report;
    assert!(report.done && !report.passed());
    assert_eq!(report.step(StepKind::Network).status, Status::Passed);
    let tls = report.step(StepKind::Tls);
    assert_eq!(tls.status, Status::Fail);
    assert_eq!(tls.fix, Some(Fix::FetchCa));
    assert!(tls.error.as_deref().unwrap().contains("unknown authority"));
    assert_eq!(tls.lines, ["the server presented kube-apiserver issued by kubyl-test-ca"]);
    assert_eq!(report.step(StepKind::Credentials).status, Status::Skipped);
    assert_eq!(report.step(StepKind::Credentials).lines, ["Skipped: no credentials were sent"]);
    assert!(report.summary().starts_with("Failed at TLS"));
    assert_eq!(run.stage, Stage::Done);
    assert_eq!(report.failure().unwrap().kind, StepKind::Tls);
}

#[test]
fn exec_plugins_need_consent_and_missing_ones_say_so() {
    let server = "https://127.0.0.1:6443";
    let exec = || {
        vec![(
            "exec",
            object(vec![
                ("apiVersion", Value::text("client.authentication.k8s.io/v1")),
                ("command", Value::text("kubyl-missing-plugin-zzz")),
                ("installHint", Value::text("brew install kubyl-missing-plugin\n")),
            ]),
        )]
    };
    let document = doc(server, CA, exec());
    assert!(matches!(question_for(&document, &info(server, plugin()), false), Question::Nothing));
    let run = run_test(&document, info(server, plugin()), connected(), false, Answer::Nothing);
    let step = run.report.step(StepKind::Credentials);
    assert_eq!(step.status, Status::Fail);
    assert!(step.error.as_deref().unwrap().contains("needs your OK"));

    assert!(matches!(question_for(&document, &info(server, plugin()), true), Question::RunPlugin));
    let missing = Answer::Plugin(Plugin::Failed {
        message: "`kubyl-missing-plugin-zzz` was not found".to_string(),
        stderr: None,
    });
    let run = run_test(&document, info(server, plugin()), connected(), true, missing);
    let report = run.report;
    let step = report.step(StepKind::Credentials);
    assert_eq!(step.status, Status::Fail, "{report:?}");
    assert!(step.error.as_deref().unwrap().contains("isn't installed"), "{step:?}");
    assert_eq!(step.fix, Some(Fix::InstallHint("brew install kubyl-missing-plugin".into())));
    assert_eq!(report.step(StepKind::Tls).status, Status::Passed);
}

#[test]
fn unreachable_servers_fail_at_the_network_step() {
    let server = "https://127.0.0.1:1";
    let refused = Lookup::Found(vec![Attempt {
        addr: "127.0.0.1:1".to_string(),
        outcome: Outcome::Refused,
    }]);
    let document = doc(server, CA, token("x"));
    let method = || AuthMethod::Token;
    let run = run_test(&document, info(server, method()), refused, false, Answer::Expiry(None));
    let step = run.report.step(StepKind::Network);
    assert_eq!(step.status, Status::Fail);
    assert!(step.error.as_deref().unwrap().contains("refused"), "{step:?}");
    let server = "ftp://nope";
    let document = doc(server, CA, token("x"));
    let run = run_test(&document, info(server, method()), connected(), false, Answer::Expiry(None));
    assert_eq!(run.report.step(StepKind::Network).status, Status::Fail);
}

/// A run that got through its credentials with a token.
fn signed_in() -> Run {
    let server = "https://127.0.0.1:6443";
    let document = doc(server, CA, token("t"));
    let i = info(server, AuthMethod::Token);
    let mut run = run_test(&document, i, connected(), false, Answer::Expiry(later(600)));
    run.client(&ClientOutcome::Built, now(), 5, 9);
    run
}

fn version() -> ServerVersion {
    ServerVersion { git_version: "v1.33.1".to_string(), platform: "linux/amd64".to_string() }
}

#[test]
fn a_test_runs_to_its_end() {
    let mut run = signed_in();
    assert_eq!(run.stage, Stage::Api);
    assert_eq!(run.report.step(StepKind::Tls).lines.len(), 2);
    assert_eq!(
        run.report.step(StepKind::Tls).lines[0],
        "TLS 1.3 · verified by the kubeconfig's CA \"kubyl-test-ca\""
    );
    let credentials = run.report.step(StepKind::Credentials);
    assert_eq!(credentials.status, Status::Passed);
    assert!(credentials.lines[0].ends_with(" · valid for 10 min"), "{credentials:?}");
    run.start(9);
    assert_eq!(run.report.step(StepKind::Api).status, Status::Running);
    assert_eq!(run.report.summary(), "Testing…");
    assert_eq!(badge(&run.report), Status::Running);
    assert!(run.api(&Ok(version()), 6, 15));
    run.start(15);
    let user = UserInfo {
        username: Some("admin".to_string()),
        groups: Some(vec!["system:masters".to_string(), "dev".to_string()]),
    };
    assert!(run.auth(&Ok(user), (String::new(), None), 7, 22));
    assert_eq!(
        run.report.step(StepKind::Auth).lines,
        ["admin", "groups: system:masters, dev"]
    );
    run.start(22);
    let listed = Some(vec![Some("a".to_string()), None, Some("b".to_string())]);
    run.permissions("default", Some(true), Some(true), Some(false), listed, 8, 30);
    let step = run.report.step(StepKind::Permissions);
    assert_eq!(step.status, Status::Passed);
    let labels: Vec<&str> = step.checks.iter().map(|c| c.label.as_str()).collect();
    assert_eq!(
        labels,
        ["list namespaces (2)", "list pods in default", "cluster-admin (not required)"]
    );
    assert_eq!(run.report.namespaces.as_ref().unwrap(), &["a", "b"]);
    run.start(30);
    let median = median(&vec![30, 10, 20]).unwrap();
    run.latency(Some(Latency { nanos: median, text: "20 ms".to_string() }), 3, 9, 39);
    assert_eq!(run.stage, Stage::Done);
    assert!(run.report.done && run.report.passed());
    assert_eq!(run.report.summary(), "Connected · 20 ms · v1.33.1 · as admin");
    assert_eq!(badge(&run.report), Status::Passed);
    assert_eq!(run.report.millis, 39);
}

#[test]
fn a_proxy_skips_the_network_and_tls_steps() {
    let mut run = Run::begin("ctx", now());
    run.through_proxy("http://proxy:3128", 1, 2, 3);
    assert_eq!(run.stage, Stage::Credentials);
    assert_ne!(run.report.step(StepKind::Network).status, Status::Fail);
    assert!(run.report.step(StepKind::Network).lines[0].contains("http://proxy:3128"));
    let mut i = info("https://x", AuthMethod::Token);
    assert_eq!(proxy_for(&i, Some("env".to_string())).as_deref(), Some("env"));
    i.proxy_url = Some("own".to_string());
    assert_eq!(proxy_for(&i, Some("env".to_string())).as_deref(), Some("own"));
}

#[test]
fn rejected_credentials_end_the_test() {
    // `/version` says 401: the authentication step tells why.
    let mut run = signed_in();
    run.start(9);
    let rejected = || Failure::Api {
        code: 401,
        error: ConnectError::Auth { message: "401".to_string(), detail: None },
    };
    assert!(run.api(&Err(rejected()), 1, 10));
    assert!(run.unauthorized);
    run.start(10);
    let i = info("https://x", AuthMethod::Token);
    let why = unauthorized_message(&i, later(-60), now());
    assert_eq!(why.1, Some(Fix::ReplaceToken));
    assert!(why.0.starts_with("the token expired on "), "{}", why.0);
    assert!(!run.auth(&Err(Failure::Unauthorized), why, 1, 11));
    assert!(!run.report.passed());
    assert!(run.report.summary().starts_with("Failed at "));

    // Answers that aren't rejections.
    let mut run = signed_in();
    run.start(9);
    assert!(run.api(&Ok(version()), 1, 10));
    run.start(10);
    let missing = Failure::Api { code: 404, error: ConnectError::Config("x".to_string()) };
    assert!(run.auth(&Err(missing), (String::new(), None), 1, 11));
    assert!(run.report.step(StepKind::Auth).lines[0].contains("SelfSubjectReview"));
    run.start(11);
    run.permissions("ns", Some(false), None, None, None, 1, 12);
    assert_eq!(run.report.step(StepKind::Permissions).status, Status::Warn);
    assert_eq!(
        run.report.step(StepKind::Permissions).lines,
        ["this user can't list namespaces or pods in ns"]
    );
    run.start(12);
    run.latency(None, 0, 1, 13);
    assert!(run.report.passed());

    let mut run = signed_in();
    run.start(9);
    assert!(!run.api(&Err(Failure::Timeout), 1, 10));
    assert_eq!(
        run.report.step(StepKind::Api).error.as_deref(),
        Some("the API server didn't answer within 15 s")
    );
}

#[test]
fn clients_can_fail() {
    let server = "https://127.0.0.1:6443";
    let document = doc(server, CA, Vec::new());
    let start = || {
        let i = info(server, AuthMethod::Oidc("login.example".to_string()));
        run_test(&document, i, connected(), false, Answer::Nothing)
    };
    let mut run = start();
    assert_eq!(run.lines, ["OIDC · login.example"]);
    assert!(!run.client(&ClientOutcome::SignInRequired, now(), 1, 9));
    let step = run.report.step(StepKind::Credentials);
    assert_eq!(step.fix, Some(Fix::SignIn));
    assert_eq!(step.lines, ["OIDC · login.example"]);
    let mut run = start();
    assert!(!run.client(&ClientOutcome::OidcFailed("no".to_string()), now(), 1, 9));
    let mut run = start();
    let denied = ConnectError::Forbidden("no".to_string());
    assert!(!run.client(&ClientOutcome::Failed(denied), now(), 1, 9));
    assert_eq!(
        run.report.step(StepKind::Credentials).error.as_deref(),
        Some("forbidden: no")
    );
    let mut run = start();
    assert!(run.client(&ClientOutcome::Oidc(later(7200)), now(), 1, 9));
    assert_eq!(
        run.report.step(StepKind::Credentials).lines[1],
        "ID token · valid until 2026-01-01 02:00 UTC"
    );
}

#[test]
fn networks_are_judged() {
    let target = Target::parse("https://api.example:6443", None).unwrap();
    let attempt = |addr: &str, outcome: Outcome| Attempt { addr: addr.to_string(), outcome };
    let judge = |lookup: Lookup, numeric: bool| judge_network(&target, &lookup, numeric);
    assert_eq!(judge(Lookup::TimedOut, false).err().unwrap(), "looking up api.example timed out");
    assert_eq!(
        judge(Lookup::Failed("no".to_string()), false).err().unwrap(),
        "couldn't resolve api.example: no"
    );
    assert_eq!(judge(Lookup::Found(Vec::new()), false).err().unwrap(), "no addresses");
    let tried = Lookup::Found(vec![
        attempt("1.1.1.1:6443", Outcome::Refused),
        attempt("2.2.2.2:6443", Outcome::Failed("unreachable".to_string())),
    ]);
    assert_eq!(
        judge(tried, false).err().unwrap(),
        "couldn't connect to 2.2.2.2:6443: unreachable"
    );
    let tried = Lookup::Found(vec![
        attempt("1.1.1.1:6443", Outcome::TimedOut),
        attempt("2.2.2.2:6443", Outcome::Connected),
    ]);
    assert_eq!(judge(tried, false).unwrap(), "api.example → 2.2.2.2:6443");
    let tried = Lookup::Found(vec![attempt("1.1.1.1:6443", Outcome::Connected)]);
    assert_eq!(judge(tried, true).unwrap(), "api.example:6443");
}

#[test]
fn targets_need_a_server() {
    let err = |found: Result<Option<ContextInfo>, String>| target_for(&found, "ctx").err().unwrap();
    assert_eq!(err(Err("broken".to_string())), "broken");
    assert_eq!(err(Ok(None)), "no context named \"ctx\"");
    let mut i = info("https://x", AuthMethod::Token);
    i.error = Some("no such cluster".to_string());
    assert_eq!(err(Ok(Some(i))), "no such cluster");
    let mut i = info("", AuthMethod::Token);
    assert_eq!(err(Ok(Some(info("", AuthMethod::Token)))), "the cluster has no server URL");
    i.server = None;
    assert_eq!(err(Ok(Some(i))), "the cluster has no server URL");
    assert_eq!(namespace_for(&None), "default");
    assert_eq!(namespace_for(&Some(String::new())), "default");
    assert_eq!(namespace_for(&Some("x".to_string())), "x");
    let asked = accesses("ns");
    let resources: Vec<&str> = asked.iter().map(|a| a.resource).collect();
    assert_eq!(resources, ["namespaces", "pods", "*"]);
    assert_eq!(asked[1].namespace.as_deref(), Some("ns"));
    assert_eq!((asked[2].verb, asked[2].group), ("*", "*"));
}

#[test]
fn credentials_are_judged() {
    let server = "https://127.0.0.1:6443";
    let judge = |user: Vec<(&str, Value)>, auth: AuthMethod, answer: Answer| {
        judge_credentials(&doc(server, CA, user), &info(server, auth), true, &answer, now())
    };
    let (status, lines) = judge(Vec::new(), AuthMethod::Anonymous, Answer::Nothing).unwrap();
    assert_eq!((status, lines[0].as_str()), (Status::Passed, "no credentials: requests are anonymous"));
    assert_eq!(judge(Vec::new(), AuthMethod::Basic, Answer::Nothing).unwrap().0, Status::Warn);
    let gcp = AuthMethod::Provider("gcp".to_string());
    assert_eq!(judge(Vec::new(), gcp, Answer::Nothing).unwrap().0, Status::Warn);
    let openshift = judge(Vec::new(), AuthMethod::OpenShift, Answer::Nothing).unwrap();
    assert_eq!(openshift.1, ["OpenShift OAuth token"]);
    let file = || vec![("tokenFile", Value::text("/t"))];
    let found = judge(file(), AuthMethod::TokenFile, Answer::Exists(Ok(()))).unwrap();
    assert_eq!(found.1, ["token file /t"]);
    let gone = judge(file(), AuthMethod::TokenFile, Answer::Exists(Err("gone".to_string())));
    assert_eq!(gone.err().unwrap().error.as_deref(), Some("can't read the token file /t: gone"));
    let cert = || vec![("client-certificate-data", Value::Str(data_from_pem(CA)))];
    let (status, lines) = judge(cert(), AuthMethod::ClientCertificate, Answer::Nothing).unwrap();
    assert_eq!(status, Status::Passed);
    assert!(lines[0].contains("kubyl-test-ca"), "{lines:?}");
    let expired = judge(token("t"), AuthMethod::Token, Answer::Expiry(later(-3600)));
    assert!(expired.is_err() || expired.unwrap().0 != Status::Passed);
    let exec = || {
        vec![("exec", object(vec![("command", Value::text("kubyl-missing-plugin-zzz"))]))]
    };
    let ok = judge(exec(), plugin(), Answer::Plugin(Plugin::Token(later(120)))).unwrap();
    assert!(ok.1[0].ends_with(" · valid for 2 min"), "{:?}", ok.1);
    let other = judge(exec(), plugin(), Answer::Plugin(Plugin::Other("odd".to_string())));
    assert_eq!(other.err().unwrap().error.as_deref(), Some("odd"));
    let none = judge(Vec::new(), plugin(), Answer::Nothing);
    assert_eq!(none.err().unwrap().error.as_deref(), Some("the user has no exec config"));
}

#[test]
fn expiries_are_noted() {
    assert_eq!(expiry_note(None, now()), "");
    assert_eq!(expiry_note(later(-60), now()), " · expired 2025-12-31 23:59 UTC");
    assert_eq!(expiry_note(later(-59), now()), " · valid for 0 min");
    assert_eq!(expiry_note(later(7199), now()), " · valid for 119 min");
    assert_eq!(expiry_note(later(7200), now()), " · valid until 2026-01-01 02:00 UTC");
}

#[test]
fn trust_says_where_it_comes_from() {
    let label = |source: CaSource, file: Result<String, String>| trust_from(&source, &file);
    let unread = || Err("unread".to_string());
    assert_eq!(label(CaSource::System, unread()).unwrap().1, "verified by the system trust store");
    assert_eq!(
        label(CaSource::Insecure, unread()).unwrap().1,
        "not verified (insecure-skip-tls-verify)"
    );
    let file = label(CaSource::File("/ca".to_string()), Ok("junk".to_string())).unwrap();
    assert_eq!(file.1, "verified by the kubeconfig's CA");
    assert_eq!(
        label(CaSource::File("/ca".to_string()), unread()).err().unwrap(),
        "can't read the CA file /ca: unread"
    );
    assert_eq!(label(CaSource::Data("%".to_string()), unread()).err().unwrap(), "not valid base64");
    let mut i = info("https://x", AuthMethod::Token);
    i.insecure_skip_tls_verify = true;
    assert!(matches!(ca_source(&doc("https://x", CA, Vec::new()), &i), CaSource::Insecure));
    i.insecure_skip_tls_verify = false;
    i.cluster = "gone".to_string();
    assert!(matches!(ca_source(&doc("https://x", CA, Vec::new()), &i), CaSource::System));
}

#[test]
fn rejections_name_the_credentials() {
    let say = |auth: AuthMethod| unauthorized_message(&info("https://x", auth), None, now());
    assert_eq!(say(AuthMethod::Token).1, Some(Fix::ReplaceToken));
    assert!(say(AuthMethod::TokenFile).0.contains("token file"));
    assert!(say(plugin()).0.contains("`kubyl-missing-plugin-zzz`"));
    assert!(say(AuthMethod::ClientCertificate).0.contains("client CA"));
    assert_eq!(say(AuthMethod::Oidc("h".to_string())).1, Some(Fix::SignIn));
    assert!(say(AuthMethod::Anonymous).0.contains("anonymous"));
    assert!(say(AuthMethod::Basic).0.contains("(401)"));
    let document = doc("https://x", CA, token("t"));
    assert_eq!(
        rejected_token(&document, &info("https://x", AuthMethod::Token)).as_deref(),
        Some("t")
    );
    assert_eq!(rejected_token(&document, &info("https://x", AuthMethod::Basic)), None);
}

#[test]
fn failures_are_described() {
    let connect = |e: ConnectError| describe_connect(&e).0;
    assert_eq!(connect(ConnectError::SignInRequired), "sign-in required");
    assert_eq!(connect(ConnectError::Unreachable("x".to_string())), "x");
    assert_eq!(
        connect(ConnectError::Config("x".to_string())),
        "the kubeconfig can't be used: x"
    );
    let auth = ConnectError::Auth { message: "m".to_string(), detail: Some("d".to_string()) };
    assert_eq!(describe_connect(&auth), ("m".to_string(), Some("d".to_string())));
    assert_eq!(Failure::Kube(auth).describe().1.as_deref(), Some("d"));
    assert!(Failure::Unauthorized.describe().0.contains("401"));
    assert_eq!(
        summary_line(&ExecSummary {
            command: "aws".to_string(),
            subcommands: vec!["eks".to_string(), "get-token".to_string()],
        }),
        "aws eks get-token"
    );
    assert!(before(now(), later(1).unwrap()) && !before(now(), now()));
}

#[test]
fn the_median_is_the_upper_middle_sample() {
    assert_eq!(median(&Vec::new()), None);
    assert_eq!(median(&vec![5]), Some(5));
    assert_eq!(median(&vec![4, 1, 3, 2]), Some(3));
}

#[test]
fn reports_go_step_by_step() {
    let mut report = Report::starting_at("ctx", now());
    assert_eq!(report.steps.len(), 7);
    assert_eq!(StepKind::ALL.map(|k| k.position()), [0, 1, 2, 3, 4, 5, 6]);
    assert_eq!(StepKind::Tls.title(), "TLS");
    report.start(StepKind::Network, 1);
    assert_eq!(report.step(StepKind::Network).status, Status::Running);
    report.finish(StepKind::Network, Status::Passed, Findings::of_line("ok".to_string()), 2, 3);
    assert_eq!(report.step(StepKind::Network).millis, Some(2));
    report.fail_with(StepKind::Tls, Findings::of_error("no".to_string()), "Skipped: why", 4, 7);
    assert_eq!(report.failure().unwrap().error.as_deref(), Some("no"));
    assert_eq!(report.step(StepKind::Latency).lines, ["Skipped: why"]);
    assert_eq!(report.millis, 7);
    assert!(!report.passed());
}

#[test]
fn the_panel_folds_skipped_steps() {
    let mut run = Run::begin("ctx", now());
    run.refuse("bad server".to_string(), 1, 2);
    let shown = panel(&run.report, Some("just now"), "2 ms");
    assert_eq!(shown.timing, "just now · 2 ms");
    assert!(shown.can_rerun);
    assert_eq!(shown.rows[0], 0);
    let (why, what) = shown.skipped.unwrap();
    assert!(why.starts_with("Skipped"), "{why}");
    assert!(what.contains("TLS · "), "{what}");
    assert_eq!(panel(&Report::new("x"), None, "").timing, "testing…");
    let row = step_row(run.report.step(StepKind::Network));
    assert_eq!(row.error.as_deref(), Some("Bad server"));
    assert!(row.shows_time && !row.dim);
    assert_eq!(capitalize("ärger"), "Ärger");
    assert_eq!(capitalize(""), "");
    assert_eq!(truncate("äöü", 2), "äö…");
    assert_eq!(truncate("äö", 2), "äö");
    assert_eq!(badge(&run.report), Status::Fail);
}

#[test]
fn checks_and_fixes_are_shown() {
    let mark = |allowed: Option<bool>, optional: bool| {
        check_mark(&Check { allowed, label: String::new(), optional })
    };
    assert_eq!(mark(Some(true), false), ("✓", Tone::Green));
    assert_eq!(mark(Some(false), true), ("—", Tone::Faint));
    assert_eq!(mark(Some(false), false), ("✗", Tone::Red));
    assert_eq!(mark(None, false), ("?", Tone::Faint));
    assert_eq!(status_icon(Status::Passed), (Some(Symbol::Check), Tone::Green));
    assert_eq!(status_icon(Status::Running), (Some(Symbol::Refresh), Tone::Accent));
    assert_eq!(status_icon(Status::Skipped), (None, Tone::Faint));
    assert_eq!(severity_style(Severity::Warning), (Tone::Yellow, Symbol::Warning));
    assert!(matches!(fix_row(&Fix::FetchCa, None, false), FixRow::FetchCa));
    assert!(matches!(fix_row(&Fix::ReplaceToken, None, false), FixRow::EditToken));
    assert!(matches!(fix_row(&Fix::SignIn, None, false), FixRow::Nothing));
    assert!(matches!(fix_row(&Fix::SignIn, None, true), FixRow::SignIn(None)));
    let waiting = SignInState::WaitingForBrowser { url: "u".to_string() };
    assert!(matches!(fix_row(&Fix::SignIn, Some(&waiting), true), FixRow::Waiting(u) if u == "u"));
    let failed = SignInState::Failed("e".to_string());
    assert!(matches!(fix_row(&Fix::SignIn, Some(&failed), true), FixRow::SignIn(Some(_))));
    let hint = Fix::InstallHint("h".to_string());
    assert!(matches!(fix_row(&hint, None, true), FixRow::Hint(h) if h == "h"));
    let names: Vec<String> = (0..14).map(|i| format!("n{i}")).collect();
    let shown = namespaces(&names);
    assert_eq!(shown.title, "NAMESPACES · 14");
    assert_eq!(shown.shown.len(), 12);
    assert_eq!(shown.more.as_deref(), Some("+2 more"));
    assert_eq!(namespaces(&names[..12].to_vec()).more, None);
}
