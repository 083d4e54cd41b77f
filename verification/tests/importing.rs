//! Kubeconfigs from service accounts and cloud CLIs, and moving contexts between files.

use kubyl_kubeconfig::certs::Moment;
use kubyl_kubeconfig::cloud::{
    self, cloud_command, explain, missing_fields, preview, Cloud, CloudOutcome,
};
use kubyl_kubeconfig::fields::get_str;
use kubyl_kubeconfig::import::{
    service_account_doc, Grant, Role, SaAnswer, SaCall, SaRequest, SaRun, SaToken, TokenKind,
};
use kubyl_kubeconfig::json_text::to_json;
use kubyl_kubeconfig::locations::{is_listed, is_same_path, resolve};
use kubyl_kubeconfig::model::{Doc, Kind};
use kubyl_kubeconfig::moves::{
    copy_into, copy_stem, copy_targets, copy_title, export, finish_copy, merge, merge_message,
    replace_source, save_copy, source_kind, split, split_message, split_parts, SourceChange,
    SourceFiles, SourceKind,
};
use kubyl_kubeconfig::sa_dialog::{self, duration_choices, note, SaChoices, SaForm, SaSubject};
use kubyl_kubeconfig::value::{Object, Value};

fn value(v: &serde_json::Value) -> Value {
    match v {
        serde_json::Value::Null => Value::Null,
        serde_json::Value::Bool(b) => Value::Bool(*b),
        serde_json::Value::Number(n) => Value::Number(n.to_string()),
        serde_json::Value::String(s) => Value::Str(s.clone()),
        serde_json::Value::Array(items) => Value::Array(items.iter().map(value).collect()),
        serde_json::Value::Object(o) => {
            Value::Object(Object::of(o.iter().map(|(k, v)| (k.clone(), value(v))).collect()))
        }
    }
}

fn doc(text: &str) -> Doc {
    Doc::parse(value(&serde_json::from_str(text).unwrap())).unwrap()
}

fn values(pairs: &[(&str, &str)]) -> Vec<(String, String)> {
    pairs.iter().map(|(k, v)| (k.to_string(), v.to_string())).collect()
}

#[test]
fn service_account_kubeconfigs_make_relative_paths_absolute() {
    let source = doc(
        r#"{"clusters": [{"name": "kind", "cluster": {"server": "https://127.0.0.1:6443", "certificate-authority": "certs/ca.pem"}}],
            "contexts": [{"name": "kind-dev", "context": {"cluster": "kind", "user": "admin"}}],
            "users": [{"name": "admin", "user": {"token": "x"}}]}"#,
    );
    let doc =
        service_account_doc(&source, "/home/me/.kube", "kind-dev", "ci", "deployer", "t0k").unwrap();
    assert_eq!(
        get_str(doc.body(Kind::Cluster, "kind").unwrap(), &["certificate-authority"]),
        "/home/me/.kube/certs/ca.pem"
    );
}

#[test]
fn service_account_kubeconfigs_copy_the_cluster_only() {
    let source = doc(
        r#"{"clusters": [{"name": "kind", "cluster": {"server": "https://127.0.0.1:6443", "certificate-authority-data": "QUJD"}}],
            "contexts": [{"name": "kind-dev", "context": {"cluster": "kind", "user": "admin"}}],
            "users": [{"name": "admin", "user": {"client-key-data": "S0VZ", "client-certificate-data": "Q0VSVA=="}}]}"#,
    );
    let doc =
        service_account_doc(&source, "/home/me/.kube", "kind-dev", "ci", "deployer", "t0k").unwrap();
    assert_eq!(doc.names(Kind::User), ["deployer@kind"]);
    assert_eq!(get_str(doc.body(Kind::User, "deployer@kind").unwrap(), &["token"]), "t0k");
    assert_eq!(
        get_str(doc.body(Kind::Cluster, "kind").unwrap(), &["certificate-authority-data"]),
        "QUJD"
    );
    assert_eq!(doc.current_context(), Some("deployer@kind-dev"));
    assert_eq!(
        get_str(doc.body(Kind::Context, "deployer@kind-dev").unwrap(), &["namespace"]),
        "ci"
    );
    // Nothing of the admin user.
    assert!(!to_json(&doc.0).contains("S0VZ"));
    assert!(service_account_doc(&source, "/", "gone", "ci", "deployer", "t0k").is_none());
}

#[test]
fn cloud_commands_match_get_credentials() {
    let command = cloud_command(
        Cloud::Eks,
        &values(&[("name", "prod"), ("region", "eu-west-1"), ("profile", "")]),
        "/t/config",
    );
    assert_eq!(command.program, "aws");
    assert_eq!(
        command.args.join(" "),
        "eks update-kubeconfig --name prod --region eu-west-1 --kubeconfig /t/config"
    );
    assert!(command.env.is_empty());
    let command = cloud_command(
        Cloud::Gke,
        &values(&[("name", "a"), ("location", "europe-west4"), ("project", "p")]),
        "/t/config",
    );
    assert_eq!(
        command.args.join(" "),
        "container clusters get-credentials a --location europe-west4 --project p"
    );
    assert_eq!(command.env, [("KUBECONFIG".to_string(), "/t/config".to_string())]);
    let command = cloud_command(
        Cloud::Aks,
        &values(&[("name", "a"), ("group", "rg"), ("subscription", "")]),
        "/t/config",
    );
    assert_eq!(
        command.args.join(" "),
        "aks get-credentials --name a --resource-group rg --file /t/config"
    );
}

#[test]
fn the_cloud_dialog_checks_its_fields() {
    let full = values(&[("name", "prod"), ("region", "r"), ("profile", "p")]);
    let command = cloud_command(Cloud::Eks, &full, "/t");
    assert!(command.args.contains(&"--profile".to_string()));
    assert_eq!(missing_fields(Cloud::Eks, &full), None);
    let empty = values(&[("name", " ")]);
    assert_eq!(missing_fields(Cloud::Eks, &empty), Some("Fill in the required fields."));
    let gke = values(&[("name", "a"), ("location", "l"), ("project", "p")]);
    assert_eq!(
        preview(Cloud::Gke, &gke),
        "KUBECONFIG=<temp>/config gcloud container clusters get-credentials a --location l --project p"
    );
    let shown = cloud::dialog(Cloud::Gke, &gke, Some(false), false);
    assert!(shown.warning.unwrap().contains("`gcloud` isn't installed"));
    assert!(!shown.run_enabled);
    let shown = cloud::dialog(Cloud::Eks, &full, None, true);
    assert_eq!((shown.run_label, shown.run_enabled), ("Running…", false));
    assert!(shown.rows.iter().any(|r| r.ends_with(" (optional)")), "{:?}", shown.rows);
    for cloud in Cloud::ALL {
        assert!(!cloud.label().is_empty() && !cloud.fields().is_empty());
        assert!(cloud.fields().iter().any(|f| f.required && !f.placeholder.is_empty()));
    }
    assert_ne!(Cloud::Eks.key("name"), Cloud::Gke.key("name"));
}

#[test]
fn failed_cloud_commands_are_explained() {
    assert!(explain("aws", &CloudOutcome::NotInstalled).contains("isn't installed"));
    assert!(explain("aws", &CloudOutcome::TimedOut).contains("3 minutes"));
    assert_eq!(
        explain("aws", &CloudOutcome::NotRun("no".to_string())),
        "couldn't run `aws`: no"
    );
    assert_eq!(
        explain("aws", &CloudOutcome::Failed(b" oops \xff\n".to_vec())),
        "`aws` failed: oops \u{fffd}"
    );
    assert_eq!(
        explain("aws", &CloudOutcome::NothingWritten("gone".to_string())),
        "`aws` wrote no kubeconfig: gone"
    );
}

fn request(create: bool, kind: TokenKind, grant: Grant) -> SaRequest {
    SaRequest { namespace: "ci".to_string(), name: "deployer".to_string(), create, kind, grant }
}

#[test]
fn service_accounts_are_created_with_their_binding() {
    let q = request(true, TokenKind::Request(3600), Grant::Namespace(Role::Edit));
    assert_eq!(q.binding_name(), "deployer-edit");
    let mut run = SaRun::begin();
    assert_eq!(run.call, SaCall::GetAccount);
    run.answer(&q, SaAnswer::Missing);
    assert_eq!(run.call, SaCall::CreateAccount);
    run.answer(&q, SaAnswer::Created);
    assert_eq!(run.call, SaCall::GetBinding);
    run.answer(&q, SaAnswer::Missing);
    assert_eq!(run.call, SaCall::CreateBinding);
    run.answer(&q, SaAnswer::Created);
    assert_eq!(run.call, SaCall::RequestToken);
    let expires = Some(Moment { second: 1_767_225_600, nanosecond: 0 });
    run.answer(&q, SaAnswer::Token { token: Some("t".to_string()), expires });
    assert_eq!(run.call, SaCall::Done);
    let token = run.result.unwrap().unwrap();
    assert_eq!((token.token.as_str(), token.expires), ("t", expires));
    assert_eq!(
        token.created,
        ["ServiceAccount ci/deployer", "RoleBinding ci/deployer-edit → ClusterRole edit"]
    );
    assert_eq!(
        note("ci", "deployer", token.expires, &token.created),
        "Kubeconfig for ci/deployer, token valid until 2026-01-01 00:00 UTC. Created: \
         ServiceAccount ci/deployer, RoleBinding ci/deployer-edit → ClusterRole edit"
    );
    assert_eq!(note("ci", "d", None, &Vec::new()), "Kubeconfig for ci/d");
}

#[test]
fn token_secrets_are_read_until_they_are_filled() {
    let q = request(false, TokenKind::Secret, Grant::ClusterAdmin);
    assert_eq!(q.secret_name(), "deployer-token");
    let start = || {
        let mut run = SaRun::begin();
        run.answer(&q, SaAnswer::Found);
        run.answer(&q, SaAnswer::Found);
        assert_eq!(run.call, SaCall::GetSecret);
        run.answer(&q, SaAnswer::Missing);
        run.answer(&q, SaAnswer::Created);
        assert_eq!(run.call, SaCall::ReadSecret);
        run
    };
    let mut run = start();
    for _ in 0..19 {
        run.answer(&q, SaAnswer::SecretToken(None));
        assert_eq!(run.call, SaCall::ReadSecret);
    }
    run.answer(&q, SaAnswer::SecretToken(None));
    assert!(run.result.unwrap().err().unwrap().contains("10 s"));
    let mut run = start();
    run.answer(&q, SaAnswer::SecretToken(Some(b"tok".to_vec())));
    assert_eq!(run.result.unwrap().unwrap().token, "tok");
    let mut run = start();
    run.answer(&q, SaAnswer::SecretToken(Some(vec![0xff])));
    assert_eq!(run.result.unwrap().err().unwrap(), "the token isn't text");
}

#[test]
fn service_accounts_send_their_objects() {
    let q = request(true, TokenKind::Request(3600), Grant::ClusterAdmin);
    let sent = |call: SaCall| q.manifest(call).map(|v| to_json(&v));
    assert_eq!(
        sent(SaCall::CreateAccount).unwrap(),
        r#"{"metadata":{"name":"deployer","labels":{"app.kubernetes.io/managed-by":"kubyl"}}}"#
    );
    assert_eq!(
        sent(SaCall::CreateBinding).unwrap(),
        r#"{"metadata":{"name":"ci-deployer-cluster-admin"},"roleRef":{"apiGroup":"rbac.authorization.k8s.io","kind":"ClusterRole","name":"cluster-admin"},"subjects":[{"kind":"ServiceAccount","name":"deployer","namespace":"ci"}]}"#
    );
    assert_eq!(
        sent(SaCall::RequestToken).unwrap(),
        r#"{"spec":{"audiences":[],"expirationSeconds":3600}}"#
    );
    assert_eq!(
        sent(SaCall::CreateSecret).unwrap(),
        r#"{"metadata":{"name":"deployer-token","annotations":{"kubernetes.io/service-account.name":"deployer"}},"type":"kubernetes.io/service-account-token"}"#
    );
    assert_eq!(sent(SaCall::GetAccount), None);
    let other = request(true, TokenKind::Secret, Grant::Namespace(Role::View));
    assert!(to_json(&other.manifest(SaCall::CreateBinding).unwrap()).contains(r#""name":"view""#));
    assert!(other.manifest(SaCall::RequestToken).is_none());
}

#[test]
fn service_account_errors_are_told() {
    let q = request(false, TokenKind::Request(1), Grant::Nothing);
    let mut run = SaRun::begin();
    run.answer(&q, SaAnswer::Missing);
    assert_eq!(
        run.result.unwrap().err().unwrap(),
        "the service account ci/deployer doesn't exist"
    );
    let mut run = SaRun::begin();
    run.answer(&q, SaAnswer::Failed { code: Some(403), message: "x".to_string() });
    assert_eq!(run.result.unwrap().err().unwrap(), "not allowed: x");
    let mut run = SaRun::begin();
    run.answer(&q, SaAnswer::Found);
    assert_eq!(run.call, SaCall::RequestToken);
    run.answer(&q, SaAnswer::Token { token: None, expires: None });
    assert_eq!(run.result.unwrap().err().unwrap(), "the API server returned no token");
    assert_eq!(Grant::all().len(), 5);
    assert_eq!(Role::Admin.name(), "admin");
}

#[test]
fn the_service_account_dialog_checks_its_form() {
    let mut form = SaForm {
        picked: false,
        connected: false,
        read_only: true,
        namespace: " ".to_string(),
        name: "d".to_string(),
    };
    assert_eq!(form.problem(), Some("Pick a cluster."));
    form.picked = true;
    assert!(form.problem().unwrap().starts_with("Connecting"));
    form.connected = true;
    assert!(form.problem().unwrap().contains("read-only"));
    form.read_only = false;
    assert!(form.problem().unwrap().starts_with("Enter a namespace"));
    form.namespace = "ci".to_string();
    assert_eq!(form.problem(), None);
    let mut choices = SaChoices::new();
    assert_eq!(
        sa_dialog::dialog(&choices, false).duration.as_deref(),
        Some("valid for 8 hours")
    );
    choices.set_expiring(false);
    let shown = sa_dialog::dialog(&choices, true);
    assert!(shown.token_warning && shown.duration.is_none() && !shown.run_enabled);
    choices.grant = Grant::ClusterAdmin;
    assert!(sa_dialog::dialog(&choices, false).grant_warning.is_some());
    assert_eq!(duration_choices().len(), 6);
}

const TWO: &str = r#"{"clusters": [{"name": "c", "cluster": {"server": "https://a"}}],
 "contexts": [{"name": "x", "context": {"cluster": "c", "user": "u"}},
              {"name": "y", "context": {"cluster": "c", "user": "v"}}],
 "users": [{"name": "u", "user": {"token": "s3cret"}}, {"name": "v", "user": {}}],
 "current-context": "x"}"#;

#[test]
fn contexts_are_merged_and_split() {
    let mut into = doc(TWO);
    let other = doc(TWO);
    assert_eq!(merge(&mut into, &other), 2);
    assert_eq!(into.names(Kind::Context), ["x", "y", "x-2", "y-2"]);
    assert!(merge_message(2).contains('2'), "{}", merge_message(2));
    let parts = split_parts(&doc(TWO), "team");
    assert_eq!(parts.len(), 2);
    assert_eq!(parts[0].1.names(Kind::Context), ["x"]);
    assert_eq!(parts[1].1.names(Kind::User), ["v"]);
    assert!(parts[0].0.contains("team"), "{}", parts[0].0);
    let confirm = split(&doc(TWO), "team", "~/k").unwrap();
    assert!(confirm.title.contains('2'), "{confirm:?}");
    assert!(split(&Doc::empty(), "team", "~/k").is_none());
    assert!(split_message(2, "~/k").contains("~/k"));
}

#[test]
fn exports_can_leave_credentials_out() {
    let with = export(&doc(TWO), "x", true);
    assert!(to_json(&with.doc.as_ref().unwrap().0).contains("s3cret"));
    assert!(with.warning.is_some() || with.hint.is_some());
    let without = export(&doc(TWO), "x", false);
    assert!(!to_json(&without.doc.unwrap().0).contains("s3cret"));
    assert!(export(&doc(TWO), "gone", true).doc.is_none());
}

#[test]
fn contexts_are_copied_to_other_files() {
    let from = doc(TWO);
    let mut into = Doc::empty();
    let (name, private) = copy_into(&mut into, &from, "x", true).unwrap();
    assert_eq!(name, "x");
    assert!(private);
    assert_eq!(into.names(Kind::User), ["u"]);
    assert!(copy_into(&mut into, &from, "gone", false).is_err());
    let mut source = doc(TWO);
    let (message, _) = finish_copy(&mut source, "x", "~/other", "x", true);
    assert!(message.contains("~/other"), "{message}");
    assert_eq!(source.names(Kind::Context), ["y"]);
    assert_eq!(source.names(Kind::User), ["v"]);
    let mut source = doc(TWO);
    finish_copy(&mut source, "x", "~/other", "x", false);
    assert_eq!(source.names(Kind::Context), ["x", "y"]);
    let files: Vec<(String, bool)> = [
        ("/k/a-b", true),
        ("/k/b", false),
        ("/k/a/z", true),
        ("/k/a", true),
        ("/k/../c", false),
        ("/here", true),
    ]
    .iter()
    .map(|(p, e)| (p.to_string(), *e))
    .collect();
    let targets: Vec<(String, bool)> = copy_targets(&files, "//here/.")
        .into_iter()
        .map(|t| (t.path, t.editable))
        .collect();
    let expected: Vec<(String, bool)> = [
        ("/k/../c", false),
        ("/k/a", true),
        ("/k/a/z", true),
        ("/k/a-b", true),
        ("/k/b", false),
    ]
    .iter()
    .map(|(p, e)| (p.to_string(), *e))
    .collect();
    assert_eq!(targets, expected);
    assert!(copy_title("x", true).contains('x'));
    assert_ne!(copy_title("x", true), copy_title("x", false));
}

#[test]
fn sources_are_replaced_by_their_copy() {
    let sources = vec![
        SourceFiles { kind: SourceKind::Default, files: vec!["/d".to_string()] },
        SourceFiles {
            kind: SourceKind::Env,
            files: vec!["/e".to_string(), "/f".to_string()],
        },
        SourceFiles { kind: SourceKind::User, files: vec!["/u".to_string()] },
    ];
    assert_eq!(source_kind(&sources, "/f"), Some(SourceKind::Env));
    assert_eq!(source_kind(&sources, "/none"), None);
    let change = |path: &str| replace_source(&sources, source_kind(&sources, path), path);
    assert!(matches!(change("/d"), SourceChange::StopDefault));
    assert!(matches!(change("/e"), SourceChange::StopEnv(rest) if rest == ["/f"]));
    assert!(matches!(change("/u"), SourceChange::Remove));
    assert!(matches!(change("/none"), SourceChange::Nothing));
    assert!(!copy_stem(None).is_empty());
    assert!(copy_stem(Some("config")).contains("config"));
    let confirm = save_copy(Some(SourceKind::Default), "~/k/copy.yaml", "~/.kube/config");
    assert!(confirm.lines.iter().any(|l| l.contains("~/k/copy.yaml")), "{confirm:?}");
}

#[test]
fn paths_resolve_against_a_folder() {
    assert_eq!(resolve("/home/me/.kube", "ca.pem"), "/home/me/.kube/ca.pem");
    assert_eq!(resolve("/home/me/.kube", "/abs/ca.pem"), "/abs/ca.pem");
    let moved = doc(
        r#"{"users": [{"name": "u", "user": {"tokenFile": "t", "client-key": "/k"}}]}"#,
    )
    .with_absolute_paths("/d");
    let user = moved.body(Kind::User, "u").unwrap();
    assert_eq!(get_str(user, &["tokenFile"]), "/d/t");
    assert_eq!(get_str(user, &["client-key"]), "/k");
}

#[test]
fn paths_are_the_same_by_their_parts() {
    assert!(is_same_path("/a/./b//c/", "/a/b/c"));
    assert!(is_same_path("", ""));
    assert!(!is_same_path("", "/"));
    assert!(!is_same_path("./a", "a"));
    assert!(!is_same_path("/a/../b", "/b"));
    assert!(!is_same_path("a/b", "/a/b"));
    assert!(is_listed(&vec!["/x".to_string(), "/y/".to_string()], "/y"));
    assert!(!is_listed(&vec!["/x".to_string()], "/y"));
}

#[test]
fn service_account_requests_end_with_a_draft_or_an_error() {
    let subject = |context: &str| SaSubject {
        namespace: "ns".to_string(),
        name: "bot".to_string(),
        context: context.to_string(),
        dir: "/k".to_string(),
    };
    let token = || -> Result<SaToken, String> {
        Ok(SaToken {
            token: "t0".to_string(),
            expires: None,
            created: vec!["service account bot".to_string()],
        })
    };
    let source = || -> Result<Doc, String> { Ok(doc(TWO)) };
    let taken = vec!["bot-x.yaml".to_string()];
    let done = sa_dialog::finish(&subject("x"), token(), source(), "/owned", &taken).unwrap();
    assert_eq!(done.draft.title, "bot@x");
    assert_eq!(done.draft.path, "/owned/bot-x-2.yaml");
    assert_eq!(done.note, "Kubeconfig for ns/bot. Created: service account bot");
    assert_eq!(done.draft.doc.names(Kind::User), ["bot@c"]);
    let user = done.draft.doc.body(Kind::User, "bot@c").unwrap();
    assert_eq!(get_str(user, &["token"]), "t0");
    let error = |context: &str, token: Result<SaToken, String>, source: Result<Doc, String>| {
        sa_dialog::finish(&subject(context), token, source, "/owned", &taken).err().unwrap()
    };
    assert_eq!(
        error("gone", token(), source()),
        "the context's cluster isn't in its kubeconfig"
    );
    assert_eq!(error("x", Err("no token".to_string()), Err("no file".to_string())), "no token");
    assert_eq!(error("x", token(), Err("no file".to_string())), "no file");
}
