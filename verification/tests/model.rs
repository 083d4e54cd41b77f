//! Documents: reading, renaming, switching authentication, secrets, and moving contexts.

use kubyl_kubeconfig::exec::{exec_of, ExecPreset, ExecSpec};
use kubyl_kubeconfig::fields::{get, get_str, set_bool, set_str};
use kubyl_kubeconfig::model::{duplicate_names, validate_name, Doc, EntryRef, Kind};
use kubyl_kubeconfig::users::{mask_secrets, secret_paths, set_auth_kind, AuthKind};
use kubyl_kubeconfig::value::{Object, Value};

const SAMPLE: &str = r#"{
  "apiVersion": "v1",
  "kind": "Config",
  "current-context": "dev",
  "clusters": [
    {"name": "dev", "cluster": {"server": "https://127.0.0.1:6443", "certificate-authority-data": "QUJD"}}
  ],
  "contexts": [
    {"name": "dev", "context": {"cluster": "dev", "user": "dev", "namespace": "payments"}},
    {"name": "other", "context": {"cluster": "dev", "user": "aws"}}
  ],
  "users": [
    {"name": "dev", "user": {"token": "s3cret", "as": "admin"}},
    {"name": "aws", "user": {"exec": {
      "apiVersion": "client.authentication.k8s.io/v1beta1",
      "command": "aws",
      "args": ["eks", "get-token"],
      "env": [{"name": "AWS_PROFILE", "value": "prod"}, {"name": "AWS_SECRET_ACCESS_KEY", "value": "shh"}]
    }}}
  ],
  "extensions": [{"name": "x", "extension": {"a": 1}}]
}"#;

fn value(v: &serde_json::Value) -> Value {
    match v {
        serde_json::Value::Null => Value::Null,
        serde_json::Value::Bool(b) => Value::Bool(*b),
        serde_json::Value::Number(n) => Value::Number(n.to_string()),
        serde_json::Value::String(s) => Value::Str(s.clone()),
        serde_json::Value::Array(items) => Value::Array(items.iter().map(value).collect()),
        serde_json::Value::Object(o) => {
            Value::Object(Object::of(o.iter().map(|(k, v)| (k.clone(), value(v))).collect()))
        }
    }
}

fn json(v: &Value) -> serde_json::Value {
    match v {
        Value::Null => serde_json::Value::Null,
        Value::Bool(b) => serde_json::Value::Bool(*b),
        Value::Number(n) => serde_json::from_str(n).unwrap(),
        Value::Str(s) => serde_json::Value::String(s.clone()),
        Value::Array(items) => serde_json::Value::Array(items.iter().map(json).collect()),
        Value::Object(o) => serde_json::Value::Object(
            (0..o.len()).map(|i| (o.key_at(i).to_string(), json(o.value_at(i)))).collect(),
        ),
    }
}

fn doc(text: &str) -> Doc {
    Doc::parse(value(&serde_json::from_str(text).unwrap())).unwrap()
}

fn field<'a>(o: &'a Object, key: &str) -> &'a Value {
    o.get(key).unwrap()
}

#[test]
fn renames_update_references() {
    let mut doc = doc(SAMPLE);
    doc.rename(Kind::Cluster, "dev", "kind").unwrap();
    doc.rename(Kind::Context, "dev", "kind-dev").unwrap();
    assert_eq!(doc.current_context(), Some("kind-dev"));
    assert_eq!(doc.context_refs("kind-dev").0.as_deref(), Some("kind"));
    assert_eq!(doc.context_refs("other").0.as_deref(), Some("kind"));
    assert!(doc.rename(Kind::User, "dev", "aws").is_err());
    assert!(doc.rename(Kind::User, "dev", " x").is_err());
    // Unknown fields survive.
    assert_eq!(json(&doc.0)["extensions"][0]["extension"]["a"], 1);
    assert_eq!(field(doc.body(Kind::User, "dev").unwrap(), "as").as_str(), Some("admin"));
}

#[test]
fn adds_duplicates_and_removes_entries() {
    let mut doc = doc(SAMPLE);
    assert_eq!(doc.used_by(Kind::Cluster, "dev"), ["dev", "other"]);
    let copy = doc.duplicate(Kind::User, "aws").unwrap();
    assert_eq!(copy, "aws-copy");
    assert_eq!(doc.names(Kind::User), ["dev", "aws", "aws-copy"]);
    assert!(doc.add(Kind::Cluster, "dev", Object::new()).is_err());
    doc.add(Kind::Cluster, "new", Object::new()).unwrap();
    assert_eq!(doc.unique_name(Kind::Cluster, "new"), "new-2");
    doc.remove(Kind::Context, "dev");
    assert_eq!(doc.current_context(), None);
    doc.remove_context_with_refs("other");
    // `dev` user is unused now but only the removed context's refs go.
    assert!(!doc.contains(Kind::User, "aws"));
    assert!(!doc.contains(Kind::Cluster, "dev"));
    assert!(doc.contains(Kind::User, "dev"));
}

#[test]
fn switches_auth_kinds_and_keeps_other_fields() {
    let mut doc = doc(SAMPLE);
    let body = doc.body_mut(Kind::User, "dev").unwrap();
    assert_eq!(AuthKind::detect(body), AuthKind::Token);
    set_auth_kind(body, AuthKind::Exec);
    assert_eq!(AuthKind::detect(body), AuthKind::Exec);
    assert!(!body.contains_key("token"));
    assert_eq!(field(body, "as").as_str(), Some("admin"));
    set_str(body, &["exec", "command"], "gke-gcloud-auth-plugin");
    set_bool(body, &["exec", "provideClusterInfo"], true);
    assert_eq!(get_str(body, &["exec", "command"]), "gke-gcloud-auth-plugin");
    set_str(body, &["exec", "command"], "");
    assert!(get(body, &["exec", "command"]).is_none());
    set_bool(body, &["exec", "provideClusterInfo"], false);
    assert_eq!(field(body, "exec").get("provideClusterInfo").unwrap().as_bool(), Some(false));
}

#[test]
fn finds_masks_and_strips_secrets() {
    let mut document = doc(SAMPLE);
    assert!(document.has_inline_credentials());
    let aws = document.body(Kind::User, "aws").unwrap();
    assert_eq!(secret_paths(aws), [vec!["exec", "env", "1", "value"]]);
    let masked = mask_secrets(&mut document, "••••");
    assert_eq!(masked.len(), 2);
    assert_eq!(field(document.body(Kind::User, "dev").unwrap(), "token").as_str(), Some("••••"));
    let exported = doc(SAMPLE).extract("other", false).unwrap();
    let env = field(exported.body(Kind::User, "aws").unwrap(), "exec").get("env").unwrap();
    assert_eq!(env.as_array().unwrap().len(), 1);
    assert_eq!(exported.names(Kind::Cluster), ["dev"]);
    assert_eq!(exported.current_context(), Some("other"));
    let with = doc(SAMPLE).extract("dev", true).unwrap();
    assert_eq!(field(with.body(Kind::User, "dev").unwrap(), "token").as_str(), Some("s3cret"));
}

#[test]
fn imports_contexts_with_their_entries() {
    let from = doc(SAMPLE);
    let mut into = doc(SAMPLE);
    // Identical cluster and user are shared; the context gets a new name.
    assert_eq!(into.import_context(&from, "dev").unwrap(), "dev-2");
    assert_eq!(into.names(Kind::Cluster), ["dev"]);
    let mut empty = Doc::empty();
    assert_eq!(empty.import_context(&from, "other").unwrap(), "other");
    assert_eq!(empty.names(Kind::User), ["aws"]);
}

#[test]
fn converts_to_kube() {
    let document = doc(SAMPLE);
    let kube: kube::config::Kubeconfig = serde_json::from_value(json(&document.to_kube())).unwrap();
    assert_eq!(kube.contexts.len(), 2);
    let exec =
        ExecSpec::read(field(document.body(Kind::User, "aws").unwrap(), "exec")).unwrap();
    assert_eq!(exec.command, "aws");
    assert_eq!(exec.env[0], ("AWS_PROFILE".into(), "prod".into()));
    assert_eq!(exec_of(&document, "other").unwrap().0, "aws");
    let mut changed = exec.clone();
    changed.args.push("--x".into());
    assert_ne!(exec.consent_key(), changed.consent_key());
    assert!(Doc::parse(value(&serde_json::from_str("{\"clusters\": 3}").unwrap())).is_err());
}

// ----- More -----

#[test]
fn parse_errors_name_the_list() {
    let parse = |text: &str| Doc::parse(value(&serde_json::from_str(text).unwrap()));
    assert_eq!(parse("null").unwrap().names(Kind::Context).len(), 0);
    for list in ["clusters", "contexts", "users"] {
        let err = parse(&format!("{{\"{list}\": 3}}")).err().unwrap();
        assert!(err.contains(list), "{err}");
    }
    assert!(parse("{\"users\": null}").is_ok());
}

#[test]
fn names_are_validated() {
    assert!(validate_name("kind-dev").is_ok());
    assert!(validate_name("").is_err());
    assert!(validate_name("x ").is_err());
    let mut document = doc(SAMPLE);
    assert!(document.rename(Kind::User, "gone", "x").is_err());
    assert!(document.rename(Kind::User, "dev", "dev").is_ok());
}

#[test]
fn duplicates_are_listed_once_in_order() {
    let document = doc(
        r#"{"users": [{"name": "b"}, {"name": "a"}, {"name": "b"}, {"name": "b"}, {"name": "a"}, {"x": 1}]}"#,
    );
    assert_eq!(duplicate_names(&document, Kind::User), ["a", "b"]);
    assert_eq!(document.unnamed(Kind::User), 1);
}

#[test]
fn a_merged_number_counts_up() {
    let mut document = doc(SAMPLE);
    for _ in 0..3 {
        document.duplicate(Kind::User, "aws").unwrap();
    }
    assert_eq!(
        document.names(Kind::User),
        ["dev", "aws", "aws-copy-3", "aws-copy-2", "aws-copy"]
    );
    assert!(document.duplicate(Kind::User, "gone").is_none());
}

#[test]
fn removing_a_context_keeps_what_others_use() {
    let mut document = doc(SAMPLE);
    document.remove_context_with_refs("dev");
    assert!(document.contains(Kind::Cluster, "dev"));
    assert!(!document.contains(Kind::User, "dev"));
    assert_eq!(document.current_context(), None);
}

#[test]
fn masked_secrets_come_back() {
    let mut document = doc(SAMPLE);
    let taken = mask_secrets(&mut document, "••••");
    assert_eq!(taken[0].0, "dev");
    assert_eq!(taken[0].1, ["token"]);
    assert_eq!(taken[0].2, "s3cret");
    assert_eq!(taken[1].1, ["exec", "env", "1", "value"]);
    assert_eq!(taken[1].2, "shh");
}

#[test]
fn presets_are_plugins() {
    for preset in ExecPreset::ALL {
        let spec = ExecSpec::read(&preset.exec()).unwrap();
        assert!(!spec.command.is_empty());
        assert_eq!(spec.api_version, "client.authentication.k8s.io/v1beta1");
    }
    assert_eq!(ExecPreset::Eks.label(), "AWS EKS (aws eks get-token)");
    assert!(ExecSpec::read(&ExecPreset::Gke.exec()).unwrap().provide_cluster_info);
}

#[test]
fn equal_plugins_have_equal_ids() {
    let spec = ExecSpec::read(&ExecPreset::Eks.exec()).unwrap();
    assert_eq!(spec.consent_key(), spec.clone().consent_key());
    // Moving a word from the command to the arguments changes the id.
    let with = |command: &str, args: &[&str]| ExecSpec {
        command: command.into(),
        args: args.iter().map(|s| s.to_string()).collect(),
        env: Vec::new(),
        api_version: String::new(),
        interactive_mode: String::new(),
        provide_cluster_info: false,
    };
    assert_ne!(with("aws", &["a", "b"]).consent_key(), with("aws", &["ab"]).consent_key());
    let mut env = with("aws", &[]);
    env.env.push(("A".into(), "1".into()));
    let mut other = with("aws", &[]);
    other.env.push(("A".into(), "2".into()));
    assert_ne!(env.consent_key(), other.consent_key());
}

#[test]
fn entries_are_told_apart_by_kind_and_name() {
    let entry = EntryRef::new(Kind::User, "dev");
    assert_eq!(entry.kind, Kind::User);
    assert_eq!(entry.name, "dev");
    assert_eq!(Kind::ALL.map(|k| k.label()), ["context", "cluster", "user"]);
    assert_eq!(Kind::ALL.map(|k| k.title()), ["Contexts", "Clusters", "Users"]);
}

/// Two users of one name, one without a name, one without a body.
const TWINS: &str = r#"{
  "users": [
    {"name": "u", "user": {"token": "a"}},
    {"name": "u", "user": {"token": "b", "password": "p"}},
    {"user": {"token": "c"}},
    {"name": "w"}
  ]
}"#;

#[test]
fn every_user_is_masked_by_its_place() {
    let mut document = doc(TWINS);
    let taken = mask_secrets(&mut document, "x");
    let users = document.0.get("users").unwrap().as_array().unwrap();
    let body = |i: usize| users[i].get("user").unwrap();
    assert_eq!(body(0).text_at("token"), Some("x"));
    assert_eq!(body(1).text_at("token"), Some("x"));
    assert_eq!(body(1).text_at("password"), Some("x"));
    assert_eq!(body(2).text_at("token"), Some("x"));
    assert!(users[3].get("user").is_none());
    let found: Vec<(&str, &str, &str, usize)> = taken
        .iter()
        .map(|(name, path, text, place)| (name.as_str(), path[0].as_str(), text.as_str(), *place))
        .collect();
    assert_eq!(found, [
        ("u", "token", "a", 0),
        ("u", "token", "b", 1),
        ("u", "password", "p", 1),
        ("", "token", "c", 2),
    ]);
}

#[test]
fn masked_documents_come_back_by_place() {
    let before = doc(TWINS);
    let mut document = doc(TWINS);
    let taken = mask_secrets(&mut document, "x");
    assert!(!document.0.equal(&before.0));
    let users = document.0.get_mut("users").unwrap().as_array_mut().unwrap();
    for (_, path, text, place) in taken.iter().rev() {
        let body = users[*place].get_mut("user").unwrap().as_object_mut().unwrap();
        let path: Vec<&str> = path.iter().map(|s| s.as_str()).collect();
        set_str(body, &path, text);
    }
    assert!(document.0.equal(&before.0));
}

#[test]
fn a_document_without_users_is_not_changed_by_masking() {
    let mut document = doc(r#"{"clusters": []}"#);
    assert!(mask_secrets(&mut document, "x").is_empty());
    assert!(document.0.get("users").is_none());
}
