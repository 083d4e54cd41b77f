//! The problems of a document.

use kubyl_kubeconfig::certs::{data_from_pem, der_to_pem, Moment};
use kubyl_kubeconfig::commands::{places, ExecPrompt};
use kubyl_kubeconfig::fields::PemSource;
use kubyl_kubeconfig::model::{Doc, EntryRef, Kind};
use kubyl_kubeconfig::validate::{
    concerns, is_dns_label, load_pem, of_entry, path_text, validate, wanted, worst, yaml_path,
    Facts, IoError, Problem, Seg, Severity,
};
use kubyl_kubeconfig::value::{Object, Value};

const CA: &str = "\
-----BEGIN CERTIFICATE-----\n\
MIIBVzCB/aADAgECAhQtKUdj9BMVO4ngZSsKs4LDDY97gjAKBggqhkjOPQQDAjAY\n\
MRYwFAYDVQQDDA1rdWJ5bC10ZXN0LWNhMCAXDTI0MDEwMTAwMDAwMFoYDzIxMjQw\n\
MTAxMDAwMDAwWjAYMRYwFAYDVQQDDA1rdWJ5bC10ZXN0LWNhMFkwEwYHKoZIzj0C\n\
AQYIKoZIzj0DAQcDQgAE+wLD7nnCO0Gwhw1qHOgigr4BIeaqbHRFh+PMQw0ErMkB\n\
jqvM9Qw5PrBdAKu1bWxw8dFF45i9eUr4W2ATX8tWFKMjMCEwDwYDVR0TAQH/BAUw\n\
AwEB/zAOBgNVHQ8BAf8EBAMCAYYwCgYIKoZIzj0EAwIDSQAwRgIhAJH6XD/69AAd\n\
dHWoF02GcarJBM5fboIKc92bAmoF8ZfsAiEA9JxFe9BRF8+4QqxRfTWNOSkTCLFu\n\
+dcJnwHSvE2Q8NE=\n\
-----END CERTIFICATE-----\n\
";

const CLIENT: &str = "\
-----BEGIN CERTIFICATE-----\n\
MIIBdDCCARugAwIBAgIUXM98PJEknky/YJaneUQmZaT9vvcwCgYIKoZIzj0EAwIw\n\
GDEWMBQGA1UEAwwNa3VieWwtdGVzdC1jYTAgFw0yNDAxMDEwMDAwMDBaGA8yMTI0\n\
MDEwMTAwMDAwMFowNDEXMBUGA1UECgwOc3lzdGVtOm1hc3RlcnMxGTAXBgNVBAMM\n\
EGt1YmVybmV0ZXMtYWRtaW4wWTATBgcqhkjOPQIBBggqhkjOPQMBBwNCAARINg5w\n\
bz11o5YhXKyKCZDNfMhMYlZ4oMk07KilQLIqSWb9Milfgcnn5dQAMy1uespUASJL\n\
IN7RgN+XQ8Q7sLGhoyUwIzAMBgNVHRMBAf8EAjAAMBMGA1UdJQQMMAoGCCsGAQUF\n\
BwMCMAoGCCqGSM49BAMCA0cAMEQCIDjtuYifzafApe7akrPq1uAfT2nD4m7PbljH\n\
U4lwOV3oAiBYnNpv3l3j7UtJoK4MVo8Ahe+x5+n8X46Mp8OE7Nzv3Q==\n\
-----END CERTIFICATE-----\n\
";

const EXPIRED: &str = "\
-----BEGIN CERTIFICATE-----\n\
MIIBVzCB/qADAgECAhQ2WI32hoiNa0TGv7UpUaJfs09e4DAKBggqhkjOPQQDAjAY\n\
MRYwFAYDVQQDDA1rdWJ5bC10ZXN0LWNhMB4XDTIwMDEwMTAwMDAwMFoXDTIxMDEw\n\
MTAwMDAwMFowGTEXMBUGA1UEAwwOZXhwaXJlZC1jbGllbnQwWTATBgcqhkjOPQIB\n\
BggqhkjOPQMBBwNCAARgJ7c623f9XJU0eiuglJ1YDwCw4CT5w25E440MA0K/4kWZ\n\
Qi4Aw7ByZlsNcNCdh6bHLKNBxPu35LSR+iUVlpVHoyUwIzAMBgNVHRMBAf8EAjAA\n\
MBMGA1UdJQQMMAoGCCsGAQUFBwMCMAoGCCqGSM49BAMCA0gAMEUCIDVEQ8Ka+liS\n\
sOewgg4SNx5RB1pCoWcr5wkG1Zq1LoPlAiEA+KUfx6bEPYfohXBZlOz/HXEwYTib\n\
305pjewJl9k+Olg=\n\
-----END CERTIFICATE-----\n\
";

fn value(v: &serde_json::Value) -> Value {
    match v {
        serde_json::Value::Null => Value::Null,
        serde_json::Value::Bool(b) => Value::Bool(*b),
        serde_json::Value::Number(n) => Value::Number(n.to_string()),
        serde_json::Value::String(s) => Value::Str(s.clone()),
        serde_json::Value::Array(items) => Value::Array(items.iter().map(value).collect()),
        serde_json::Value::Object(o) => {
            Value::Object(Object::of(o.iter().map(|(k, v)| (k.clone(), value(v))).collect()))
        }
    }
}

fn doc(text: &str) -> Doc {
    Doc::parse(value(&serde_json::from_str(text).unwrap())).unwrap()
}

/// 2026-01-01.
fn now() -> Moment {
    Moment { second: 1_767_225_600, nanosecond: 0 }
}

fn nothing() -> Facts {
    Facts {
        files: Vec::new(),
        token_files: Vec::new(),
        commands: Vec::new(),
        expiries: Vec::new(),
    }
}

fn messages(problems: &[Problem]) -> Vec<String> {
    problems.iter().map(|p| p.message.clone()).collect()
}

fn of_user(body: &str) -> Vec<String> {
    let text = format!("{{\"users\": [{{\"name\": \"u\", \"user\": {body}}}]}}");
    messages(&validate(&doc(&text), &nothing(), now()))
}

/// A PEM block where a private key would stand. Its bytes are no key.
fn client_key() -> String {
    let bytes: Vec<u8> = (0..138).collect();
    der_to_pem("PRIVATE KEY", &bytes)
}

#[test]
fn finds_problems() {
    let text = format!(
        r#"{{
  "apiVersion": "v1",
  "kind": "Config",
  "current-context": "gone",
  "clusters": [
    {{"name": "ok", "cluster": {{"server": "https://127.0.0.1:6443", "certificate-authority-data": "{ca}"}}}},
    {{"name": "bad", "cluster": {{"server": "ftp://x", "insecure-skip-tls-verify": true, "certificate-authority": "/nope/ca.pem"}}}},
    {{"name": "ok", "cluster": {{"server": "http://plain:80"}}}}
  ],
  "contexts": [
    {{"name": "a", "context": {{"cluster": "ok", "user": "certs", "namespace": "Payments"}}}},
    {{"name": "b", "context": {{"cluster": "missing", "user": "nobody"}}}}
  ],
  "users": [
    {{"name": "certs", "user": {{"client-certificate": "client.pem", "client-key": "client-key.pem"}}}},
    {{"name": "exec", "user": {{"exec": {{"command": "kubyl-no-such-plugin-xyz"}}}}}},
    {{"name": "token", "user": {{"token": ""}}}}
  ]
}}"#,
        ca = data_from_pem(CA)
    );
    let doc = doc(&text);
    let wants = wanted(&doc);
    assert_eq!(wants.files, ["/nope/ca.pem", "client.pem", "client-key.pem"]);
    assert_eq!(wants.commands, ["kubyl-no-such-plugin-xyz"]);
    assert!(wants.token_files.is_empty() && wants.tokens.is_empty());
    let mut facts = nothing();
    facts.files.push(("client.pem".to_string(), Ok(CLIENT.to_string())));
    facts.files.push(("client-key.pem".to_string(), Ok(client_key())));
    let problems = validate(&doc, &facts, now());
    let messages = messages(&problems);
    let has = |s: &str| messages.iter().any(|m| m.contains(s));
    assert!(has("two clusters are named \"ok\""), "{messages:#?}");
    assert!(has("current-context \"gone\""));
    assert!(has("cluster \"missing\" doesn't exist"));
    assert!(has("user \"nobody\" doesn't exist"));
    assert!(has("\"Payments\" isn't a valid namespace"));
    assert!(has("must start with https://"));
    assert!(has("can't be combined with a CA"));
    assert!(has("CA: can't read /nope/ca.pem"));
    assert!(has("plain HTTP"));
    assert!(has("`kubyl-no-such-plugin-xyz` wasn't found"));
    assert!(has("needs an apiVersion"));
    assert!(has("the token is empty"));
    assert!(has("CA kubyl-test-ca valid until"));
    // The certificate and key are there: no problem.
    let certs = EntryRef::new(Kind::User, "certs");
    assert_eq!(worst(&problems, &certs), None, "{:#?}", of_entry(&problems, &certs));
    assert_eq!(
        worst(&problems, &EntryRef::new(Kind::Context, "b")),
        Some(Severity::Error)
    );
    let path = yaml_path(&doc, of_entry(&problems, &EntryRef::new(Kind::Context, "b"))[0]);
    assert_eq!(path_text(&path), "contexts[1].context.cluster");
}

#[test]
fn yaml_paths_count_unnamed_entries() {
    let doc = doc(
        r#"{"clusters": [{"cluster": {"server": "https://a"}}, {"name": "b", "cluster": {"server": "ftp://b"}}]}"#,
    );
    let problem = Problem {
        severity: Severity::Error,
        entry: Some(EntryRef::new(Kind::Cluster, "b")),
        field: Some("server".into()),
        message: String::new(),
    };
    assert_eq!(path_text(&yaml_path(&doc, &problem)), "clusters[1].cluster.server");
    let whole = Problem {
        severity: Severity::Warning,
        entry: None,
        field: Some("current-context".into()),
        message: String::new(),
    };
    assert_eq!(path_text(&yaml_path(&doc, &whole)), "current-context");
    assert!(!concerns(&whole, &EntryRef::new(Kind::Cluster, "b")));
    assert!(concerns(&problem, &EntryRef::new(Kind::Cluster, "b")));
    let found = validate(&doc, &nothing(), now());
    assert!(messages(&found).iter().any(|m| m == "1 clusters without a name"), "{found:?}");
}

#[test]
fn paths_are_written_with_dots_and_brackets() {
    let path = vec![
        Seg::Key("users".to_string()),
        Seg::Index(3),
        Seg::Key("user".to_string()),
        Seg::Key("exec".to_string()),
    ];
    assert_eq!(path_text(&path), "users[3].user.exec");
    assert_eq!(path_text(&Vec::new()), "");
}

#[test]
fn users_are_checked_by_their_kind() {
    assert!(of_user(r#"{}"#).is_empty());
    let exec = |api: &str| {
        of_user(&format!("{{\"exec\": {{\"command\": \"\", \"apiVersion\": \"{api}\"}}}}"))
    };
    assert!(exec("x").iter().any(|m| m == "the exec plugin has no command"));
    assert!(exec("client.authentication.k8s.io/v1alpha1")
        .iter()
        .any(|m| m.contains("was removed from kubectl 1.24")));
    assert!(of_user(r#"{"tokenFile": "/t"}"#)
        .iter()
        .any(|m| m == "can't read /t: the file doesn't exist"));
    assert!(of_user(r#"{"username": "a", "password": "b"}"#)
        .iter()
        .any(|m| m.contains("basic auth was removed")));
    assert!(of_user(r#"{"auth-provider": {"name": "gcp"}}"#)
        .iter()
        .any(|m| m.contains("removed from kubectl 1.26")));
    let oidc = of_user(r#"{"auth-provider": {"name": "oidc", "config": {}}}"#);
    assert!(oidc.iter().any(|m| m.contains("needs an issuer URL")), "{oidc:?}");
    assert!(oidc.iter().any(|m| m.contains("client ID")));
    let cert = of_user(r#"{"client-certificate-data": "", "client-key-data": "Zm9v"}"#);
    assert!(cert.iter().any(|m| m.contains("PRIVATE KEY")), "{cert:?}");
    let cert = of_user(r#"{"client-certificate-data": "%", "client-key": "/k"}"#);
    assert!(cert.iter().any(|m| m == "client certificate: not valid base64"), "{cert:?}");
    assert!(cert.iter().any(|m| m == "client key: can't read /k: the file doesn't exist"));
}

#[test]
fn facts_change_the_problems() {
    let document = doc(
        r#"{"users": [{"name": "a", "user": {"token": "t"}}, {"name": "b", "user": {"tokenFile": "/t"}},
            {"name": "c", "user": {"exec": {"command": "aws", "apiVersion": "client.authentication.k8s.io/v1"}}}]}"#,
    );
    let wants = wanted(&document);
    assert_eq!((wants.tokens, wants.token_files), (vec!["t".to_string()], vec!["/t".to_string()]));
    assert_eq!(validate(&document, &nothing(), now()).len(), 2);
    let mut facts = nothing();
    facts.commands.push("aws".to_string());
    facts.token_files.push(("/t".to_string(), Ok(())));
    assert!(validate(&document, &facts, now()).is_empty());
    facts.expiries.push(("t".to_string(), Moment { second: 0, nanosecond: 0 }));
    let found = validate(&document, &facts, now());
    assert_eq!(messages(&found), ["the token expired on 1970-01-01 00:00 UTC"]);
    facts.token_files[0].1 = Err(IoError::PermissionDenied);
    assert!(messages(&validate(&document, &facts, now()))
        .iter()
        .any(|m| m == "can't read /t: permission denied"));
    assert_eq!(IoError::NotFound.message(), "the file doesn't exist");
    assert_eq!(IoError::Other("x".to_string()).message(), "x");
}

#[test]
fn clusters_are_checked() {
    let of_cluster = |body: &str| {
        let text = format!("{{\"clusters\": [{{\"name\": \"c\", \"cluster\": {body}}}]}}");
        messages(&validate(&doc(&text), &nothing(), now()))
    };
    assert_eq!(of_cluster("{}"), ["no server URL"]);
    let insecure = of_cluster(r#"{"server": "https://x", "insecure-skip-tls-verify": true}"#);
    assert!(insecure.iter().any(|m| m.contains("TLS isn't verified")), "{insecure:?}");
    let bad = of_cluster(r#"{"server": "https://x", "certificate-authority-data": "Zm9v"}"#);
    assert!(bad.iter().any(|m| m.starts_with("CA: ")), "{bad:?}");
    let old = data_from_pem(EXPIRED);
    let expired = of_cluster(&format!(
        "{{\"server\": \"https://x\", \"certificate-authority-data\": \"{old}\"}}"
    ));
    assert!(expired.iter().any(|m| m.contains("expired on 2021-01-01")), "{expired:?}");
}

#[test]
fn contexts_are_checked() {
    let document = doc(r#"{"contexts": [{"name": "c", "context": {}}]}"#);
    let found = validate(&document, &nothing(), now());
    assert_eq!(messages(&found), ["no cluster"]);
    assert_eq!(found[0].severity, Severity::Error);
    assert_eq!(found[0].entry, Some(EntryRef::new(Kind::Context, "c")));
    assert!(is_dns_label("a-1") && !is_dns_label("A") && !is_dns_label("-a"));
    assert!(!is_dns_label("") && !is_dns_label(&"a".repeat(64)) && is_dns_label(&"a".repeat(63)));
}

#[test]
fn pem_sources_are_loaded() {
    let mut facts = nothing();
    facts.files.push(("/ca".to_string(), Ok(CA.to_string())));
    assert_eq!(load_pem(&PemSource::Unset, &facts), Ok(None));
    assert_eq!(load_pem(&PemSource::File("/ca".to_string()), &facts), Ok(Some(CA.to_string())));
    assert_eq!(
        load_pem(&PemSource::File("/no".to_string()), &facts),
        Err("can't read /no: the file doesn't exist".to_string())
    );
    assert_eq!(
        load_pem(&PemSource::Data("Zm9v".to_string()), &facts),
        Ok(Some("foo".to_string()))
    );
}

#[test]
fn commands_are_looked_for_in_the_path() {
    let path = vec!["/usr/bin".to_string(), "/opt/bin/".to_string(), String::new()];
    let none: Vec<String> = Vec::new();
    assert_eq!(
        places("aws", Some("/home"), '/', Some(&path), &none),
        vec!["/usr/bin/aws", "/opt/bin/aws", "aws"]
    );
    assert_eq!(
        places("aws", None, '\\', Some(&path[..1].to_vec()), &vec!["exe".to_string(), "cmd".to_string()]),
        vec!["/usr/bin/aws", "/usr/bin/aws.exe", "/usr/bin/aws.cmd"]
    );
    assert!(places("aws", Some("/home"), '/', None, &none).is_empty());
    assert_eq!(places("./get-token", Some("/home/me/.kube"), '/', Some(&path), &none), vec![
        "/home/me/.kube/./get-token"
    ]);
    assert_eq!(places("/bin/aws", Some("/home"), '/', None, &none), vec!["/bin/aws"]);
    assert_eq!(places("bin/aws", None, '/', None, &none), vec!["bin/aws"]);
    assert_eq!(places("bin\\aws", None, '\\', Some(&path), &none), vec!["bin\\aws"]);
}

#[test]
fn interactive_plugins_show_their_output() {
    let mut prompt = ExecPrompt::new("prod", "kubelogin");
    assert_eq!(prompt.title(), "kubelogin needs input (prod)");
    assert_eq!(prompt.shown(), "Waiting for output…");
    prompt.write("Code");
    prompt.write(": ");
    assert_eq!(prompt.shown(), "Code: ");
}

#[test]
fn problems_do_not_tell_a_token() {
    let of = |token: &str| {
        let text = format!(
            r#"{{"contexts": [{{"name": "a", "context": {{"cluster": "gone", "user": "u"}}}}],
            "users": [{{"name": "u", "user": {{"token": "{token}"}}}}]}}"#
        );
        messages(&validate(&doc(&text), &nothing(), now()))
    };
    assert_eq!(of("one"), of("another"));
    assert!(!of("one").is_empty());
}
