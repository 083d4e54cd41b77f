//! Tests, sign-ins, consents, drafts and watches.

use kubyl_kubeconfig::certs::Moment;
use kubyl_kubeconfig::conntest::Input;
use kubyl_kubeconfig::model::{Doc, Kind};
use kubyl_kubeconfig::report::Report;
use kubyl_kubeconfig::state::{
    exec_to_ask, same_plugin, user_plugin, AfterSignIn, Draft, Kubeconfigs, SignInState,
};
use kubyl_kubeconfig::table::{Table, TestKey};
use kubyl_kubeconfig::value::{Object, Value};
use kubyl_kubeconfig::watches::{
    is_forbidden, CrdWatch, NamespaceUpdate, NamespaceWatch, WatchEvent,
};

fn value(v: &serde_json::Value) -> Value {
    match v {
        serde_json::Value::Null => Value::Null,
        serde_json::Value::Bool(b) => Value::Bool(*b),
        serde_json::Value::Number(n) => Value::Number(n.to_string()),
        serde_json::Value::String(s) => Value::Str(s.clone()),
        serde_json::Value::Array(items) => Value::Array(items.iter().map(value).collect()),
        serde_json::Value::Object(o) => {
            Value::Object(Object::of(o.iter().map(|(k, v)| (k.clone(), value(v))).collect()))
        }
    }
}

fn doc(text: &str) -> Doc {
    Doc::parse(value(&serde_json::from_str(text).unwrap())).unwrap()
}

const EXEC: &str = r#"{
 "contexts": [{"name": "c", "context": {"cluster": "x", "user": "u"}}],
 "users": [{"name": "u", "user": {"exec": {"command": "aws", "args": ["eks", "get-token"],
            "apiVersion": "client.authentication.k8s.io/v1beta1"}}}]}"#;

fn now() -> Moment {
    Moment { second: 1_767_225_600, nanosecond: 0 }
}

#[test]
fn consent_is_needed_for_unsaved_exec_plugins() {
    let saved = doc(EXEC);
    let mut state = Kubeconfigs::new();
    // Saved and unchanged: it runs anyway.
    assert!(state.needs_consent(&saved, Some(&saved), "c").is_none());
    // Edited args: consent.
    let mut edited = saved.clone();
    let body = edited.body_mut(Kind::User, "u").unwrap();
    body.get_mut("exec").unwrap().as_object_mut().unwrap().insert(
        "args",
        value(&serde_json::from_str(r#"["eks", "get-token", "--profile", "evil"]"#).unwrap()),
    );
    let spec = state.needs_consent(&edited, Some(&saved), "c").unwrap();
    assert_eq!(spec.args.len(), 4);
    // A new document (wizard, import): consent.
    assert!(state.needs_consent(&saved, None, "c").is_some());
    state.consent(&spec);
    assert!(state.needs_consent(&edited, Some(&saved), "c").is_none());
    // No exec plugin: nothing to ask.
    assert!(state.needs_consent(&Doc::empty(), None, "c").is_none());
}

#[test]
fn consent_is_for_one_plugin_only() {
    let mut state = Kubeconfigs::new();
    let spec = user_plugin(&doc(EXEC), "u").unwrap();
    assert!(user_plugin(&doc(EXEC), "gone").is_none());
    state.consent(&spec);
    assert!(state.agreed(spec.consent_key()));
    let mut other = spec.clone();
    assert!(same_plugin(&spec, &other));
    other.args.push("x".to_string());
    assert!(!same_plugin(&spec, &other) && !state.agreed(other.consent_key()));
    // Where one argument ends matters.
    let mut a = spec.clone();
    a.args = vec!["ab".to_string(), "c".to_string()];
    let mut b = spec.clone();
    b.args = vec!["a".to_string(), "bc".to_string()];
    assert_ne!(a.consent_key(), b.consent_key());
    state.agree(7);
    assert!(state.agreed(7));
    assert!(exec_to_ask(&doc(EXEC), None, "c").is_some());
    assert!(exec_to_ask(&doc(EXEC), Some(&doc(EXEC)), "c").is_none());
}

fn key(context: &str) -> TestKey {
    TestKey::new("/k", context)
}

fn input(context: &str) -> Input {
    Input {
        doc: doc(EXEC),
        context: context.to_string(),
        file: "/k".to_string(),
        allow_exec: true,
    }
}

#[test]
fn tests_are_kept_by_their_key() {
    let mut state = Kubeconfigs::new();
    assert!(state.report(&key("c")).is_none() && !state.is_running(&key("c")));
    state.test(key("c"), input("c"), now());
    assert!(state.is_running(&key("c")));
    let mut report = Report::starting_at("c", now());
    report.done = true;
    report.millis = 5;
    state.progress(&key("c"), report);
    assert!(!state.is_running(&key("c")));
    assert_eq!(state.report(&key("c")).unwrap().millis, 5);
    // Progress of a test that is gone changes nothing.
    state.progress(&key("gone"), Report::starting_at("gone", now()));
    assert!(state.report(&key("gone")).is_none());
    assert!(state.retest(&key("c"), now()));
    assert!(state.is_running(&key("c")));
    assert!(!state.retest(&key("gone"), now()));
    assert_eq!(state.reports_of("/k").len(), 1);
    assert_eq!(state.reports_of("/k")[0].0, "c");
    state.forget("/k");
    assert!(state.report(&key("c")).is_none());
    assert!(state.reports_of("/k").is_empty());
}

#[test]
fn sign_ins_end_in_a_new_test() {
    let mut state = Kubeconfigs::new();
    state.sign_in(key("c"));
    assert_eq!(state.sign_in_state(&key("c")), Some(&SignInState::Starting));
    state.sign_in_progress(
        &key("c"),
        SignInState::WaitingForBrowser { url: "https://login".to_string() },
    );
    assert!(matches!(
        state.sign_in_state(&key("c")),
        Some(SignInState::WaitingForBrowser { .. })
    ));
    let after = state.sign_in_done(&key("c"), Err("denied".to_string()));
    assert!(matches!(after, AfterSignIn::Notify(_)), "{after:?}");
    assert_eq!(
        state.sign_in_state(&key("c")),
        Some(&SignInState::Failed("denied".to_string()))
    );
    state.sign_in(key("c"));
    assert!(matches!(state.sign_in_done(&key("c"), Ok(())), AfterSignIn::Retest));
    assert_eq!(state.sign_in_state(&key("c")), None);
    state.sign_in(key("c"));
    state.cancel_sign_in(&key("c"));
    assert_eq!(state.sign_in_state(&key("c")), None);
}

#[test]
fn drafts_and_requests_are_taken_once() {
    let mut state = Kubeconfigs::new();
    let draft = || Draft { doc: Doc::empty(), path: "/n".to_string(), title: "N".to_string() };
    let id = state.add_draft(draft());
    let other = state.add_draft(draft());
    assert_ne!(id, other);
    assert_eq!(state.take_draft(id).unwrap().path, "/n");
    assert!(state.take_draft(id).is_none());
    assert!(state.take_draft(other).is_some());
    assert!(state.next_id() > other);
    state.request("/k", Some("c".to_string()), true);
    state.request("/other", None, true);
    assert_eq!(state.take_pending("/k"), Some((Some("c".to_string()), true)));
    assert_eq!(state.take_pending("/k"), None);
    assert_eq!(state.take_pending("/other"), Some((None, true)));
}

#[test]
fn tables_hold_one_value_for_a_key() {
    let mut table: Table<u32> = Table::new();
    table.set(key("a"), 1);
    table.set(key("b"), 2);
    table.set(key("a"), 3);
    assert_eq!(table.get(&key("a")), Some(&3));
    assert_eq!(table.of_doc("/k").len(), 2);
    assert_eq!(table.take(&key("a")), Some(3));
    assert_eq!(table.take(&key("a")), None);
    table.set(TestKey::new("/other", "a"), 4);
    table.forget("/k");
    assert_eq!(table.get(&key("b")), None);
    assert_eq!(table.get(&TestKey::new("/other", "a")), Some(&4));
}

fn named(name: &str) -> String {
    name.to_string()
}

#[test]
fn namespaces_are_listed_in_order() {
    let mut watch = NamespaceWatch::new();
    assert_eq!(watch.event(WatchEvent::Init), None);
    for name in ["b", "a", "a"] {
        let event = WatchEvent::InitApply { name: named(name), generation: 0 };
        assert_eq!(watch.event(event), None);
    }
    let names = |v: &[&str]| Some(NamespaceUpdate::Names(v.iter().map(|s| named(s)).collect()));
    assert_eq!(watch.event(WatchEvent::InitDone), names(&["a", "b"]));
    let apply = |name: &str| WatchEvent::Apply { name: named(name), generation: 0 };
    assert_eq!(watch.event(apply("c")), names(&["a", "b", "c"]));
    assert_eq!(watch.event(apply("c")), None);
    assert_eq!(watch.event(WatchEvent::Delete { name: named("b") }), names(&["a", "c"]));
    assert_eq!(watch.event(WatchEvent::Delete { name: named("b") }), None);
    assert!(is_forbidden(Some(403)) && !is_forbidden(Some(500)) && !is_forbidden(None));
}

#[test]
fn changed_definitions_are_counted() {
    let mut watch = CrdWatch::new();
    watch.event(WatchEvent::Init);
    watch.event(WatchEvent::InitApply { name: named("a"), generation: 1 });
    assert_eq!(watch.event(WatchEvent::InitDone), Some(1));
    let apply = |name: &str, generation: i64| WatchEvent::Apply { name: named(name), generation };
    assert_eq!(watch.event(apply("a", 1)), None);
    assert_eq!(watch.event(apply("a", 2)), Some(1));
    assert_eq!(watch.event(apply("b", 1)), Some(2));
    assert_eq!(watch.event(WatchEvent::Delete { name: named("a") }), Some(1));
    // A removal is always reported.
    assert_eq!(watch.event(WatchEvent::Delete { name: named("a") }), Some(1));
}
