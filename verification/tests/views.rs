//! What the editor, the forms and the connection views show, and what their controls change.

use kubyl_kubeconfig::certs::{certificates, CertInfo, Moment};
use kubyl_kubeconfig::clusters_view::{
    connected_note, connection_card, context_rows, contexts_note, ensure_selection, expiry_label,
    first_context, lists_source, namespace_change, no_contexts_note, no_sources_note, safety_title, source_row,
    status_item, status_on, ClusterFacts, ConnectionAuth, ConnectionFacts, ConnectionState,
    ContextItem, ContextSwitches, SafetySwitch, ShownCa, SourceFacts, SourceIcon, StatusTone,
};
use kubyl_kubeconfig::dialogs::{ca_card, ca_card_on};
use kubyl_kubeconfig::editor::{KubeconfigEditor, Tab};
use kubyl_kubeconfig::editor_view::{
    banner, center, edit_user, list, reveal_label, secondary_label, test_panel, toolbar,
    use_namespace, yaml_note, Center, Tone,
};
use kubyl_kubeconfig::exec::ExecPreset;
use kubyl_kubeconfig::fields::{get_bool, get_str};
use kubyl_kubeconfig::files::{hash, snapshot, Snapshot};
use kubyl_kubeconfig::form_view::{
    ago, api_choices, apply_preset, cert_card, cert_card_on, choice_text, choose_ca_mode,
    client_cert_card, cluster_card, context_card, entry_header, exec_card, form_note,
    interactive_choices, last_test, overrides_card, pick_auth_kind, pick_cluster, pick_user, problems_card, toggle,
    toggle_current, user_card,
};
use kubyl_kubeconfig::forms::{
    binding, display_name, env_changed, form_changed, is_secret, placeholder, set_pem, Form,
    PemMode,
};
use kubyl_kubeconfig::json_text::to_json;
use kubyl_kubeconfig::model::{Doc, EntryRef, Kind};
use kubyl_kubeconfig::moves::SourceKind;
use kubyl_kubeconfig::openshift_sign_in::{
    self as openshift, Focus, Method, OauthServer, OpenShiftSignIn, Submit,
};
use kubyl_kubeconfig::paste::{command_lines, prompt, ExecCommand, Paste, PasteStep};
use kubyl_kubeconfig::report::Report;
use kubyl_kubeconfig::schema::{document, gvk, SOURCE};
use kubyl_kubeconfig::sign_in::{
    self, first_method, opens_for, page_text, primary_method, Opens, Phase, SignIn, SignInEvent,
    SignInMethod,
};
use kubyl_kubeconfig::state::Kubeconfigs;
use kubyl_kubeconfig::switcher::{
    clamp_selection, filtered, first_selection, headings, move_selection, source_text, SwitchItem,
};
use kubyl_kubeconfig::tls::CaOrigin;
use kubyl_kubeconfig::users::AuthKind;
use kubyl_kubeconfig::validate::{validate, Facts, Severity};
use kubyl_kubeconfig::value::{Object, Value};

const FILE: &str = r#"{
 "clusters": [{"name": "c", "cluster": {"server": "https://127.0.0.1:6443"}},
              {"name": "d", "cluster": {"server": "http://plain", "insecure-skip-tls-verify": true}}],
 "contexts": [{"name": "x", "context": {"cluster": "c", "user": "u", "namespace": "payments"}},
              {"name": "y", "context": {"cluster": "d"}}],
 "users": [{"name": "u", "user": {"token": "s3cret"}},
           {"name": "v", "user": {"exec": {"command": "aws", "env": [{"name": "A", "value": "1"}, {"name": "API_TOKEN", "value": "t"}]}}}],
 "current-context": "x"}"#;

fn value(v: &serde_json::Value) -> Value {
    match v {
        serde_json::Value::Null => Value::Null,
        serde_json::Value::Bool(b) => Value::Bool(*b),
        serde_json::Value::Number(n) => Value::Number(n.to_string()),
        serde_json::Value::String(s) => Value::Str(s.clone()),
        serde_json::Value::Array(items) => Value::Array(items.iter().map(value).collect()),
        serde_json::Value::Object(o) => {
            Value::Object(Object::of(o.iter().map(|(k, v)| (k.clone(), value(v))).collect()))
        }
    }
}

fn doc(text: &str) -> Doc {
    Doc::parse(value(&serde_json::from_str(text).unwrap())).unwrap()
}

fn entry(kind: Kind, name: &str) -> EntryRef {
    EntryRef::new(kind, name)
}

fn now() -> Moment {
    Moment { second: 1_767_225_600, nanosecond: 0 }
}

fn at(seconds: i64) -> Moment {
    Moment { second: 1_767_225_600 + seconds, nanosecond: 0 }
}

fn nothing() -> Facts {
    Facts {
        files: Vec::new(),
        token_files: Vec::new(),
        commands: Vec::new(),
        expiries: Vec::new(),
    }
}

fn open(owned: bool) -> KubeconfigEditor {
    let mut editor = KubeconfigEditor::open_file(
        "/k/team.yaml".to_string(),
        "~/team.yaml".to_string(),
        owned,
        "team.yaml".to_string(),
    );
    editor.loaded(snapshot(Some(FILE.as_bytes().to_vec())), Ok(doc(FILE)));
    editor
}

#[test]
fn the_toolbar_follows_the_file() {
    let mut editor = open(true);
    let shown = toolbar(&editor, false, true, 0);
    assert_eq!((shown.badge, shown.badge_tone), ("Kubyl-owned", Tone::Green));
    assert!(!shown.can_save && !shown.can_revert && shown.can_test && shown.can_test_all);
    use_namespace(&mut editor, "x", "other");
    let shown = toolbar(&editor, false, true, 2);
    assert_eq!(shown.changes.as_deref(), Some("2 unsaved changes"));
    assert!(shown.can_save && shown.can_revert);
    let shown = toolbar(&open(false), false, true, 0);
    assert_eq!(shown.badge, "External file · read-only");
    assert!(shown.can_copy && shown.can_start_editing && !shown.can_stop_editing);
    let shown = toolbar(&open(false), true, true, 0);
    assert_eq!(shown.badge, "External file · editing on");
    assert!(shown.can_stop_editing && !shown.can_start_editing);
    assert_eq!(banner(&editor, "team.yaml"), None);
    let theirs = Snapshot { text: "x".to_string(), hash: Some(hash(b"x")) };
    editor.look_at_disk(theirs, Ok(Doc::empty()));
    assert!(banner(&editor, "team.yaml").unwrap().starts_with("team.yaml changed on disk."));
    assert_eq!(editor.disk_texts(), Some((FILE, "x")));
    assert_eq!(open(true).disk_texts(), None);
}

#[test]
fn lists_show_a_second_line() {
    let editor = open(true);
    assert_eq!(secondary_label(&editor, &entry(Kind::Context, "x")), "c · u");
    assert_eq!(secondary_label(&editor, &entry(Kind::Cluster, "c")), "127.0.0.1:6443");
    assert_eq!(secondary_label(&editor, &entry(Kind::User, "u")), "token");
    assert_eq!(secondary_label(&editor, &entry(Kind::User, "v")), "exec · aws");
    let problems = validate(&editor.doc, &nothing(), now());
    let (title, rows) = list(&editor, Kind::Cluster, "", &problems);
    assert_eq!(title, "CLUSTERS");
    assert_eq!(rows.len(), 2);
    assert_eq!(rows[1].problem, Some(Severity::Warning), "{rows:?}");
    let (_, rows) = list(&editor, Kind::Context, "X", &problems);
    assert_eq!(rows.len(), 1);
    assert!(rows[0].selected && rows[0].name == "x");
}

#[test]
fn the_editor_shows_one_thing() {
    let mut editor = open(true);
    assert!(matches!(center(&editor), Center::Form));
    assert!(editor.set_tab(Tab::Yaml));
    assert!(!editor.set_tab(Tab::Yaml));
    assert!(matches!(center(&editor), Center::Yaml));
    editor.load_error = Some("broken".to_string());
    assert!(matches!(center(&editor), Center::Message(m) if m.contains("broken")));
    let mut editor = open(true);
    let global = Kubeconfigs::new();
    assert!(test_panel(&editor, &global).is_none());
    editor.show_test = true;
    assert_eq!(test_panel(&editor, &global).unwrap().context, "x");
    edit_user(&mut editor, "x");
    assert_eq!(editor.selection, Some(entry(Kind::User, "u")));
    assert_ne!(reveal_label(true), reveal_label(false));
    assert!(yaml_note(Some("bad indent")).contains("bad indent"));
    assert_eq!(form_note(&editor), None);
    editor.selection = None;
    assert!(form_note(&editor).unwrap().starts_with("Select or add"));
    editor.selection = Some(entry(Kind::User, "gone"));
    assert_eq!(form_note(&editor), Some("This entry is gone."));
}

#[test]
fn forms_bind_their_fields() {
    assert_eq!(binding("server"), Some((Kind::Cluster, vec!["server"])));
    assert_eq!(binding("exec-command"), Some((Kind::User, vec!["exec", "command"])));
    assert_eq!(binding("nope"), None);
    assert!(is_secret("password") && !is_secret("username"));
    assert_eq!(placeholder("namespace"), "default");
    let mut editor = open(true);
    editor.selection = Some(entry(Kind::User, "u"));
    let form = Form::build(&editor);
    let token = form.inputs.iter().find(|i| i.id == "token").unwrap();
    assert_eq!((token.value.as_str(), token.masked), ("s3cret", true));
    editor.selection = Some(entry(Kind::User, "v"));
    let form = Form::build(&editor);
    assert_eq!(form.env.len(), 2);
    assert!(!form.env[0].masked && form.env[1].masked);
}

#[test]
fn a_typed_value_is_read_back() {
    let mut document = doc(FILE);
    let c = entry(Kind::Cluster, "c");
    form_changed(&mut document, &c, "server", "https://new");
    assert_eq!(get_str(document.body(Kind::Cluster, "c").unwrap(), &["server"]), "https://new");
    form_changed(&mut document, &c, "nope", "x");
    form_changed(&mut document, &c, "server", "");
    assert!(document.body(Kind::Cluster, "c").unwrap().get("server").is_none());
    let v = entry(Kind::User, "v");
    env_changed(&mut document, &v, &vec![("B".to_string(), "2".to_string())]);
    let json = to_json(&document.0);
    assert!(json.contains("\"B\"") && !json.contains("API_TOKEN"), "{json}");
    assert_eq!(display_name(" a "), Some("a".to_string()));
    assert_eq!(display_name(" "), None);
}

#[test]
fn files_and_data_replace_each_other() {
    let mut body = Object::new();
    set_pem(&mut body, "-----BEGIN X-----\nAQID\n-----END X-----\n", "f", "d");
    assert!(body.contains_key("d") && !body.contains_key("f"));
    set_pem(&mut body, "", "f", "d");
    assert!(!body.contains_key("d"));
}

#[test]
fn context_forms_pick_their_entries() {
    let mut document = doc(FILE);
    let x = entry(Kind::Context, "x");
    let body = document.body(Kind::Context, "x").unwrap();
    let card = context_card(&document, &x, body, &vec!["a".to_string()]);
    assert_eq!((card.cluster.as_str(), card.user.as_str()), ("c", "u"));
    assert_eq!(card.clusters, ["c", "d"]);
    assert_eq!(card.namespace_hint, "1 namespaces from the last test");
    assert!(card.current && card.can_edit_cluster && card.can_edit_user);
    let y = entry(Kind::Context, "y");
    let body = document.body(Kind::Context, "y").unwrap();
    let card = context_card(&document, &y, body, &Vec::new());
    assert_eq!(card.user, "choose a user");
    assert!(!card.can_edit_user && !card.current);
    pick_cluster(&mut document, "x", "d");
    pick_user(&mut document, "x", None);
    assert_eq!(document.context_refs("x"), (Some("d".to_string()), None));
    toggle_current(&mut document, "x");
    assert_eq!(document.current_context(), None);
    toggle_current(&mut document, "y");
    assert_eq!(document.current_context(), Some("y"));
    let header = entry_header(&document, &y);
    assert!(header.current && header.kind == "Context");
}

fn a_cert() -> CertInfo {
    CertInfo {
        subject: "CN=me".to_string(),
        issuer: "CN=ca".to_string(),
        self_signed: false,
        is_ca: false,
        not_before: now().second - 86_400,
        not_after: now().second + 5 * 86_400,
        names: Vec::new(),
        sha256: vec![1; 32],
        spki_sha256: vec![2; 32],
        der: Vec::new(),
    }
}

#[test]
fn certificates_are_shown() {
    let card = cert_card(&a_cert(), now());
    assert_eq!((card.valid.as_str(), card.tone), ("until 2026-01-06 (5 days)", Tone::Yellow));
    assert_eq!(card.subject, "CN=me");
    let late = cert_card_on(&a_cert(), "D", at(6 * 86_400));
    assert_eq!((late.valid.as_str(), late.tone), ("expired D", Tone::Red));
    let early = cert_card_on(&a_cert(), "D", at(-90 * 86_400));
    assert_eq!((early.valid.as_str(), early.tone), ("until D", Tone::Plain));
    let own = CertInfo { self_signed: true, ..a_cert() };
    assert!(cert_card_on(&own, "D", now()).issuer.ends_with(" (self-signed)"));
    let card = ca_card(&a_cert(), CaOrigin::ServedChain);
    assert!(card.valid.contains("2025-12-31") && card.valid.contains("2026-01-06"), "{card:?}");
    assert_eq!(card.sha256.0.len() + card.sha256.1.len(), 94);
    assert!(ca_card_on(&a_cert(), CaOrigin::ClusterInfo, "F", "T").valid.contains('F'));
    assert!(certificates("").is_err());
}

#[test]
fn cluster_forms_choose_their_ca() {
    let mut document = doc(FILE);
    let d = entry(Kind::Cluster, "d");
    let body = document.body(Kind::Cluster, "d").unwrap();
    let card = cluster_card(&document, &d, body, None, &nothing(), now());
    assert_eq!(card.mode, PemMode::System);
    assert!(card.insecure && card.insecure_notice.is_some() && card.can_fetch);
    assert_eq!(card.used.as_deref(), Some("Used by y"));
    let card = cluster_card(&document, &d, body, Some(PemMode::Pem), &nothing(), now());
    assert_eq!(card.mode, PemMode::Pem);
    toggle(&mut document, Kind::Cluster, "d", &["insecure-skip-tls-verify"]);
    let body = document.body(Kind::Cluster, "d").unwrap();
    assert!(!get_bool(body, &["insecure-skip-tls-verify"]));
    form_changed(&mut document, &d, "ca-file", "/ca");
    let body = document.body(Kind::Cluster, "d").unwrap();
    let card = cluster_card(&document, &d, body, None, &nothing(), now());
    assert_eq!(card.mode, PemMode::File);
    choose_ca_mode(&mut document, "d", PemMode::System);
    let body = document.body(Kind::Cluster, "d").unwrap();
    assert!(!body.contains_key("certificate-authority"));
}

#[test]
fn user_forms_follow_their_kind() {
    let mut document = doc(FILE);
    let u = entry(Kind::User, "u");
    let body = document.body(Kind::User, "u").unwrap();
    let card = user_card(&document, &u, body, Some(at(60)), now());
    assert_eq!(card.kind, AuthKind::Token);
    assert_eq!(card.rows, [("token", "Token")]);
    assert_eq!(card.expiry.as_deref(), Some("expires 2026-01-01 00:01 UTC"));
    assert!(card.can_copy);
    let late = user_card(&document, &u, body, Some(at(-60)), now());
    assert_eq!(late.expiry.as_deref(), Some("expired 2025-12-31 23:59 UTC"));
    pick_auth_kind(&mut document, "u", AuthKind::Basic);
    let body = document.body(Kind::User, "u").unwrap();
    let card = user_card(&document, &u, body, None, now());
    assert!(card.notice.unwrap().contains("1.19"));
    pick_auth_kind(&mut document, "u", AuthKind::ClientCertificate);
    let body = document.body(Kind::User, "u").unwrap();
    let card = client_cert_card(body, Some(PemMode::File), Some(PemMode::Pem), &nothing(), now());
    assert_eq!((card.cert_mode, card.key_mode), (PemMode::File, PemMode::Pem));
    assert!(card.key_hint.is_some() && card.certificates.is_empty());
}

#[test]
fn exec_forms_show_their_plugin() {
    let mut document = doc(FILE);
    let card = exec_card(document.body(Kind::User, "v").unwrap());
    assert_eq!(card.api_version, "(not set)");
    assert_eq!(card.variables, 2);
    apply_preset(&mut document, "v", ExecPreset::Gke);
    let card = exec_card(document.body(Kind::User, "v").unwrap());
    assert!(card.provide_cluster_info);
    assert!(api_choices().contains(&card.api_version.as_str()), "{card:?}");
    assert_eq!(interactive_choices(), ["", "Never", "IfAvailable", "Always"]);
    assert_eq!(choice_text("Never".to_string()), "Never");
}

#[test]
fn problems_are_listed_with_their_owner() {
    let document = doc(FILE);
    let problems = validate(&document, &nothing(), now());
    let (title, rows) =
        problems_card(&document, &problems, &entry(Kind::Context, "y")).unwrap();
    assert!(title.starts_with("Problems · "), "{title}");
    assert!(rows.iter().any(|r| r.owner.as_deref() == Some("Cluster d")), "{rows:?}");
    assert!(problems_card(&document, &Vec::new(), &entry(Kind::Context, "x")).is_none());
    assert_eq!(ago(now(), at(59)), "just now");
    assert_eq!(ago(now(), at(120)), "2 min ago");
    let report = Report::starting_at("x", now());
    assert_eq!(
        last_test(&report, at(120)),
        ("LAST TEST · 2 MIN AGO".to_string(), "Testing…".to_string())
    );
}

fn facts() -> ConnectionFacts {
    ConnectionFacts {
        source: "~/.kube/config".to_string(),
        name: "dev".to_string(),
        context: "kind-dev".to_string(),
        server: Some("https://x".to_string()),
        auth: ConnectionAuth::Oidc { issuer_host: "sso".to_string(), client_id: "k".to_string() },
        store: "keychain".to_string(),
        insecure: false,
        ca: ShownCa::System,
        tls_server_name: None,
        proxy_url: None,
        error: None,
        cluster: Some(ClusterFacts {
            expires: None,
            proxy: None,
            version: Some(("v1.33".to_string(), Some("me".to_string()))),
            kinds: Some(60),
            crds: Some(3),
            namespaces: 4,
            listed: true,
        }),
    }
}

#[test]
fn connections_are_shown_in_rows() {
    let row = |card: &kubyl_kubeconfig::clusters_view::ConnectionCard, label: &str| {
        card.rows.iter().find(|r| r.0 == label).map(|r| r.1.clone())
    };
    let card = connection_card(&facts(), &ConnectionState::Connected { millis: 5 }, now());
    assert_eq!(row(&card, "Auth").as_deref(), Some("OIDC · sso · client k"));
    assert_eq!(row(&card, "CA").as_deref(), Some("system trust store"));
    assert_eq!(row(&card, "Discovery").as_deref(), Some("60 kinds · 3 CRDs"));
    assert_eq!(row(&card, "Namespaces").as_deref(), Some("4 (watched)"));
    assert_eq!(row(&card, "User").as_deref(), Some("me"));
    assert_eq!(card.connect_label, "Disconnect");
    assert!(card.error.is_none());
    let card = connection_card(&facts(), &ConnectionState::Connecting, now());
    assert!(!card.can_connect);
    let failed = ConnectionState::AuthRequired {
        message: "sign in".to_string(),
        detail: Some("d".to_string()),
        sign_in: true,
    };
    let card = connection_card(&facts(), &failed, now());
    assert!(card.error.is_some() && card.can_sign_in);
    let insecure = ConnectionFacts { insecure: true, ..facts() };
    let card = connection_card(&insecure, &ConnectionState::Disconnected, now());
    assert_eq!(row(&card, "CA").as_deref(), Some("TLS verification disabled"));
    assert_eq!(expiry_label(at(30), now()), "cached · expires in 30s");
    assert_eq!(expiry_label(at(600), now()), "cached · expires in 10m");
    assert_eq!(expiry_label(at(7200), now()), "cached · expires in 2h");
    assert_eq!(expiry_label(at(-1), now()), "expired");
}

#[test]
fn contexts_and_sources_are_listed() {
    let item = |id: &str, hidden: bool| ContextItem {
        id: id.to_string(),
        name: id.to_string(),
        display_name: format!("The {id}"),
        server: None,
        auth: "token".to_string(),
        state: "connected".to_string(),
        hidden,
    };
    let items = vec![item("a", false), item("b", false)];
    let rows = context_rows(&items, "", Some("b"));
    assert_eq!(rows.len(), 2);
    assert!(!rows[0].selected && rows[1].selected);
    assert_eq!((rows[1].name.as_str(), rows[1].server.as_str()), ("The b", "—"));
    assert_eq!(context_rows(&items, "THE A", None).len(), 1);
    let sources = vec!["/a".to_string(), "/b".to_string(), "/b".to_string()];
    assert_eq!(first_context(&sources, "/b"), Some(1));
    assert_eq!(first_context(&sources, "/c"), None);
    assert_eq!(contexts_note(3, 1), "3 from 1 source");
    assert_eq!(contexts_note(3, 2), "3 from 2 sources");
    assert!(no_contexts_note(0).starts_with("No contexts"));
    assert!(no_contexts_note(1).contains("filter"));
    let mut source = SourceFacts {
        kind: SourceKind::Env,
        is_dir: false,
        named: 2,
        loaded: 2,
        contexts: 1,
        has_oidc: false,
        errors: vec!["a".to_string(), "b".to_string()],
    };
    let row = source_row(&source);
    assert_eq!(row.icon, SourceIcon::Bolt);
    assert_eq!(row.subtitle, "merged · 2 files · 1 context");
    assert_eq!(row.error.as_deref(), Some("a (+1 more)"));
    source.kind = SourceKind::User;
    source.errors.clear();
    source.is_dir = true;
    let row = source_row(&source);
    assert_eq!((row.icon, row.can_remove), (SourceIcon::Folder, true));
    assert!(!lists_source(SourceKind::Pasted, 0) && lists_source(SourceKind::User, 0));
    assert_ne!(no_sources_note(true), no_sources_note(false));
    assert_eq!(namespace_change(&None, " "), None);
    assert_eq!(namespace_change(&None, "x"), Some(Some("x".to_string())));
    assert_eq!(namespace_change(&Some("x".to_string()), ""), Some(None));
    let ids = vec!["a".to_string(), "b".to_string()];
    let active = Some("b".to_string());
    assert_eq!(ensure_selection(Some("a".into()), &active, &ids).as_deref(), Some("a"));
    assert_eq!(ensure_selection(Some("z".into()), &active, &ids).as_deref(), Some("b"));
    assert_eq!(ensure_selection(None, &None, &ids).as_deref(), Some("a"));
    assert_eq!(safety_title("dev"), "DEV · SAFETY");
    for switch in SafetySwitch::ALL {
        assert!(!switch.texts().0.is_empty() && !switch.texts().1.is_empty());
        let mut set = ContextSwitches { production: false, read_only: false, hidden: false };
        set.set(switch, true);
        for other in SafetySwitch::ALL {
            assert_eq!(set.is_on(other), other == switch);
        }
    }
    let set = ContextSwitches { production: true, read_only: false, hidden: true };
    let card = overrides_card(Some(&set));
    assert_eq!(card.rows, [(SafetySwitch::Production, true), (SafetySwitch::ReadOnly, false)]);
    assert!(overrides_card(None).note.unwrap().starts_with("Save the file"));
    assert_eq!(connected_note(1), None);
    assert_eq!(connected_note(2).as_deref(), Some("· 2 clusters connected"));
}

#[test]
fn the_status_item_warns() {
    assert_eq!(status_item(None, "No Cluster").1, StatusTone::Dim);
    let state = ConnectionState::Unreachable { message: "m".to_string(), retry: None };
    let (shown, tone) = status_item(Some(&state), "Unreachable");
    assert_eq!(tone, StatusTone::Red);
    assert!(!shown.contains('U'), "{shown}");
    let (shown, _) = status_on(Some(&state), "unreachable".to_string());
    assert!(shown.contains("unreachable"), "{shown}");
}

fn signing_in() -> SignIn {
    SignIn {
        name: "dev".to_string(),
        issuer: "https://sso".to_string(),
        client_id: "k".to_string(),
        scopes: vec!["openid".to_string(), "email".to_string()],
        store: "keychain".to_string(),
        method: SignInMethod::Browser,
        phase: Phase::Starting,
    }
}

#[test]
fn signing_in_goes_through_its_phases() {
    assert_eq!(opens_for(true, true, false), Opens::OpenShift);
    assert_eq!(opens_for(false, true, true), Opens::Oidc);
    assert_eq!(first_method(true), SignInMethod::DeviceCode);
    let mut s = signing_in();
    assert!(!s.start(SignInMethod::Browser, false));
    assert!(matches!(&s.phase, Phase::Failed(e) if e == "The context no longer exists."));
    assert_eq!(sign_in::dialog(&s).primary, "Try again");
    assert!(s.start(SignInMethod::Browser, true));
    let opened = s.on_event(SignInEvent::WaitingForBrowser {
        url: "https://sso/auth".to_string(),
        redirect_uri: "http://127.0.0.1:1".to_string(),
    });
    assert_eq!(opened, None);
    let shown = sign_in::dialog(&s);
    assert_eq!(shown.title, "Sign in to dev");
    assert_eq!(shown.scopes, "openid email");
    assert_eq!(shown.status.title, "Waiting for your browser…");
    assert_eq!(shown.primary, "Use device code");
    assert_eq!(primary_method(&s), SignInMethod::DeviceCode);
    s.start(SignInMethod::DeviceCode, true);
    let opened = s.on_event(SignInEvent::DeviceCode {
        user_code: "AB-CD".to_string(),
        verification_uri: "https://sso.example/device?x=1".to_string(),
        complete: Some("https://sso.example/device?code=AB-CD".to_string()),
    });
    assert_eq!(opened.as_deref(), Some("https://sso.example/device?code=AB-CD"));
    let shown = sign_in::dialog(&s);
    let device = shown.device.unwrap();
    assert_eq!((device.code.as_str(), device.page.as_str()), ("AB-CD", "sso.example/device"));
    assert_eq!(page_text("raw", &Err("no".to_string())), "raw");
    assert_eq!(s.finish(Err("denied".to_string())), None);
    assert!(sign_in::dialog(&s).status.failed);
    assert_eq!(s.finish(Ok(())).as_deref(), Some("Signed in to dev"));
}

#[test]
fn openshift_offers_three_ways() {
    let new = |hint: &str| {
        OpenShiftSignIn::new("dev".into(), "https://x".into(), "u".into(), "keychain".into(), hint)
    };
    assert_eq!(new("kubeadmin").method, Method::Password);
    let mut s = new("");
    assert_eq!(s.method, Method::Browser);
    s.on_metadata(Ok(OauthServer {
        issuer: "https://oauth".to_string(),
        token_page: "https://oauth/token".to_string(),
        browser: false,
    }));
    assert!(s.browser_unsupported());
    assert_eq!(s.token_page(), Some("https://oauth/token"));
    s.select(Method::Password);
    assert_eq!(s.apply_focus(""), Focus::Username);
    assert!(matches!(s.submit("", "", ""), Submit::Nothing));
    assert!(openshift::dialog(&s).status.unwrap().failed);
    assert!(
        matches!(s.submit("me", "pw", ""), Submit::Password { username, .. } if username == "me")
    );
    let shown = openshift::dialog(&s);
    assert_eq!(shown.primary, Some(("Sign in", false)));
    assert_eq!(s.finish(Err("wrong".to_string())), None);
    s.select(Method::Token);
    assert!(matches!(s.submit("", "", "sha256~t"), Submit::Token(_)));
    assert_eq!(
        s.finish(Ok(Some("me".to_string()))).as_deref(),
        Some("Signed in to dev as me")
    );
    assert_eq!(shown.tabs.len(), 3);
    assert_eq!(Method::Password.label(), "Username & password");
    let mut s = new("");
    s.waiting("https://u".into(), "http://r".into());
    assert_eq!(openshift::dialog(&s).status.unwrap().title, "Waiting for your browser…");
    s.on_metadata(Err("unreachable".to_string()));
    assert!(openshift::dialog(&s).oauth.contains("unreachable"));
}

#[test]
fn up_takes_back_down() {
    let item = |id: &str, kind: SourceKind, file: &str| SwitchItem {
        id: id.to_string(),
        name: format!("Name {id}"),
        server: Some(format!("https://{id}")),
        kind,
        file: file.to_string(),
    };
    let items = vec![
        item("a", SourceKind::Default, "~/.kube/config"),
        item("b", SourceKind::Default, "~/.kube/config"),
        item("c", SourceKind::Env, "/e"),
    ];
    assert_eq!(source_text(&items[2]), "$KUBECONFIG · /e");
    assert_eq!(filtered(&items, "NAME B"), [1]);
    assert_eq!(filtered(&items, ""), [0, 1, 2]);
    assert_eq!(first_selection(&items, Some("b")), 1);
    assert_eq!(first_selection(&items, Some("z")), 0);
    assert_eq!(move_selection(2, true, 3), 0);
    assert_eq!(move_selection(0, false, 3), 2);
    for i in 0..3 {
        assert_eq!(move_selection(move_selection(i, true, 3), false, 3), i);
    }
    assert_eq!(clamp_selection(5, 3), 2);
    assert_eq!(clamp_selection(5, 0), 0);
    let shown = headings(&items);
    assert_eq!(shown[0].as_deref(), Some("~/.kube/config"));
    assert_eq!(shown[1], None);
    assert!(shown[2].is_some());
}

#[test]
fn pasted_exec_plugins_need_trust() {
    let mut view = Paste::new();
    let commands = || {
        vec![ExecCommand {
            command: "sso-helper token".to_string(),
            env: vec!["A=1".to_string()],
            users: vec!["u".to_string()],
        }]
    };
    view.changed(commands());
    assert_eq!(view.commands.len(), 1);
    assert_eq!(view.commands[0].command, "sso-helper token");
    let contexts = vec!["c".to_string()];
    assert!(matches!(view.save(1, "", &contexts), PasteStep::Refused));
    assert!(view.error.is_some(), "refused without trust");
    assert!(!view.saving);
    view.trusted = true;
    assert!(matches!(view.save(1, "", &contexts), PasteStep::Save(name) if name == "c"));
    assert!(view.saving);
    assert_eq!(view.button(), ("Saving…", false));
    assert_eq!(view.finish(Ok("/p".to_string())).as_deref(), Some("Saved to /p"));
    // Other commands need trust of their own.
    view.changed(Vec::new());
    assert!(!view.trusted);
    assert!(matches!(view.save(0, " mine ", &contexts), PasteStep::Save(name) if name == "mine"));
    assert_eq!(view.finish(Err("no".to_string())), None);
    assert_eq!(view.error.as_deref(), Some("no"));
    assert!(matches!(view.save(0, "", &Vec::new()), PasteStep::Save(name) if name == "kubeconfig"));
    assert_eq!(
        command_lines(&commands()[0]),
        (Some("env: A=1".to_string()), "for u".to_string())
    );
    let (title, shown) = prompt("aws", "dev", "");
    assert_eq!(title, "aws needs input (dev)");
    assert_eq!(shown, "Waiting for output…");
}

fn references(v: &Value, out: &mut Vec<String>) {
    match v {
        Value::Array(items) => items.iter().for_each(|i| references(i, out)),
        Value::Object(o) => {
            for i in 0..o.len() {
                if o.key_at(i) == "$ref" {
                    out.push(o.value_at(i).as_str().unwrap().to_string());
                }
                references(o.value_at(i), out);
            }
        }
        _ => {}
    }
}

#[test]
fn the_schema_is_closed() {
    let schema = document();
    let schemas = schema.get("components").unwrap().get("schemas").unwrap();
    let mut all = Vec::new();
    references(&schema, &mut all);
    assert!(all.len() > 3);
    for r in all {
        let name = r.strip_prefix("#/components/schemas/").unwrap();
        assert!(schemas.get(name).is_some(), "{name}");
    }
    assert_eq!(gvk().2, "Config");
    assert!(SOURCE.contains("clientcmd"));
    let text = to_json(&schema);
    assert!(text.contains("insecure-skip-tls-verify") && text.contains("interactiveMode"));
    assert!(serde_json::from_str::<serde_json::Value>(&text).is_ok());
}
