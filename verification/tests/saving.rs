//! Saving: the checks of a save, backups, and the editor of a file.

use kubyl_kubeconfig::certs::Moment;
use kubyl_kubeconfig::dialogs::{
    agree_to_all, ca_result, ca_target, can_use_ca, changed_exec, consent_card, consent_title, delete, opt_in,
    rename_title, save_dialog, save_preview, set_ca, split_fingerprint, CaResult, CaState,
};
use kubyl_kubeconfig::editor::{
    asks_editor, draft_id, draft_path, file_title, group_consents, is_entry, KubeconfigEditor, Tab,
};
use kubyl_kubeconfig::exec::ExecSpec;
use kubyl_kubeconfig::fields::{get_str, set_str};
use kubyl_kubeconfig::files::{
    backup_name, backup_prefix, backups_of, backups_with_prefix, check_again, hash, hash_file,
    new_owned_path, plan_save, prune, saved, snapshot, split_counter, temp_name, Backups,
    SaveError, SaveOptions, Saved, Snapshot,
};
use kubyl_kubeconfig::model::{Doc, EntryRef, Kind};
use kubyl_kubeconfig::names::free_name;
use kubyl_kubeconfig::settings::KubeconfigSettings;
use kubyl_kubeconfig::state::{Draft, Kubeconfigs};
use kubyl_kubeconfig::users::mask_secrets;
use kubyl_kubeconfig::value::{Object, Value};

const FILE: &str = r#"{"apiVersion": "v1", "kind": "Config",
 "clusters": [{"name": "dev", "cluster": {"server": "https://127.0.0.1:6443"}}],
 "contexts": [{"name": "dev", "context": {"cluster": "dev", "user": "dev"}}],
 "users": [{"name": "dev", "user": {"token": "abc"}}],
 "current-context": "dev"}"#;

const PREFIX: &str = "config-0badcafe-";
const MASK: &str = "••••••••";

fn value(v: &serde_json::Value) -> Value {
    match v {
        serde_json::Value::Null => Value::Null,
        serde_json::Value::Bool(b) => Value::Bool(*b),
        serde_json::Value::Number(n) => Value::Number(n.to_string()),
        serde_json::Value::String(s) => Value::Str(s.clone()),
        serde_json::Value::Array(items) => Value::Array(items.iter().map(value).collect()),
        serde_json::Value::Object(o) => {
            Value::Object(Object::of(o.iter().map(|(k, v)| (k.clone(), value(v))).collect()))
        }
    }
}

fn doc(text: &str) -> Doc {
    Doc::parse(value(&serde_json::from_str(text).unwrap())).unwrap()
}

/// A file with its backups, in memory.
struct Disk {
    file: Option<Vec<u8>>,
    mode: Option<u32>,
    backups: Vec<(String, Vec<u8>)>,
}

impl Disk {
    fn new() -> Disk {
        Disk { file: None, mode: None, backups: Vec::new() }
    }

    fn names(&self) -> Vec<String> {
        self.backups.iter().map(|b| b.0.clone()).collect()
    }

    fn text(&self) -> String {
        String::from_utf8(self.file.clone().unwrap()).unwrap()
    }

    /// A save; `meanwhile` is what another tool writes between the two checks.
    fn save(
        &mut self,
        text: &str,
        options: &SaveOptions,
        meanwhile: Option<&str>,
    ) -> Result<Saved, SaveError> {
        let plan = plan_save(options, &self.file, self.mode)?;
        let mut backup = None;
        if plan.backup {
            let name = backup_name(&self.names(), PREFIX, "20260926-140512");
            self.backups.push((name.clone(), self.file.clone().unwrap()));
            let gone = prune(
                &backups_with_prefix(&self.names(), PREFIX),
                options.backups.as_ref().unwrap().keep,
            );
            self.backups.retain(|b| !gone.contains(&b.0));
            backup = Some(name);
        }
        if let Some(other) = meanwhile {
            self.file = Some(other.as_bytes().to_vec());
        }
        check_again(&hash_file(&self.file), &plan.current)?;
        self.file = Some(text.as_bytes().to_vec());
        self.mode = plan.mode;
        Ok(saved("/config".to_string(), text, backup, plan.mode))
    }
}

fn options(expected: Option<String>, keep: usize) -> SaveOptions {
    SaveOptions {
        expected,
        backups: Some(Backups { dir: "/backups".to_string(), keep }),
        private: false,
    }
}

#[test]
fn saves_atomically_with_backups_and_a_hash_check() {
    let mut disk = Disk::new();
    // New file: must not exist yet; 0600.
    let done = disk.save("a: 1\n", &options(None, 2), None).unwrap();
    assert_eq!(done.backup, None);
    assert_eq!(done.mode, Some(0o600));
    assert_eq!(disk.save("x", &options(None, 2), None), Err(SaveError::Exists));

    // Existing file with a looser mode keeps it unless it gets credentials.
    disk.mode = Some(0o644);
    let snap = snapshot(disk.file.clone()).unwrap();
    let done = disk.save("a: 2\n", &options(snap.hash.clone(), 2), None).unwrap();
    assert_eq!(done.mode, Some(0o644));
    assert_eq!(done.hash, hash(b"a: 2\n"));
    assert_eq!(disk.backups[0].0, done.backup.unwrap());
    assert_eq!(disk.backups[0].1, b"a: 1\n");

    // A stale hash is refused and nothing changes.
    let stale = snap.hash.clone();
    assert!(matches!(
        disk.save("a: 3\n", &options(stale, 2), None),
        Err(SaveError::Changed { current: Some(_) })
    ));
    assert_eq!(disk.text(), "a: 2\n");

    // Private saves tighten the mode; only `keep` backups stay.
    for i in 3..9 {
        let snap = snapshot(disk.file.clone()).unwrap();
        let mut opts = options(snap.hash, 2);
        opts.private = true;
        let done = disk.save(&format!("a: {i}\n"), &opts, None).unwrap();
        assert_eq!(done.mode, Some(0o600));
    }
    let kept = backups_with_prefix(&disk.names(), PREFIX);
    assert_eq!(kept.len(), 2);
    let read = |name: &String| disk.backups.iter().find(|b| &b.0 == name).unwrap().1.clone();
    assert_eq!(read(kept.last().unwrap()), b"a: 7\n");
    assert_eq!(read(&kept[0]), b"a: 6\n");
}

#[test]
fn a_write_while_saving_is_not_overwritten() {
    let mut disk = Disk::new();
    disk.file = Some(b"a: 1\n".to_vec());
    // Another tool writes the file after the first check, while the temp file is written.
    let result = disk.save("a: 2\n", &options(Some(hash(b"a: 1\n")), 2), Some("a: 3\n"));
    assert_eq!(result, Err(SaveError::Changed { current: Some(hash(b"a: 3\n")) }));
    assert_eq!(disk.text(), "a: 3\n");
    // One that appears meanwhile isn't overwritten either.
    let mut disk = Disk::new();
    let result = disk.save("a: 2\n", &options(None, 2), Some("a: 3\n"));
    assert_eq!(result, Err(SaveError::Exists));
    // One that is gone is told as such.
    assert_eq!(
        check_again(&None, &Some("h".to_string())),
        Err(SaveError::Changed { current: None })
    );
}

#[test]
fn names_new_owned_files() {
    let mut taken = Vec::new();
    let path = new_owned_path(&taken, "kind dev");
    assert_eq!(path, "kind-dev.yaml");
    taken.push(path);
    assert_eq!(new_owned_path(&taken, "kind dev"), "kind-dev-2.yaml");
    assert_eq!(snapshot(None).unwrap().hash, None);
    assert_eq!(new_owned_path(&taken, "../.."), "kubeconfig.yaml");
    assert_eq!(free_name(&taken, "kind-dev", ".yaml", 2), "kind-dev-2.yaml");
}

#[test]
fn save_errors_are_explained() {
    assert!(SaveError::Changed { current: None }.message().contains("deleted"));
    assert!(SaveError::Changed { current: Some(String::new()) }.message().contains("changed"));
    assert!(!SaveError::Exists.message().is_empty());
    assert!(SaveError::Io("no space".to_string()).message().contains("no space"));
    assert!(snapshot(Some(vec![0xff])).is_err());
    assert_eq!(snapshot(Some(b"a".to_vec())).unwrap().text, "a");
    // SHA-256 of the empty text.
    assert_eq!(
        hash(b""),
        "e3b0c44298fc1c149afbf4c8996fb92427ae41e4649b934ca495991b7852b855"
    );
}

#[test]
fn backups_are_named_and_ordered() {
    let prefix = backup_prefix(Some("my config"), "/home/me/.kube/my config");
    assert!(prefix.starts_with("my-config-") && prefix.ends_with('-'), "{prefix}");
    assert_eq!(prefix.len(), "my-config-".len() + 9);
    assert!(backup_prefix(None, "/").starts_with("kubeconfig-"));
    assert_eq!(split_counter("20260926-140512.yaml"), ("20260926-140512".to_string(), 0));
    assert_eq!(split_counter("20260926-140512-3.yaml"), ("20260926-140512".to_string(), 3));
    let name = |rest: &str| format!("{prefix}{rest}.yaml");
    let names = vec![
        name("20260926-140512-10"),
        name("20260926-140512-9"),
        "other.yaml".to_string(),
        name("20250926-140512"),
        name("20260926-140512"),
    ];
    let sorted = backups_of(&names, Some("my config"), "/home/me/.kube/my config");
    assert_eq!(
        sorted,
        [
            name("20250926-140512"),
            name("20260926-140512"),
            name("20260926-140512-9"),
            name("20260926-140512-10"),
        ]
    );
    assert_eq!(backup_name(&names, &prefix, "20260926-140512"), name("20260926-140512-11"));
    assert_eq!(backup_name(&names, &prefix, "20270101-000000"), name("20270101-000000"));
    assert_eq!(prune(&sorted, 0).len(), 3);
    assert!(prune(&sorted, 4).is_empty());
    assert_eq!(temp_name(Some("config"), 7, 9), ".config.kubyl-7-9.tmp");
    assert_eq!(temp_name(None, 7, 9), ".kubeconfig.kubyl-7-9.tmp");
}

fn open(owned: bool, text: &str) -> KubeconfigEditor {
    let mut editor = KubeconfigEditor::open_file(
        "/k/team.yaml".to_string(),
        "~/team.yaml".to_string(),
        owned,
        "team.yaml".to_string(),
    );
    assert!(editor.loading);
    let snap = snapshot(Some(text.as_bytes().to_vec()));
    editor.loaded(snap, Ok(doc(text)));
    assert!(!editor.loading);
    editor
}

fn set_namespace(editor: &mut KubeconfigEditor, ns: &str) {
    set_str(editor.doc.body_mut(Kind::Context, "dev").unwrap(), &["namespace"], ns);
}

/// Saves the editor's document onto a disk, as text.
fn save(
    editor: &mut KubeconfigEditor,
    disk: &mut Disk,
    text: &str,
    opt_in: bool,
) -> Result<Saved, SaveError> {
    let options = editor.save_options(false, opt_in, "/backups", 5)?;
    match disk.save(text, &options, None) {
        Ok(done) => {
            let shown = done.backup.clone();
            editor.saved(
                &done,
                text.to_string(),
                "team.yaml".to_string(),
                Ok(doc(text)),
                shown.as_deref(),
            );
            Ok(done)
        }
        Err(e) => {
            editor.save_failed(&e, Some(snapshot(disk.file.clone()).unwrap()));
            Err(e)
        }
    }
}

fn on_disk(text: &str) -> Disk {
    Disk { file: Some(text.as_bytes().to_vec()), mode: Some(0o644), backups: Vec::new() }
}

#[test]
fn saves_one_changed_line_with_a_backup() {
    let mut editor = open(true, FILE);
    assert!(editor.load_error.is_none(), "{:?}", editor.load_error);
    assert_eq!(editor.selection, Some(EntryRef::new(Kind::Context, "dev")));
    assert!(!editor.is_dirty());
    assert!(editor.is_owned());
    set_namespace(&mut editor, "payments");
    assert!(editor.is_dirty());
    let mut disk = on_disk(FILE);
    let text = FILE.replace("\"user\": \"dev\"}", "\"user\": \"dev\", \"namespace\": \"payments\"}");
    let done = save(&mut editor, &mut disk, &text, false).unwrap();
    assert_eq!(disk.text(), text);
    let backup = done.backup.expect("a backup");
    assert_eq!(disk.backups, [(backup, FILE.as_bytes().to_vec())]);
    assert_eq!(done.mode, Some(0o600), "inline token: 0600");
    assert!(!editor.is_dirty());
}

#[test]
fn a_file_changed_on_disk_shows_the_banner_and_is_not_overwritten_blindly() {
    let mut editor = open(true, FILE);
    let mut disk = on_disk(FILE);

    // Without local changes, a change on disk is simply taken.
    let theirs = FILE.replace("abc", "def");
    disk.file = Some(theirs.as_bytes().to_vec());
    let said = editor.look_at_disk(snapshot(disk.file.clone()).unwrap(), Ok(doc(&theirs)));
    assert_eq!(said.as_deref(), Some("~/team.yaml changed on disk and was reloaded."));
    assert!(editor.disk.is_none());
    let token = get_str(editor.doc.body(Kind::User, "dev").unwrap(), &["token"]);
    assert_eq!(token, "def");

    // With local changes: the banner, and a save is refused.
    set_namespace(&mut editor, "payments");
    let theirs = theirs.replace("\"kind\"", " \"kind\"");
    disk.file = Some(theirs.as_bytes().to_vec());
    editor.look_at_disk(snapshot(disk.file.clone()).unwrap(), Ok(doc(&theirs)));
    assert!(editor.disk.is_some(), "the banner shows");
    assert!(editor.is_dirty());
    assert!(matches!(
        save(&mut editor, &mut disk, FILE, false),
        Err(SaveError::Changed { .. })
    ));
    assert_eq!(disk.text(), theirs);

    // "Keep mine": the save writes the edit onto the new file.
    editor.keep_mine(Ok(doc(&theirs)));
    assert!(editor.disk.is_none());
    let text = theirs.replace("\"user\": \"dev\"}", "\"user\": \"dev\", \"namespace\": \"payments\"}");
    save(&mut editor, &mut disk, &text, false).unwrap();
    assert_eq!(disk.text(), text);
    assert!(!editor.is_dirty());
}

#[test]
fn files_kubyl_does_not_own_need_an_opt_in() {
    let mut editor = open(false, FILE);
    assert!(!editor.is_owned());
    let mut settings = KubeconfigSettings::default();
    let path = editor.path.clone();
    let may = settings.opted_in(&path, &Vec::new());
    assert!(!editor.is_editable(may));
    set_namespace(&mut editor, "payments");
    let mut disk = on_disk(FILE);
    let text = FILE.replace("\"user\": \"dev\"}", "\"user\": \"dev\", \"namespace\": \"payments\"}");
    assert!(matches!(
        save(&mut editor, &mut disk, &text, false),
        Err(SaveError::Io(_))
    ));
    assert_eq!(disk.text(), FILE);
    save(&mut editor, &mut disk, &text, true).unwrap();
    assert!(disk.text().contains("payments"));
    settings.set_opt_in(&path, "~/team.yaml", &Vec::new(), true);
    assert_eq!(settings.editable_files, ["~/team.yaml"]);
    let expanded = vec![path.clone()];
    assert!(editor.is_editable(settings.opted_in(&path, &expanded)));
    settings.set_opt_in(&path, "~/team.yaml", &expanded, false);
    assert!(settings.editable_files.is_empty());
}

#[test]
fn renames_and_the_yaml_tab_stay_in_sync() {
    let mut editor = open(true, FILE);
    editor.rename(&EntryRef::new(Kind::Cluster, "dev"), "kind").unwrap();
    assert_eq!(editor.doc.context_refs("dev").0.as_deref(), Some("kind"));
    editor.tab = Tab::Yaml;
    // What the YAML tab shows, with the token masked.
    let mut shown = editor.doc.clone();
    let taken = mask_secrets(&mut shown, MASK);
    assert!(shown.contains(Kind::Cluster, "kind"));
    assert_eq!(get_str(shown.body(Kind::User, "dev").unwrap(), &["token"]), MASK);
    assert_eq!(taken[0].2, "abc");
    // Typing there updates the document; the masked token stays what it was.
    let mut typed = shown;
    typed.0.as_object_mut().unwrap().insert("preferences", Value::Object(Object::new()));
    let path: Vec<&str> = taken[0].1.iter().map(|s| s.as_str()).collect();
    typed.set_text(Kind::User, &taken[0].0, &path, &taken[0].2);
    editor.doc = typed;
    assert!(editor.doc.0.get("preferences").is_some());
    assert_eq!(get_str(editor.doc.body(Kind::User, "dev").unwrap(), &["token"]), "abc");
    assert!(editor.is_dirty());
}

#[test]
fn renamed_contexts_take_their_overrides_along() {
    let mut editor = open(true, FILE);
    let context = |name: &str| EntryRef::new(Kind::Context, name);
    editor.rename(&context("dev"), "b").unwrap();
    editor.rename(&context("b"), " c ").unwrap();
    assert_eq!(editor.renames, [("dev".to_string(), "c".to_string())]);
    assert_eq!(editor.selection, Some(context("c")));
    assert!(editor.rename(&context("c"), "").is_err());
    assert!(editor.rename(&context("gone"), "x").is_err());
    let done = Saved {
        written: "/k/team.yaml".to_string(),
        hash: "h".to_string(),
        backup: None,
        mode: None,
    };
    let now = editor.doc.clone();
    let effects = editor.saved(&done, "x".to_string(), String::new(), Ok(now), None);
    assert_eq!(effects.renames, [("dev".to_string(), "c".to_string())]);
    assert_eq!(effects.message, "Saved ~/team.yaml");
    assert_eq!(effects.forget, None);
    assert!(editor.renames.is_empty());
}

#[test]
fn entries_are_added_copied_and_deleted() {
    let mut editor = open(true, FILE);
    editor.add(Kind::Context);
    assert_eq!(editor.selection, Some(EntryRef::new(Kind::Context, "new-context")));
    assert_eq!(editor.doc.context_refs("new-context").0.as_deref(), Some("dev"));
    editor.duplicate(&EntryRef::new(Kind::User, "dev"));
    assert_eq!(editor.selection, Some(EntryRef::new(Kind::User, "dev-copy")));
    assert_eq!(editor.selected_context(), None);
    editor.delete(&EntryRef::new(Kind::User, "dev-copy"));
    assert_eq!(editor.selection, Some(EntryRef::new(Kind::Context, "dev")));
    assert!(is_entry(&editor.selection, &EntryRef::new(Kind::Context, "dev")));
    assert_eq!(editor.selected_context().as_deref(), Some("dev"));
    editor.add(Kind::Cluster);
    assert_eq!(
        get_str(editor.doc.body(Kind::Cluster, "new-cluster").unwrap(), &["server"]),
        "https://"
    );
    editor.revert();
    assert!(!editor.is_dirty());
    assert_eq!(editor.doc.names(Kind::Cluster), ["dev"]);
}

#[test]
fn files_that_cannot_be_read_say_so() {
    let closed = || {
        KubeconfigEditor::open_file("/p".into(), "~/p".into(), false, "p".into())
    };
    let mut editor = closed();
    editor.loaded(Err("denied".to_string()), Ok(Doc::empty()));
    assert_eq!(editor.load_error.as_deref(), Some("Couldn't read ~/p: denied"));
    let mut editor = closed();
    editor.loaded(snapshot(None), Ok(Doc::empty()));
    assert_eq!(editor.load_error.as_deref(), Some("~/p doesn't exist."));
    let mut editor = closed();
    editor.loaded(snapshot(Some(b"x".to_vec())), Err("bad".to_string()));
    assert_eq!(editor.load_error.as_deref(), Some("~/p isn't a valid kubeconfig: bad"));
}

#[test]
fn drafts_become_files() {
    let draft = Draft { doc: doc(FILE), path: "/k/new.yaml".into(), title: "New".into() };
    let mut editor = KubeconfigEditor::open_draft(
        7,
        Some(draft),
        "/k/new.yaml".into(),
        "~/new.yaml".into(),
        true,
        "x".into(),
    );
    assert!(editor.is_draft() && editor.is_dirty() && editor.is_owned() && !editor.comes_back());
    assert_eq!(editor.doc_key(), "kubyl-draft:7");
    assert_eq!(draft_id("kubyl-draft:7"), Some(7));
    assert_eq!(draft_id("kubyl-draft:"), None);
    assert_eq!(draft_id("/k/new.yaml"), None);
    assert_eq!(draft_id(&draft_path(u64::MAX)), Some(u64::MAX));
    let mut disk = Disk::new();
    let options = editor.save_options(false, false, "/backups", 5).unwrap();
    assert!(options.private && options.expected.is_none());
    let done = disk.save(FILE, &options, None).unwrap();
    let effects = editor.saved(&done, FILE.into(), "new.yaml".into(), Ok(doc(FILE)), None);
    assert_eq!(effects.forget.as_deref(), Some("kubyl-draft:7"));
    assert_eq!(editor.title, "new.yaml");
    assert!(!editor.is_draft() && !editor.is_dirty());
    let lost =
        KubeconfigEditor::open_draft(8, None, "/k".into(), "~".into(), true, "t".into());
    assert_eq!(lost.load_error.as_deref(), Some("This new kubeconfig was never saved."));
    assert_eq!(file_title(None, "~/p"), "~/p");
    assert_eq!(file_title(Some("p"), "~/p"), "p");
    assert!(asks_editor(&None, true) && !asks_editor(&None, false));
}

#[test]
fn the_disk_is_taken_back() {
    let mut editor = open(true, FILE);
    set_namespace(&mut editor, "x");
    assert!(!editor.reload_from_disk(Ok(doc(FILE))));
    let theirs = FILE.replace("abc", "def");
    let at = |t: &str| Snapshot { text: t.to_string(), hash: Some(hash(t.as_bytes())) };
    assert_eq!(editor.look_at_disk(at(FILE), Ok(doc(FILE))), None);
    editor.look_at_disk(at(&theirs), Ok(doc(&theirs)));
    assert!(editor.disk.is_some());
    assert!(editor.reload_from_disk(Ok(doc(&theirs))));
    assert!(!editor.is_dirty() && editor.disk.is_none());
    assert_eq!(editor.moved_to("/k/b".into(), "~/b".into(), false, "b".into()), "/k/team.yaml");
    assert!(!editor.is_owned());
}

const PLUGINS: &str = r#"{
 "contexts": [{"name": "a", "context": {"cluster": "c", "user": "x"}},
              {"name": "b", "context": {"cluster": "c", "user": "x"}},
              {"name": "t", "context": {"cluster": "c", "user": "y"}}],
 "users": [{"name": "x", "user": {"exec": {"command": "aws", "args": ["eks", "get-token"],
            "apiVersion": "v1", "env": [{"name": "A", "value": "1"}, {"name": "MY_TOKEN", "value": "t0p"}]}}},
           {"name": "y", "user": {"token": "t"}}]}"#;

fn spec() -> ExecSpec {
    kubyl_kubeconfig::exec::exec_of(&doc(PLUGINS), "a").unwrap().1
}

#[test]
fn plugins_are_asked_for_once() {
    let mut editor = open(true, PLUGINS);
    let mut global = Kubeconfigs::new();
    let plan = editor.test("a", &global, false);
    assert!(editor.show_test);
    assert_eq!(plan.ask.unwrap().command, "aws");
    assert_eq!(plan.key.context, "a");
    assert!(editor.test("a", &global, true).ask.is_none(), "saved and loaded");
    let all = editor.test_all(&global, false);
    assert_eq!(all.tests.len(), 3);
    assert_eq!(all.ask.len(), 1);
    assert_eq!(all.ask[0].0, ["a", "b"]);
    assert_eq!(consent_title(&all.ask), "Run 1 exec plugins?");
    agree_to_all(&mut global, &all.ask);
    assert!(editor.test_all(&global, false).ask.is_empty());
    let asks = vec![("a".to_string(), Some(spec())), ("t".to_string(), None)];
    assert_eq!(group_consents(asks)[0].0, ["a"]);
    assert_eq!(editor.take_pending(Some("b".to_string()), true).as_deref(), Some("b"));
    assert_eq!(editor.selection, Some(EntryRef::new(Kind::Context, "b")));
    assert_eq!(editor.take_pending(Some("gone".to_string()), true), None);
}

#[test]
fn consent_hides_secret_values() {
    let card = consent_card(&vec!["a".to_string()], &spec(), Some("/usr/bin/aws"), true);
    assert_eq!(card.command, "aws");
    assert!(card.args.contains("get-token"));
    assert!(card.env.contains("A=1"), "{}", card.env);
    assert!(card.env.contains("MY_TOKEN") && !card.env.contains("t0p"), "{}", card.env);
    assert!(card.resolved.contains("/usr/bin/aws"));
    assert!(card.contexts.is_some());
    assert_eq!(consent_card(&vec!["a".to_string()], &spec(), None, false).contexts, None);
}

#[test]
fn the_save_preview_tells_what_happens() {
    let mut editor = open(false, PLUGINS);
    assert!(changed_exec(&editor.doc, Some(&editor.base)).is_empty());
    assert_eq!(changed_exec(&editor.doc, None).len(), 1);
    set_str(editor.doc.body_mut(Kind::User, "x").unwrap(), &["exec", "command"], "evil");
    let mut preview = save_preview(&editor, false, true, true, 1, 20, 2, Vec::new());
    assert!(!preview.owned && !preview.editable && preview.private);
    let shown = save_dialog(&preview, "~/backups/", "team-0badcafe-");
    assert_eq!(shown.summary, "1 change · comments and key order kept · 2 comments");
    assert_eq!(shown.chip, "external file");
    assert_eq!(shown.backup, "~/backups/team-0badcafe-<timestamp>.yaml (0600)");
    assert!(shown.plugins.unwrap().contains("`evil eks get-token` (user x)"));
    assert_eq!(shown.save, Some("Allow editing and save"));
    assert!(shown.checked.contains(&hash(PLUGINS.as_bytes())[..8]));
    assert!(shown.can_copy && shown.opts_in && shown.can_save);
    preview.allow_opt_in = false;
    assert_eq!(save_dialog(&preview, "", "").save, None);
    preview.start(true);
    assert!(preview.saving && preview.editable);
    assert!(!save_dialog(&preview, "", "").can_save);
    assert!(!preview.finish(Some(&SaveError::Exists)));
    assert!(preview.error.is_some() && !preview.saving);
    assert!(preview.finish(None));
    let lost = vec!["a".to_string(), "b".to_string()];
    let preview = save_preview(&editor, true, true, false, 2, 20, 0, lost);
    let shown = save_dialog(&preview, "", "");
    assert_eq!(shown.summary, "2 changes · the file is written from scratch");
    assert_eq!(
        shown.lost.as_deref(),
        Some("2 comments won't be in the saved file: \"# a\", \"# b\"")
    );
}

#[test]
fn dialogs_say_what_goes() {
    let document = doc(FILE);
    let confirm = delete(&document, &EntryRef::new(Kind::Cluster, "dev"));
    assert!(confirm.danger && confirm.title.contains("dev"), "{confirm:?}");
    assert!(confirm.lines.iter().any(|l| l.contains("dev")));
    assert!(rename_title(&EntryRef::new(Kind::User, "dev")).contains("dev"));
    let allow = opt_in("~/.kube/config", "~/backups");
    assert!(allow.lines.iter().any(|l| l.contains("~/backups")), "{allow:?}");
    assert_eq!(split_fingerprint("AA:BB:CC:DD"), ("AA:BB".to_string(), "CC:DD".to_string()));
    assert!(!can_use_ca(&CaState::Fetching, true));
    assert!(matches!(ca_result(&CaState::Failed("x".into()), "s"), CaResult::Error(_)));
    assert!(matches!(ca_result(&CaState::Fetching, "s"), CaResult::Progress(_)));
    let mut document = doc(FILE);
    let (server, target) = ca_target(&document, "dev");
    assert_eq!(server, "https://127.0.0.1:6443");
    assert_eq!(target.unwrap().server_name, "127.0.0.1");
    assert!(ca_target(&document, "gone").1.is_err());
    set_str(document.body_mut(Kind::Cluster, "dev").unwrap(), &["certificate-authority"], "/ca");
    set_ca(&mut document, "dev", "PEM");
    let body = document.body(Kind::Cluster, "dev").unwrap();
    assert_eq!(get_str(body, &["certificate-authority"]), "");
    assert_eq!(get_str(body, &["certificate-authority-data"]), "UEVNCg==");
}

#[test]
fn settings_have_defaults() {
    let settings = KubeconfigSettings::default();
    assert!(settings.allow_external_edits);
    assert!(settings.editable_files.is_empty());
    assert!(settings.backups_kept > 0);
    let off = KubeconfigSettings {
        allow_external_edits: false,
        editable_files: vec!["~/a".to_string()],
        backups_kept: 1,
    };
    assert!(!off.opted_in("/a", &vec!["/a".to_string()]));
    let on = KubeconfigSettings {
        allow_external_edits: true,
        editable_files: vec!["~//a/".to_string()],
        backups_kept: 1,
    };
    assert!(on.opted_in("/home/a", &vec!["/home//a/".to_string()]));
    assert!(!on.opted_in("/home/b", &vec!["/home//a/".to_string()]));
    assert!(Moment::now().second > 1_700_000_000);
}
