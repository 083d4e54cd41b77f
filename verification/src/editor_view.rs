//! What the editor tab shows: toolbar, changed-on-disk banner, the list of contexts, clusters
//! and users, and the test panel.

use crate::credentials;
use crate::document;
use crate::edits;
use crate::editor::{self, KubeconfigEditor, Tab};
use crate::fields::get_str;
use crate::issues::Issue;
use crate::json::Json;
use crate::model::{EntryRef, Kind};
use crate::outside;
use crate::paths;
use crate::state::Kubeconfigs;
use crate::table::TestKey;
use crate::text::{self, cat, cat3};
use crate::users::AuthKind;
use crate::validate::{self, Problem, Severity};
use vstd::prelude::*;

verus! {

/// The colour of something.
#[derive(Clone, Copy, Debug, PartialEq, Eq, Structural)]
pub enum Tone {
    Plain,
    Accent,
    Green,
    Yellow,
    Red,
    Dim,
    Faint,
}

/// The editor's toolbar.
#[derive(Debug)]
pub struct Toolbar {
    pub badge: &'static str,
    pub badge_tone: Tone,
    /// "1 unsaved change".
    pub changes: Option<String>,
    pub can_test: bool,
    pub can_test_all: bool,
    /// A draft has nothing to revert to.
    pub shows_revert: bool,
    pub can_revert: bool,
    pub save_label: &'static str,
    pub can_save: bool,
    /// "Save as a Kubyl copy…" is in the menu.
    pub can_copy: bool,
    /// "Edit this file…" is in the menu.
    pub can_start_editing: bool,
    /// "Stop editing this file" is in the menu.
    pub can_stop_editing: bool,
}

/// How many changes there are, in words.
pub open spec fn changes_text(count: nat) -> Seq<char> {
    if count == 1 {
        "1 unsaved change"@
    } else {
        text::decimal(count) + " unsaved changes"@
    }
}

/// The toolbar. `opted_in`: the user turned editing on for this file; `allow_external_edits`:
/// they may; `count`: the changed lines against the file.
pub fn toolbar(editor: &KubeconfigEditor, opted_in: bool, allow_external_edits: bool, count: usize) -> (r:
    Toolbar)
    ensures
        (r.badge@, r.badge_tone) == if editor.draft is Some {
            ("New · Kubyl-owned"@, Tone::Accent)
        } else if editor.owned() {
            ("Kubyl-owned"@, Tone::Green)
        } else if opted_in {
            ("External file · editing on"@, Tone::Green)
        } else {
            ("External file · read-only"@, Tone::Faint)
        },
        text::text_of(r.changes) == if editor.draft is None && editor.dirty() && count > 0 {
            Some(changes_text(count as nat))
        } else {
            None
        },
        r.can_test == (editor.context() is Some),
        r.can_test_all == (document::names(editor.doc@, Kind::Context).len() > 0),
        r.shows_revert == (editor.draft is None),
        r.can_revert == editor.dirty(),
        r.save_label@ == if editor.saving {
            "Saving…"@
        } else {
            "Save…"@
        },
        r.can_save == (!editor.saving && editor.dirty()),
        r.can_copy == !editor.owned(),
        r.can_start_editing == (!editor.owned() && allow_external_edits && !opted_in),
        r.can_stop_editing == (!editor.owned() && opted_in),
{
    let owned: bool = editor.is_owned();
    let dirty: bool = editor.is_dirty();
    let editable: bool = editor.is_editable(opted_in);
    let (badge, badge_tone): (&'static str, Tone) = if editor.is_draft() {
        ("New · Kubyl-owned", Tone::Accent)
    } else if owned {
        ("Kubyl-owned", Tone::Green)
    } else if editable {
        ("External file · editing on", Tone::Green)
    } else {
        ("External file · read-only", Tone::Faint)
    };
    let changes: Option<String> = if !editor.is_draft() && dirty && count > 0 {
        if count == 1 {
            Some("1 unsaved change".to_string())
        } else {
            Some(cat(text::decimal_text(count as u128).as_str(), " unsaved changes"))
        }
    } else {
        None
    };
    let contexts: Vec<String> = editor.doc.names(Kind::Context);
    assert(text::texts(contexts@).len() == contexts@.len());
    Toolbar {
        badge,
        badge_tone,
        changes,
        can_test: editor.selected_context().is_some(),
        can_test_all: contexts.len() > 0,
        shows_revert: !editor.is_draft(),
        can_revert: dirty,
        save_label: if editor.saving {
            "Saving…"
        } else {
            "Save…"
        },
        can_save: !editor.saving && dirty,
        can_copy: !owned,
        can_start_editing: !owned && allow_external_edits && !editable,
        can_stop_editing: !owned && editable,
    }
}

/// The banner while the file on disk differs from what was loaded. `title` is the file's name.
pub fn banner(editor: &KubeconfigEditor, title: &str) -> (r: Option<String>)
    ensures
        text::text_of(r) == match editor.disk {
            Some(_) => Some(
                title@
                    + " changed on disk. Your unsaved changes are kept; Kubyl won't overwrite the file without asking."@,
            ),
            None => None,
        },
{
    match &editor.disk {
        Some(_) => Some(
            cat(
                title,
                " changed on disk. Your unsaved changes are kept; Kubyl won't overwrite the file without asking.",
            ),
        ),
        None => None,
    }
}

// ----- The list -----

/// A text without any number of `p` at its start.
pub open spec fn without_starts(s: Seq<char>, p: Seq<char>) -> Seq<char>
    decreases s.len(),
{
    if p.len() > 0 && p.is_prefix_of(s) {
        without_starts(s.skip(p.len() as int), p)
    } else {
        s
    }
}

/// The parts that are there, in order.
pub open spec fn present(a: Option<Seq<char>>, b: Option<Seq<char>>) -> Seq<Seq<char>> {
    (match a {
        Some(a) => seq![a],
        None => seq![],
    }) + (match b {
        Some(b) => seq![b],
        None => seq![],
    })
}

/// The faint text behind an entry's name: what a context uses, a cluster's server, how a user
/// signs in.
pub open spec fn secondary(d: Json, kind: Kind, name: Seq<char>) -> Seq<char> {
    match kind {
        Kind::Context => text::joined(
            present(
                document::context_reference(d, name, Kind::Cluster),
                document::context_reference(d, name, Kind::User),
            ),
            " · "@,
        ),
        Kind::Cluster => match document::body(d, Kind::Cluster, name) {
            Some(b) => without_starts(
                without_starts(paths::text(b, seq!["server"@]), "https://"@),
                "http://"@,
            ),
            None => seq![],
        },
        Kind::User => match document::body(d, Kind::User, name) {
            Some(b) => user_label(
                credentials::auth_kind(b),
                paths::text(b, seq!["exec"@, "command"@]),
            ),
            None => seq![],
        },
    }
}

/// How a user signs in, in the list: a plugin with its command, else the kind in lower case.
pub open spec fn user_label(kind: AuthKind, command: Seq<char>) -> Seq<char> {
    match kind {
        AuthKind::Exec => "exec · "@ + command,
        AuthKind::Unset => outside::lowercase("None"@),
        AuthKind::Token => outside::lowercase("Token"@),
        AuthKind::TokenFile => outside::lowercase("Token file"@),
        AuthKind::ClientCertificate => outside::lowercase("Client certificate"@),
        AuthKind::OidcProvider => outside::lowercase("OIDC provider"@),
        AuthKind::Basic => outside::lowercase("Basic auth"@),
        AuthKind::OtherProvider => outside::lowercase("Auth provider"@),
    }
}

fn strip_starts(s: String, p: &str) -> (r: String)
    requires
        p@.len() > 0,
    ensures
        r@ == without_starts(s@, p@),
{
    let mut rest: String = s;
    let mut goes_on: bool = true;
    while goes_on
        invariant
            p@.len() > 0,
            without_starts(rest@, p@) == without_starts(s@, p@),
            !goes_on ==> !p@.is_prefix_of(rest@),
        decreases rest@.len(), if goes_on { 1int } else { 0int },
    {
        match text::strip_prefix(rest.as_str(), p) {
            Some(shorter) => {
                assert(shorter@ =~= rest@.skip(p@.len() as int));
                rest = shorter;
            },
            None => {
                goes_on = false;
            },
        }
    }
    rest
}

/// The faint text behind an entry's name.
pub fn secondary_label(editor: &KubeconfigEditor, entry: &EntryRef) -> (r: String)
    ensures
        r@ == secondary(editor.doc@, entry.kind, entry.name@),
{
    match entry.kind {
        Kind::Context => {
            let (cluster, user) = editor.doc.context_refs(entry.name.as_str());
            let mut parts: Vec<String> = Vec::new();
            let ghost wanted = present(text::text_of(cluster), text::text_of(user));
            if let Some(c) = cluster {
                parts.push(c);
            }
            if let Some(u) = user {
                parts.push(u);
            }
            assert(text::texts(parts@) =~= wanted);
            text::join(&parts, " · ")
        },
        Kind::Cluster => match editor.doc.body(Kind::Cluster, entry.name.as_str()) {
            Some(b) => {
                let server: String = get_str(b, &["server"]);
                proof {
                    reveal_strlit("https://");
                    reveal_strlit("http://");
                    assert(text::slices(["server"]@) =~= seq!["server"@]);
                }
                strip_starts(strip_starts(server, "https://"), "http://")
            },
            None => {
                let none: String = String::new();
                assert(none@ =~= Seq::empty());
                none
            },
        },
        Kind::User => match editor.doc.body(Kind::User, entry.name.as_str()) {
            Some(b) => {
                let kind: AuthKind = AuthKind::detect(b);
                if let AuthKind::Exec = kind {
                    let command: String = get_str(b, &["exec", "command"]);
                    assert(text::slices(["exec", "command"]@) =~= seq!["exec"@, "command"@]);
                    cat("exec · ", command.as_str())
                } else {
                    outside::to_lowercase(kind.label())
                }
            },
            None => {
                let none: String = String::new();
                assert(none@ =~= Seq::empty());
                none
            },
        },
    }
}

/// A row of the list.
#[derive(Debug)]
pub struct Row {
    pub name: String,
    pub selected: bool,
    pub secondary: String,
    /// The worst problem that isn't just information.
    pub problem: Option<Severity>,
}

/// A row of the list as a mathematical value.
pub struct RowView {
    pub name: Seq<char>,
    pub selected: bool,
    pub secondary: Seq<char>,
    pub problem: Option<Severity>,
}

impl View for Row {
    type V = RowView;

    open spec fn view(&self) -> RowView {
        RowView {
            name: self.name@,
            selected: self.selected,
            secondary: self.secondary@,
            problem: self.problem,
        }
    }
}

pub open spec fn rows_view(v: Seq<Row>) -> Seq<RowView> {
    Seq::new(v.len(), |i: int| v[i]@)
}

/// Whether a name is shown under a filter: case doesn't matter.
pub open spec fn passes(name: Seq<char>, filter: Seq<char>) -> bool {
    let wanted = outside::lowercase(filter);
    wanted.len() == 0 || text::contains_text(outside::lowercase(name), wanted)
}

/// Whether an entry has a problem of a severity.
pub open spec fn problem_with(problems: Seq<Issue>, kind: Kind, name: Seq<char>, severity: Severity) -> bool {
    exists|i: int|
        0 <= i < problems.len() && (#[trigger] problems[i]).entry == Some((kind, name))
            && problems[i].severity == severity
}

/// The worst problem of an entry that isn't just information.
pub open spec fn worst_problem(problems: Seq<Issue>, kind: Kind, name: Seq<char>) -> Option<Severity> {
    if problem_with(problems, kind, name, Severity::Error) {
        Some(Severity::Error)
    } else if problem_with(problems, kind, name, Severity::Warning) {
        Some(Severity::Warning)
    } else {
        None
    }
}

/// The rows for names, in their order.
pub open spec fn rows_for(
    editor: KubeconfigEditor,
    kind: Kind,
    names: Seq<Seq<char>>,
    filter: Seq<char>,
    problems: Seq<Issue>,
) -> Seq<RowView>
    decreases names.len(),
{
    if names.len() == 0 {
        seq![]
    } else {
        let before = rows_for(editor, kind, names.drop_last(), filter, problems);
        let name = names.last();
        if passes(name, filter) {
            before.push(
                RowView {
                    name,
                    selected: editor::entry_of(editor.selection) == Some((kind, name)),
                    secondary: secondary(editor.doc@, kind, name),
                    problem: worst_problem(problems, kind, name),
                },
            )
        } else {
            before
        }
    }
}

/// The list's entries of a kind that the filter leaves, with the title and its count.
pub fn list(editor: &KubeconfigEditor, kind: Kind, filter: &str, problems: &[Problem]) -> (r: (
    String,
    Vec<Row>,
))
    ensures
        r.0@ == outside::uppercase(
            match kind {
                Kind::Context => "Contexts"@,
                Kind::Cluster => "Clusters"@,
                Kind::User => "Users"@,
            },
        ),
        rows_view(r.1@) == rows_for(
            *editor,
            kind,
            document::names(editor.doc@, kind),
            filter@,
            validate::problems_view(problems@),
        ),
{
    let names: Vec<String> = editor.doc.names(kind);
    let ghost all = document::names(editor.doc@, kind);
    let ghost issues = validate::problems_view(problems@);
    let wanted: String = outside::to_lowercase(filter);
    let shows_all: bool = text::chars(wanted.as_str()).len() == 0;
    let mut rows: Vec<Row> = Vec::new();
    let mut i: usize = 0;
    assert(all.take(0) =~= seq![]);
    assert(rows_view(rows@) =~= seq![]);
    while i < names.len()
        invariant
            i <= names@.len(),
            all == text::texts(names@),
            issues == validate::problems_view(problems@),
            wanted@ == outside::lowercase(filter@),
            shows_all == (wanted@.len() == 0),
            rows_view(rows@) == rows_for(*editor, kind, all.take(i as int), filter@, issues),
        decreases names@.len() - i,
    {
        let ghost before = rows@;
        assert(all.take(i + 1).drop_last() =~= all.take(i as int));
        assert(all.take(i + 1).last() == names@[i as int]@);
        let name: &str = names[i].as_str();
        if shows_all || text::contains(outside::to_lowercase(name).as_str(), wanted.as_str()) {
            let entry: EntryRef = EntryRef::new(kind, name);
            let selected: bool = editor::is_entry(&editor.selection, &entry);
            let problem: Option<Severity> = validate::worst(problems, &entry);
            proof {
                lemma_worst(issues, entry);
            }
            rows.push(
                Row {
                    name: name.to_string(),
                    selected,
                    secondary: secondary_label(editor, &entry),
                    problem,
                },
            );
            assert(rows_view(rows@) =~= rows_view(before).push(rows@.last()@));
        }
        i += 1;
    }
    assert(all.take(i as int) =~= all);
    (outside::to_uppercase(kind.title()), rows)
}

proof fn lemma_worst(issues: Seq<Issue>, entry: EntryRef)
    ensures
        validate::has_severity(issues, entry, Severity::Error) == problem_with(
            issues,
            entry.kind,
            entry.name@,
            Severity::Error,
        ),
        validate::has_severity(issues, entry, Severity::Warning) == problem_with(
            issues,
            entry.kind,
            entry.name@,
            Severity::Warning,
        ),
{
}

// ----- The test panel -----

/// What the test panel shows.
#[derive(Debug)]
pub struct TestPanel {
    pub context: String,
    /// The context wasn't tested yet.
    pub hint: Option<String>,
    pub subtitle: &'static str,
}

/// The test panel, if it is open and there is a context to test.
pub fn test_panel(editor: &KubeconfigEditor, global: &Kubeconfigs) -> (r: Option<TestPanel>)
    requires
        global.well_formed(),
    ensures
        match (editor.show_test, editor.context()) {
            (true, Some(context)) => r is Some && {
                let key = (editor.key(), context);
                let p = r->0;
                &&& p.context@ == context
                &&& text::text_of(p.hint) == if global.tests@.contains_key(key) {
                    None
                } else {
                    Some("Test "@ + context + " to check it step by step."@)
                }
                &&& p.subtitle@ == if editor.dirty() {
                    "from unsaved edits"@
                } else {
                    "from the saved file"@
                }
            },
            _ => r is None,
        },
{
    if !editor.show_test {
        return None;
    }
    match editor.selected_context() {
        Some(context) => {
            let key: TestKey = TestKey::new(editor.doc_key().as_str(), context.as_str());
            let hint: Option<String> = match global.report(&key) {
                Some(_) => None,
                None => Some(cat3("Test ", context.as_str(), " to check it step by step.")),
            };
            Some(
                TestPanel {
                    context,
                    hint,
                    subtitle: if editor.is_dirty() {
                        "from unsaved edits"
                    } else {
                        "from the saved file"
                    },
                },
            )
        },
        None => None,
    }
}

/// "Edit the user" from a test: the form of the context's user.
pub fn edit_user(editor: &mut KubeconfigEditor, context: &str)
    ensures
        match document::context_reference(old(editor).doc@, context@, Kind::User) {
            Some(user) => editor::entry_of(final(editor).selection) == Some((Kind::User, user))
                && *final(editor) == (KubeconfigEditor {
                tab: Tab::Form,
                selection: final(editor).selection,
                ..*old(editor)
            }),
            None => *final(editor) == *old(editor),
        },
{
    if let Some(user) = editor.doc.context_refs(context).1 {
        editor.tab = Tab::Form;
        editor.selection = Some(EntryRef::new(Kind::User, user.as_str()));
    }
}

/// "Use this namespace" from a test.
pub fn use_namespace(editor: &mut KubeconfigEditor, context: &str, namespace: &str)
    ensures
        final(editor).doc@ == edits::with_text(
            old(editor).doc@,
            Kind::Context,
            context@,
            seq!["namespace"@],
            namespace@,
        ),
        *final(editor) == (KubeconfigEditor { doc: final(editor).doc, ..*old(editor) }),
{
    editor.doc.set_text(Kind::Context, context, &["namespace"], namespace);
    assert(text::slices(["namespace"]@) =~= seq!["namespace"@]);
}

// ----- The YAML tab -----

/// The line above the YAML.
pub fn yaml_note(parse_error: Option<&str>) -> (r: String)
    ensures
        r@ == match parse_error {
            Some(e) => "Doesn't parse: "@ + e@ + ". The form keeps the last valid state."@,
            None => "The file as it will be written. Edits here update the form."@,
        },
{
    match parse_error {
        Some(e) => cat3("Doesn't parse: ", e, ". The form keeps the last valid state."),
        None => "The file as it will be written. Edits here update the form.".to_string(),
    }
}

/// The button that shows or hides secrets.
pub fn reveal_label(revealed: bool) -> (r: &'static str)
    ensures
        r@ == if revealed {
            "Mask secrets"@
        } else {
            "Reveal secrets"@
        },
{
    if revealed {
        "Mask secrets"
    } else {
        "Reveal secrets"
    }
}

/// What fills the tab.
#[derive(Debug)]
pub enum Center {
    /// One text instead of the editor.
    Message(String),
    Form,
    Yaml,
}

/// What fills the tab: the form or the YAML, once the file is there.
pub fn center(editor: &KubeconfigEditor) -> (r: Center)
    ensures
        match (editor.loading, editor.load_error) {
            (true, _) => r is Message && r->Message_0@ == "Loading…"@,
            (false, Some(e)) => r is Message && r->Message_0@ == e@,
            (false, None) => match editor.tab {
                Tab::Form => r is Form,
                Tab::Yaml => r is Yaml,
            },
        },
{
    if editor.loading {
        return Center::Message("Loading…".to_string());
    }
    match &editor.load_error {
        Some(e) => Center::Message(e.clone()),
        None => match editor.tab {
            Tab::Form => Center::Form,
            Tab::Yaml => Center::Yaml,
        },
    }
}

} // verus!
