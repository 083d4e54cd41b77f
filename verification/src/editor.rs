//! The kubeconfig editor tab: one file at a time, with a selected entry, the form or the raw
//! YAML, tests from the unsaved edits, and saving with a backup and a changed-on-disk check.

use crate::conntest::Input;
use crate::consent;
use crate::document;
use crate::exec::{self, ExecSpec};
use crate::files::{Backups, SaveError, SaveOptions, Saved, Snapshot};
use crate::json::{self, Fields, Json};
use crate::model::{Doc, EntryRef, Kind};
use crate::report::clone_text;
use crate::state::{self, Draft, Kubeconfigs};
use crate::table::TestKey;
use crate::text::{self, cat, cat3, cat4, same, trim};
use crate::transfer;
use crate::value::{self, Object, Value};
use vstd::prelude::*;

verus! {

/// Paths of unsaved new documents: `kubyl-draft:<id>`.
pub const DRAFT_PREFIX: &'static str = "kubyl-draft:";

#[derive(Clone, Copy, Debug, PartialEq, Eq, Structural)]
pub enum Tab {
    Form,
    Yaml,
}

/// An editor of a file, or of a new document.
pub struct KubeconfigEditor {
    /// The file; for a draft, where it's saved by default.
    pub path: String,
    /// The path as it is shown.
    pub shown: String,
    /// The file is in Kubyl's own folder.
    pub in_owned_dir: bool,
    /// An unsaved new document (`kubyl-draft:<id>`).
    pub draft: Option<u64>,
    pub title: String,
    /// The file as loaded or last saved (`None`: a draft, or not loaded yet).
    pub snapshot: Option<Snapshot>,
    /// The document as loaded or saved.
    pub base: Doc,
    /// The document being edited.
    pub doc: Doc,
    pub load_error: Option<String>,
    pub loading: bool,
    pub saving: bool,
    pub selection: Option<EntryRef>,
    pub tab: Tab,
    /// The file changed on disk while there are unsaved changes.
    pub disk: Option<Snapshot>,
    /// Contexts renamed since the last save (old, new): their Kubyl overrides move along.
    pub renames: Vec<(String, String)>,
    /// The right panel shows the selected context's test.
    pub show_test: bool,
}

/// The tab title for a path: the file name (`config`, `eks-prod.yaml`), else the path as it is
/// shown.
pub fn file_title(name: Option<&str>, shown: &str) -> (r: String)
    ensures
        r@ == match name {
            Some(name) => name@,
            None => shown@,
        },
{
    match name {
        Some(name) => name.to_string(),
        None => shown.to_string(),
    }
}

/// The id of a draft's path.
pub open spec fn draft_of(path: Seq<char>) -> Option<nat> {
    if DRAFT_PREFIX@.is_prefix_of(path) {
        match text::parsed(path.skip(DRAFT_PREFIX@.len() as int)) {
            Some(n) if n <= u64::MAX => Some(n),
            _ => None,
        }
    } else {
        None
    }
}

/// The id of a draft's path.
pub fn draft_id(path: &str) -> (r: Option<u64>)
    ensures
        match r {
            Some(n) => draft_of(path@) == Some(n as nat),
            None => draft_of(path@) is None,
        },
{
    match text::strip_prefix(path, DRAFT_PREFIX) {
        Some(id) => {
            assert(id@ =~= path@.skip(DRAFT_PREFIX@.len() as int));
            text::parse_number(id.as_str(), u64::MAX)
        },
        None => None,
    }
}

/// The path of a draft's tab.
pub fn draft_path(id: u64) -> (r: String)
    ensures
        r@ == DRAFT_PREFIX@ + text::decimal(id as nat),
{
    cat(DRAFT_PREFIX, text::decimal_text(id as u128).as_str())
}

/// Whether opening an editor asks it to select a context or to test it.
pub fn asks_editor(context: &Option<String>, test: bool) -> (r: bool)
    ensures
        r == (*context is Some || test),
{
    context.is_some() || test
}

/// The first entry of a document: a context, else a cluster, else a user.
pub open spec fn first_entry(d: Json) -> Option<(Kind, Seq<char>)> {
    if document::names(d, Kind::Context).len() > 0 {
        Some((Kind::Context, document::names(d, Kind::Context)[0]))
    } else if document::names(d, Kind::Cluster).len() > 0 {
        Some((Kind::Cluster, document::names(d, Kind::Cluster)[0]))
    } else if document::names(d, Kind::User).len() > 0 {
        Some((Kind::User, document::names(d, Kind::User)[0]))
    } else {
        None
    }
}

/// An entry as a mathematical value.
pub open spec fn entry_of(e: Option<EntryRef>) -> Option<(Kind, Seq<char>)> {
    match e {
        Some(e) => Some((e.kind, e.name@)),
        None => None,
    }
}

/// The selection for another document: it stays where its entry is there, else it goes to the
/// first one.
pub open spec fn selection_in(d: Json, selection: Option<(Kind, Seq<char>)>) -> Option<
    (Kind, Seq<char>),
> {
    match selection {
        Some((kind, name)) if document::contains(d, kind, name) => selection,
        _ => first_entry(d),
    }
}

fn first_of(doc: &Doc, kind: Kind) -> (r: Option<EntryRef>)
    ensures
        entry_of(r) == if document::names(doc@, kind).len() > 0 {
            Some((kind, document::names(doc@, kind)[0]))
        } else {
            None
        },
{
    let names: Vec<String> = doc.names(kind);
    assert(text::texts(names@).len() == names@.len());
    if names.len() > 0 {
        assert(text::texts(names@)[0] == names@[0]@);
        Some(EntryRef::new(kind, names[0].as_str()))
    } else {
        None
    }
}

/// The first entry of a document.
fn first(doc: &Doc) -> (r: Option<EntryRef>)
    ensures
        entry_of(r) == first_entry(doc@),
{
    if let Some(e) = first_of(doc, Kind::Context) {
        return Some(e);
    }
    if let Some(e) = first_of(doc, Kind::Cluster) {
        return Some(e);
    }
    first_of(doc, Kind::User)
}

/// The body that a new entry starts with.
pub open spec fn start_body(d: Json, kind: Kind) -> Fields {
    match kind {
        Kind::Cluster => seq![("server"@, Json::Str("https://"@))],
        Kind::Context => (if document::names(d, Kind::Cluster).len() > 0 {
            seq![("cluster"@, Json::Str(document::names(d, Kind::Cluster)[0]))]
        } else {
            seq![]
        }) + (if document::names(d, Kind::User).len() > 0 {
            seq![("user"@, Json::Str(document::names(d, Kind::User)[0]))]
        } else {
            seq![]
        }),
        Kind::User => seq![],
    }
}

/// The name that a new entry starts with.
pub open spec fn start_name(d: Json, kind: Kind) -> Seq<char> {
    document::unique_name(
        d,
        kind,
        match kind {
            Kind::Context => "new-context"@,
            Kind::Cluster => "new-cluster"@,
            Kind::User => "new-user"@,
        },
    )
}

fn starting_body(doc: &Doc, kind: Kind) -> (r: Object)
    ensures
        r@ == start_body(doc@, kind),
{
    let mut fields: Vec<(String, Value)> = Vec::new();
    match kind {
        Kind::Cluster => {
            fields.push(("server".to_string(), Value::text("https://")));
        },
        Kind::Context => {
            if let Some(e) = first_of(doc, Kind::Cluster) {
                fields.push(("cluster".to_string(), Value::text(e.name.as_str())));
            }
            if let Some(e) = first_of(doc, Kind::User) {
                fields.push(("user".to_string(), Value::text(e.name.as_str())));
            }
        },
        Kind::User => {},
    }
    proof {
        reveal_strlit("cluster");
        reveal_strlit("user");
        assert("cluster"@.len() == 7 && "user"@.len() == 4);
        assert(value::pairs_view(fields@) =~= start_body(doc@, kind));
    }
    Object::of(fields)
}

/// Renames with one more: A → B → C moves A's overrides to C.
pub open spec fn renamed(
    renames: Seq<(Seq<char>, Seq<char>)>,
    from: Seq<char>,
    to: Seq<char>,
) -> Seq<(Seq<char>, Seq<char>)> {
    match first_to(renames, from) {
        Some(i) => renames.update(i, (renames[i].0, to)),
        None => renames.push((from, to)),
    }
}

/// The first rename to a name.
pub open spec fn first_to(renames: Seq<(Seq<char>, Seq<char>)>, name: Seq<char>) -> Option<int>
    decreases renames.len(),
{
    if renames.len() == 0 {
        None
    } else {
        match first_to(renames.drop_last(), name) {
            Some(i) => Some(i),
            None => if renames.last().1 == name {
                Some(renames.len() - 1)
            } else {
                None
            },
        }
    }
}

proof fn lemma_first_to(renames: Seq<(Seq<char>, Seq<char>)>, name: Seq<char>, n: int)
    requires
        0 <= n <= renames.len(),
        first_to(renames.take(n), name) is Some,
    ensures
        first_to(renames, name) == first_to(renames.take(n), name),
    decreases renames.len() - n,
{
    if n < renames.len() {
        assert(renames.take(n + 1).drop_last() =~= renames.take(n));
        lemma_first_to(renames, name, n + 1);
    } else {
        assert(renames.take(n) =~= renames);
    }
}

fn note_rename(renames: &mut Vec<(String, String)>, from: &str, to: &str)
    ensures
        exec::pair_texts(final(renames)@) == renamed(
            exec::pair_texts(old(renames)@),
            from@,
            to@,
        ),
{
    let ghost all = exec::pair_texts(renames@);
    let mut i: usize = 0;
    assert(all.take(0) =~= Seq::empty());
    while i < renames.len()
        invariant
            i <= renames@.len(),
            all == exec::pair_texts(renames@),
            all == exec::pair_texts(old(renames)@),
            first_to(all.take(i as int), from@) is None,
        decreases renames@.len() - i,
    {
        assert(all.take(i + 1).drop_last() =~= all.take(i as int));
        assert(all[i as int] == (renames@[i as int].0@, renames@[i as int].1@));
        if same(renames[i].1.as_str(), from) {
            proof {
                lemma_first_to(all, from@, i + 1);
            }
            let pair: (String, String) = (renames[i].0.clone(), to.to_string());
            renames.set(i, pair);
            assert(exec::pair_texts(renames@) =~= renamed(all, from@, to@));
            return;
        }
        i += 1;
    }
    assert(all.take(i as int) =~= all);
    renames.push((from.to_string(), to.to_string()));
    assert(exec::pair_texts(renames@) =~= renamed(all, from@, to@));
}

pub fn is_entry(selection: &Option<EntryRef>, entry: &EntryRef) -> (r: bool)
    ensures
        r == (entry_of(*selection) == Some((entry.kind, entry.name@))),
{
    match selection {
        Some(e) => e.kind == entry.kind && same(e.name.as_str(), entry.name.as_str()),
        None => false,
    }
}

/// The hash of a snapshot, if there is one.
pub open spec fn hash_of(s: Option<Snapshot>) -> Option<Seq<char>> {
    match s {
        Some(s) => text::text_of(s.hash),
        None => None,
    }
}

fn hash_in(s: &Option<Snapshot>) -> (r: Option<String>)
    ensures
        text::text_of(r) == hash_of(*s),
{
    match s {
        Some(s) => clone_text(&s.hash),
        None => None,
    }
}

fn same_text(a: &Option<String>, b: &Option<String>) -> (r: bool)
    ensures
        r == (text::text_of(*a) == text::text_of(*b)),
{
    match (a, b) {
        (Some(a), Some(b)) => same(a.as_str(), b.as_str()),
        (None, None) => true,
        _ => false,
    }
}

/// Whether two snapshots are of the same file contents.
pub open spec fn same_snapshot(a: Snapshot, b: Snapshot) -> bool {
    a.text@ == b.text@ && text::text_of(a.hash) == text::text_of(b.hash)
}

fn clone_snapshot(s: &Snapshot) -> (r: Snapshot)
    ensures
        same_snapshot(r, *s),
{
    Snapshot { text: s.text.clone(), hash: clone_text(&s.hash) }
}

/// What a save changed for others.
#[derive(Debug)]
pub struct SaveEffects {
    /// Tests and sign-ins of this key are forgotten (it was a draft).
    pub forget: Option<String>,
    /// Contexts whose Kubyl overrides move (old, new).
    pub renames: Vec<(String, String)>,
    pub message: String,
}

/// A test to start, and the plugin to ask for before it.
pub struct TestPlan {
    pub key: TestKey,
    pub input: Input,
    pub ask: Option<ExecSpec>,
}

/// Tests to start, and the plugins to ask for before them, with the contexts that run each.
pub struct TestAllPlan {
    pub tests: Vec<(TestKey, Input)>,
    pub ask: Vec<(Vec<String>, ExecSpec)>,
}

/// A plugin as a mathematical value.
pub open spec fn exec_of(spec: Option<ExecSpec>) -> Option<exec::Plugin> {
    match spec {
        Some(s) => Some(s@),
        None => None,
    }
}

impl KubeconfigEditor {
    // ----- Opening -----

    fn blank(path: String, shown: String, in_owned_dir: bool, title: String) -> (r: KubeconfigEditor)
        ensures
            r.path == path,
            r.shown == shown,
            r.in_owned_dir == in_owned_dir,
            r.title == title,
            r.draft is None,
            r.snapshot is None,
            r.base@ == document::empty_document(),
            r.doc@ == document::empty_document(),
            r.load_error is None,
            !r.loading,
            !r.saving,
            r.selection is None,
            r.tab == Tab::Form,
            r.disk is None,
            r.renames@.len() == 0,
            !r.show_test,
    {
        KubeconfigEditor {
            path,
            shown,
            in_owned_dir,
            draft: None,
            title,
            snapshot: None,
            base: Doc::empty(),
            doc: Doc::empty(),
            load_error: None,
            loading: false,
            saving: false,
            selection: None,
            tab: Tab::Form,
            disk: None,
            renames: Vec::new(),
            show_test: false,
        }
    }

    /// The editor for a file, before it is loaded.
    pub fn open_file(path: String, shown: String, in_owned_dir: bool, title: String) -> (r:
        KubeconfigEditor)
        ensures
            r.path == path,
            r.shown == shown,
            r.in_owned_dir == in_owned_dir,
            r.title == title,
            r.loading,
            r.draft is None,
            r.snapshot is None,
            r.load_error is None,
            r.selection is None,
            r.disk is None,
            r.renames@.len() == 0,
            !r.saving && !r.show_test && r.tab == Tab::Form,
            r.doc@ == document::empty_document(),
            r.base@ == document::empty_document(),
    {
        let mut this = KubeconfigEditor::blank(path, shown, in_owned_dir, title);
        this.loading = true;
        this
    }

    /// The editor for a draft; none is left of it once it was taken. `shown`, `in_owned_dir` and
    /// `title` are those of the draft's path, or of `path` without one.
    pub fn open_draft(
        id: u64,
        draft: Option<Draft>,
        path: String,
        shown: String,
        in_owned_dir: bool,
        title: String,
    ) -> (r: KubeconfigEditor)
        ensures
            !r.loading && !r.saving && !r.show_test && r.tab == Tab::Form,
            r.snapshot is None,
            r.disk is None,
            r.renames@.len() == 0,
            r.base@ == document::empty_document(),
            match draft {
                Some(d) => r.draft == Some(id) && r.path == d.path && r.title == d.title && r.doc
                    == d.doc && r.load_error is None && entry_of(r.selection) == first_entry(
                    d.doc@,
                ),
                None => r.draft is None && r.path == path && r.title == title && r.selection is None && r.doc@
                    == document::empty_document() && text::text_of(r.load_error) == Some(
                    "This new kubeconfig was never saved."@,
                ),
            },
            r.shown == shown,
            r.in_owned_dir == in_owned_dir,
    {
        match draft {
            Some(d) => {
                let mut this = KubeconfigEditor::blank(d.path, shown, in_owned_dir, d.title);
                this.draft = Some(id);
                this.selection = first(&d.doc);
                this.doc = d.doc;
                this
            },
            None => {
                let mut this = KubeconfigEditor::blank(path, shown, in_owned_dir, title);
                this.load_error = Some("This new kubeconfig was never saved.".to_string());
                this
            },
        }
    }

    // ----- What it is -----

    /// Where tests, sign-ins and pending selections of this document are keyed.
    pub open spec fn key(&self) -> Seq<char> {
        match self.draft {
            Some(id) => DRAFT_PREFIX@ + text::decimal(id as nat),
            None => self.path@,
        }
    }

    /// Where tests, sign-ins and pending selections of this document are keyed.
    pub fn doc_key(&self) -> (r: String)
        ensures
            r@ == self.key(),
    {
        match self.draft {
            Some(id) => draft_path(id),
            None => self.path.clone(),
        }
    }

    pub fn is_draft(&self) -> (r: bool)
        ensures
            r == (self.draft is Some),
    {
        self.draft.is_some()
    }

    pub open spec fn owned(&self) -> bool {
        self.draft is Some || self.in_owned_dir
    }

    /// Kubyl created the file (or will): edited freely.
    pub fn is_owned(&self) -> (r: bool)
        ensures
            r == self.owned(),
    {
        self.draft.is_some() || self.in_owned_dir
    }

    /// Saving writes the file in place. `opted_in` says that the user turned editing on for it.
    pub fn is_editable(&self, opted_in: bool) -> (r: bool)
        ensures
            r == (self.owned() || opted_in),
    {
        self.is_owned() || opted_in
    }

    /// There is something to save: a draft, or a document that differs from the loaded one.
    pub open spec fn dirty(&self) -> bool {
        self.draft is Some || (self.snapshot is Some && !json::equal(self.doc@, self.base@))
    }

    pub fn is_dirty(&self) -> (r: bool)
        ensures
            r == self.dirty(),
    {
        self.draft.is_some() || (self.snapshot.is_some() && !self.doc.0.equal(&self.base.0))
    }

    /// Shows the other tab. False if it is shown already.
    pub fn set_tab(&mut self, tab: Tab) -> (r: bool)
        ensures
            r == (old(self).tab != tab),
            *final(self) == (KubeconfigEditor { tab, ..*old(self) }),
    {
        if self.tab == tab {
            return false;
        }
        self.tab = tab;
        true
    }

    /// The text the file was loaded with and the one another tool wrote since; none if there is
    /// no change on disk to show.
    pub fn disk_texts(&self) -> (r: Option<(&str, &str)>)
        ensures
            match (r, self.disk) {
                (Some((loaded, now)), Some(disk)) => now@ == disk.text@ && loaded@
                    == match self.snapshot {
                    Some(s) => s.text@,
                    None => ""@,
                },
                (None, None) => true,
                _ => false,
            },
    {
        match &self.disk {
            Some(disk) => {
                let loaded: &str = match &self.snapshot {
                    Some(s) => s.text.as_str(),
                    None => "",
                };
                Some((loaded, disk.text.as_str()))
            },
            None => None,
        }
    }

    /// The saved document, if Kubyl loads this file as a source (then its exec plugins run
    /// already; consent is only asked for changed ones).
    pub fn saved_and_loaded(&self, loaded: bool) -> (r: Option<&Doc>)
        ensures
            match r {
                Some(d) => loaded && self.snapshot is Some && *d == self.base,
                None => !loaded || self.snapshot is None,
            },
    {
        if loaded && self.snapshot.is_some() {
            Some(&self.base)
        } else {
            None
        }
    }

    /// Whether the tab comes back after a restart. Drafts can't.
    pub fn comes_back(&self) -> (r: bool)
        ensures
            r == (self.draft is None),
    {
        self.draft.is_none()
    }

    // ----- Loading -----

    /// What the editor is after it took a file's contents as the new base.
    pub open spec fn took(&self, before: KubeconfigEditor, snapshot: Snapshot, parsed: Result<
        Doc,
        String,
    >) -> bool {
        &&& self.snapshot is Some
        &&& same_snapshot(self.snapshot->0, snapshot)
        &&& match parsed {
            Ok(doc) => {
                &&& self.doc@ == doc@
                &&& self.base@ == doc@
                &&& self.load_error is None
                &&& self.disk is None
                &&& self.renames@.len() == 0
                &&& entry_of(self.selection) == selection_in(doc@, entry_of(before.selection))
                &&& *self == (KubeconfigEditor {
                    doc: self.doc,
                    base: self.base,
                    snapshot: self.snapshot,
                    load_error: self.load_error,
                    disk: self.disk,
                    renames: self.renames,
                    selection: self.selection,
                    ..before
                })
            },
            Err(e) => {
                &&& text::text_of(self.load_error) == Some(
                    before.shown@ + " isn't a valid kubeconfig: "@ + e@,
                )
                &&& *self == (KubeconfigEditor {
                    snapshot: self.snapshot,
                    load_error: self.load_error,
                    ..before
                })
            },
        }
    }

    /// Takes a file's contents as the new base (after loading, reloading or saving). `parsed` is
    /// the document in them.
    pub fn apply_snapshot(&mut self, snapshot: Snapshot, parsed: Result<Doc, String>)
        ensures
            final(self).took(*old(self), snapshot, parsed),
    {
        match parsed {
            Ok(doc) => {
                let stays: bool = match &self.selection {
                    Some(e) => doc.contains(e.kind, e.name.as_str()),
                    None => false,
                };
                if !stays {
                    self.selection = first(&doc);
                }
                self.base = doc.clone();
                self.doc = doc;
                self.load_error = None;
                self.disk = None;
                self.renames = Vec::new();
            },
            Err(e) => {
                let error: String = cat3(
                    self.shown.as_str(),
                    " isn't a valid kubeconfig: ",
                    e.as_str(),
                );
                self.load_error = Some(error);
            },
        }
        self.snapshot = Some(snapshot);
    }

    /// The file was read: its contents, or why not. `parsed` is the document in them.
    pub fn loaded(&mut self, result: Result<Snapshot, String>, parsed: Result<Doc, String>)
        ensures
            match result {
                Ok(snapshot) => if snapshot.hash is None {
                    text::text_of(final(self).load_error) == Some(
                        old(self).shown@ + " doesn't exist."@,
                    ) && *final(self) == (KubeconfigEditor {
                        loading: false,
                        load_error: final(self).load_error,
                        ..*old(self)
                    })
                } else {
                    final(self).took(
                        KubeconfigEditor { loading: false, ..*old(self) },
                        snapshot,
                        parsed,
                    )
                },
                Err(e) => text::text_of(final(self).load_error) == Some(
                    "Couldn't read "@ + old(self).shown@ + ": "@ + e@,
                ) && *final(self) == (KubeconfigEditor {
                    loading: false,
                    load_error: final(self).load_error,
                    ..*old(self)
                }),
            },
    {
        self.loading = false;
        match result {
            Ok(snapshot) => {
                if snapshot.hash.is_none() {
                    self.load_error = Some(cat(self.shown.as_str(), " doesn't exist."));
                } else {
                    self.apply_snapshot(snapshot, parsed);
                }
            },
            Err(e) => {
                self.load_error = Some(
                    cat4("Couldn't read ", self.shown.as_str(), ": ", e.as_str()),
                );
            },
        }
    }

    /// Whether a look at the file on disk shows something new.
    pub open spec fn sees_news(&self, disk: Snapshot) -> bool {
        &&& !self.saving && self.draft is None && !self.loading
        &&& disk.hash is Some
        &&& text::text_of(disk.hash) != hash_of(self.snapshot)
        &&& text::text_of(disk.hash) != hash_of(self.disk)
    }

    /// A look at the file on disk. Another tool's change is taken where there are no unsaved
    /// ones; else it is kept aside for the banner. Says so if the file was reloaded.
    pub fn look_at_disk(&mut self, disk: Snapshot, parsed: Result<Doc, String>) -> (r: Option<
        String,
    >)
        ensures
            if !old(self).sees_news(disk) {
                r is None && *final(self) == *old(self)
            } else if old(self).dirty() {
                r is None && final(self).disk is Some && same_snapshot(
                    final(self).disk->0,
                    disk,
                ) && *final(self) == (KubeconfigEditor { disk: final(self).disk, ..*old(self) })
            } else {
                text::text_of(r) == Some(
                    old(self).shown@ + " changed on disk and was reloaded."@,
                ) && exists|before: KubeconfigEditor|
                    #[trigger] final(self).took(before, disk, parsed) && before == (
                    KubeconfigEditor { disk: before.disk, ..*old(self) })
            },
    {
        if self.saving || self.draft.is_some() || self.loading {
            return None;
        }
        let known: Option<String> = hash_in(&self.snapshot);
        let seen: Option<String> = hash_in(&self.disk);
        if disk.hash.is_none() || same_text(&disk.hash, &known) || same_text(&disk.hash, &seen) {
            return None;
        }
        let dirty: bool = self.is_dirty();
        self.disk = Some(clone_snapshot(&disk));
        if dirty {
            return None;
        }
        let ghost before = *self;
        self.apply_snapshot(disk, parsed);
        assert(self.took(before, disk, parsed));
        Some(cat(self.shown.as_str(), " changed on disk and was reloaded."))
    }

    /// "Reload": throws the local changes away and takes the file from disk. False if there is
    /// nothing to take and the file has to be read.
    pub fn reload_from_disk(&mut self, parsed: Result<Doc, String>) -> (r: bool)
        ensures
            r == (old(self).disk is Some),
            match old(self).disk {
                Some(disk) => final(self).took(
                    KubeconfigEditor { disk: None, ..*old(self) },
                    disk,
                    parsed,
                ),
                None => *final(self) == *old(self),
            },
    {
        match self.disk.take() {
            Some(disk) => {
                self.apply_snapshot(disk, parsed);
                true
            },
            None => false,
        }
    }

    /// "Keep mine": the edits stay and will be written over the new file.
    pub fn keep_mine(&mut self, parsed: Result<Doc, String>)
        ensures
            match old(self).disk {
                Some(disk) => *final(self) == (KubeconfigEditor {
                    disk: None,
                    snapshot: Some(disk),
                    base: match parsed {
                        Ok(doc) => doc,
                        Err(_) => old(self).base,
                    },
                    ..*old(self)
                }),
                None => *final(self) == *old(self),
            },
    {
        if let Some(disk) = self.disk.take() {
            // Changes are now relative to the file on disk.
            if let Ok(doc) = parsed {
                self.base = doc;
            }
            self.snapshot = Some(disk);
        }
    }

    // ----- Editing -----

    /// Adds a new entry with a starting body and selects it.
    pub fn add(&mut self, kind: Kind)
        ensures
            ({
                let d = old(self).doc@;
                let name = start_name(d, kind);
                match document::add_error(d, kind, name) {
                    None => final(self).doc@ == document::added(
                        d,
                        kind,
                        name,
                        start_body(d, kind),
                    ) && entry_of(final(self).selection) == Some((kind, name)),
                    Some(_) => final(self).doc@ == d && final(self).selection
                        == old(self).selection,
                }
            }),
            *final(self) == (KubeconfigEditor {
                doc: final(self).doc,
                selection: final(self).selection,
                ..*old(self)
            }),
    {
        let base: &str = match kind {
            Kind::Context => "new-context",
            Kind::Cluster => "new-cluster",
            Kind::User => "new-user",
        };
        let name: String = self.doc.unique_name(kind, base);
        let body: Object = starting_body(&self.doc, kind);
        if self.doc.add(kind, name.as_str(), body).is_ok() {
            self.selection = Some(EntryRef::new(kind, name.as_str()));
        }
    }

    /// Duplicates an entry and selects the copy.
    pub fn duplicate(&mut self, entry: &EntryRef)
        ensures
            ({
                let d = old(self).doc@;
                if document::contains(d, entry.kind, entry.name@) {
                    final(self).doc@ == document::duplicated(d, entry.kind, entry.name@)
                        && entry_of(final(self).selection) == Some(
                        (
                            entry.kind,
                            document::unique_name(d, entry.kind, entry.name@ + "-copy"@),
                        ),
                    )
                } else {
                    final(self).doc@ == d && final(self).selection == old(self).selection
                }
            }),
            *final(self) == (KubeconfigEditor {
                doc: final(self).doc,
                selection: final(self).selection,
                ..*old(self)
            }),
    {
        if let Some(name) = self.doc.duplicate(entry.kind, entry.name.as_str()) {
            self.selection = Some(EntryRef::new(entry.kind, name.as_str()));
        }
    }

    /// Renames an entry and selects it under its new name. An error changes nothing.
    pub fn rename(&mut self, entry: &EntryRef, new: &str) -> (r: Result<(), String>)
        ensures
            ({
                let d = old(self).doc@;
                let to = text::trimmed(new@);
                match document::rename_error(d, entry.kind, entry.name@, to) {
                    Some(e) => r is Err && r->Err_0@ == e && *final(self) == *old(self),
                    None => {
                        &&& r is Ok
                        &&& final(self).doc@ == document::renamed(d, entry.kind, entry.name@, to)
                        &&& entry_of(final(self).selection) == Some((entry.kind, to))
                        &&& exec::pair_texts(final(self).renames@) == if entry.kind
                            == Kind::Context && entry.name@ != to {
                            renamed(exec::pair_texts(old(self).renames@), entry.name@, to)
                        } else {
                            exec::pair_texts(old(self).renames@)
                        }
                        &&& *final(self) == (KubeconfigEditor {
                            doc: final(self).doc,
                            selection: final(self).selection,
                            renames: final(self).renames,
                            ..*old(self)
                        })
                    },
                }
            }),
    {
        let new: String = trim(new);
        match self.doc.rename(entry.kind, entry.name.as_str(), new.as_str()) {
            Ok(()) => {
                if entry.kind == Kind::Context && !same(entry.name.as_str(), new.as_str()) {
                    note_rename(&mut self.renames, entry.name.as_str(), new.as_str());
                }
                self.selection = Some(EntryRef::new(entry.kind, new.as_str()));
                Ok(())
            },
            Err(e) => Err(e),
        }
    }

    /// Deletes an entry; the selection goes to the first one if it was selected.
    pub fn delete(&mut self, entry: &EntryRef)
        ensures
            ({
                let d = old(self).doc@;
                if document::contains(d, entry.kind, entry.name@) {
                    final(self).doc@ == document::removed(d, entry.kind, entry.name@) && entry_of(
                        final(self).selection,
                    ) == if entry_of(old(self).selection) == Some((entry.kind, entry.name@)) {
                        first_entry(document::removed(d, entry.kind, entry.name@))
                    } else {
                        entry_of(old(self).selection)
                    }
                } else {
                    final(self).doc@ == d && final(self).selection == old(self).selection
                }
            }),
            *final(self) == (KubeconfigEditor {
                doc: final(self).doc,
                selection: final(self).selection,
                ..*old(self)
            }),
    {
        if self.doc.remove(entry.kind, entry.name.as_str()) {
            if is_entry(&self.selection, entry) {
                self.selection = first(&self.doc);
            }
        }
    }

    /// Throws away the unsaved changes (a draft has nothing to go back to).
    pub fn revert(&mut self)
        ensures
            if old(self).draft is Some {
                *final(self) == *old(self)
            } else {
                &&& final(self).doc@ == old(self).base@
                &&& final(self).renames@.len() == 0
                &&& entry_of(final(self).selection) == selection_in(
                    old(self).base@,
                    entry_of(old(self).selection),
                )
                &&& *final(self) == (KubeconfigEditor {
                    doc: final(self).doc,
                    renames: final(self).renames,
                    selection: final(self).selection,
                    ..*old(self)
                })
            },
    {
        if self.draft.is_some() {
            return;
        }
        self.doc = self.base.clone();
        self.renames = Vec::new();
        let stays: bool = match &self.selection {
            Some(e) => self.doc.contains(e.kind, e.name.as_str()),
            None => false,
        };
        if !stays {
            self.selection = first(&self.doc);
        }
    }

    // ----- Testing -----

    /// The context that is selected, or the first one that uses the selected cluster or user.
    pub open spec fn context(&self) -> Option<Seq<char>> {
        match entry_of(self.selection) {
            None => None,
            Some((Kind::Context, name)) => Some(name),
            Some((kind, name)) => {
                let used = document::used_by(self.doc@, kind, name);
                if used.len() > 0 {
                    Some(used[0])
                } else {
                    None
                }
            },
        }
    }

    /// The selected context, or the first context that uses the selected cluster or user.
    pub fn selected_context(&self) -> (r: Option<String>)
        ensures
            text::text_of(r) == self.context(),
    {
        match &self.selection {
            None => None,
            Some(entry) => {
                if entry.kind == Kind::Context {
                    return Some(entry.name.clone());
                }
                let used: Vec<String> = self.doc.used_by(entry.kind, entry.name.as_str());
                assert(text::texts(used@).len() == used@.len());
                if used.len() > 0 {
                    assert(text::texts(used@)[0] == used@[0]@);
                    Some(used[0].clone())
                } else {
                    None
                }
            },
        }
    }

    fn test_input(&self, context: &str) -> (r: Input)
        ensures
            r.doc@ == self.doc@,
            r.context@ == context@,
            r.file@ == self.path@,
            r.allow_exec,
    {
        Input {
            doc: self.doc.clone(),
            context: context.to_string(),
            file: self.path.clone(),
            allow_exec: true,
        }
    }

    /// The plugin that a test of a context asks for first: one that isn't saved in a file that
    /// is loaded, and that the user didn't agree to.
    pub open spec fn asks_for(&self, global: Kubeconfigs, loaded: bool, context: Seq<char>) -> Option<
        exec::Plugin,
    > {
        let saved = if loaded && self.snapshot is Some {
            Some(self.base@)
        } else {
            None
        };
        match state::unsaved_plugin(self.doc@, saved, context) {
            Some(p) if !global.agreed_to(p) => Some(p),
            _ => None,
        }
    }

    /// Tests `context` from the edited document. Asks before running an exec plugin that isn't
    /// saved: without one to ask for, the test starts at once.
    pub fn test(&mut self, context: &str, global: &Kubeconfigs, loaded: bool) -> (r: TestPlan)
        ensures
            *final(self) == (KubeconfigEditor { show_test: true, ..*old(self) }),
            r.key@ == (old(self).key(), context@),
            r.input.doc@ == old(self).doc@,
            r.input.context@ == context@,
            r.input.file@ == old(self).path@,
            r.input.allow_exec,
            exec_of(r.ask) == old(self).asks_for(*global, loaded, context@),
    {
        let ask: Option<ExecSpec> = global.needs_consent(
            &self.doc,
            self.saved_and_loaded(loaded),
            context,
        );
        self.show_test = true;
        TestPlan {
            key: TestKey::new(self.doc_key().as_str(), context),
            input: self.test_input(context),
            ask,
        }
    }

    /// Every context with the plugin that it asks for.
    pub open spec fn all_asks(&self, global: Kubeconfigs, loaded: bool) -> Seq<
        (Seq<char>, Option<exec::Plugin>),
    > {
        Seq::new(
            document::names(self.doc@, Kind::Context).len(),
            |i: int|
                (
                    document::names(self.doc@, Kind::Context)[i],
                    self.asks_for(
                        global,
                        loaded,
                        document::names(self.doc@, Kind::Context)[i],
                    ),
                ),
        )
    }

    /// Tests every context; asks once for every exec plugin that needs consent.
    pub fn test_all(&self, global: &Kubeconfigs, loaded: bool) -> (r: TestAllPlan)
        ensures
            r.tests@.len() == document::names(self.doc@, Kind::Context).len(),
            forall|i: int|
                0 <= i < r.tests@.len() ==> {
                    let context = document::names(self.doc@, Kind::Context)[i];
                    &&& (#[trigger] r.tests@[i]).0@ == (self.key(), context)
                    &&& r.tests@[i].1.doc@ == self.doc@
                    &&& r.tests@[i].1.context@ == context
                    &&& r.tests@[i].1.file@ == self.path@
                    &&& r.tests@[i].1.allow_exec
                },
            groups_view(r.ask@) == grouped(self.all_asks(*global, loaded)),
    {
        let contexts: Vec<String> = self.doc.names(Kind::Context);
        let key: String = self.doc_key();
        let mut asks: Vec<(String, Option<ExecSpec>)> = Vec::new();
        let mut tests: Vec<(TestKey, Input)> = Vec::new();
        let ghost names = document::names(self.doc@, Kind::Context);
        let ghost all = self.all_asks(*global, loaded);
        assert(contexts@.len() == text::texts(contexts@).len());
        let mut i: usize = 0;
        while i < contexts.len()
            invariant
                i <= contexts@.len(),
                names == document::names(self.doc@, Kind::Context),
                names == text::texts(contexts@),
                names.len() == contexts@.len(),
                all == self.all_asks(*global, loaded),
                key@ == self.key(),
                asks_view(asks@) =~= all.take(i as int),
                tests@.len() == i,
                forall|j: int|
                    0 <= j < tests@.len() ==> {
                        let context = names[j];
                        &&& (#[trigger] tests@[j]).0@ == (self.key(), context)
                        &&& tests@[j].1.doc@ == self.doc@
                        &&& tests@[j].1.context@ == context
                        &&& tests@[j].1.file@ == self.path@
                        &&& tests@[j].1.allow_exec
                    },
            decreases contexts@.len() - i,
        {
            let ghost before = asks@;
            let context: &str = contexts[i].as_str();
            assert(names[i as int] == contexts@[i as int]@);
            let ask: Option<ExecSpec> = global.needs_consent(
                &self.doc,
                self.saved_and_loaded(loaded),
                context,
            );
            assert(exec_of(ask) == self.asks_for(*global, loaded, context@));
            asks.push((context.to_string(), ask));
            assert(asks_view(asks@) =~= asks_view(before).push((context@, exec_of(ask))));
            tests.push((TestKey::new(key.as_str(), context), self.test_input(context)));
            i += 1;
        }
        assert(all.take(i as int) =~= all);
        TestAllPlan { tests, ask: group_consents(asks) }
    }

    /// "Select this context (and test it)" from elsewhere: the context to test, if it is to be
    /// tested. Nothing happens while the file is loading, or if the context isn't there.
    pub fn take_pending(&mut self, context: Option<String>, test: bool) -> (r: Option<String>)
        ensures
            match context {
                Some(c) if !old(self).loading && document::contains(
                    old(self).doc@,
                    Kind::Context,
                    c@,
                ) => entry_of(final(self).selection) == Some((Kind::Context, c@))
                    && text::text_of(r) == if test {
                    Some(c@)
                } else {
                    None
                },
                _ => r is None && final(self).selection == old(self).selection,
            },
            *final(self) == (KubeconfigEditor {
                selection: final(self).selection,
                ..*old(self)
            }),
    {
        if self.loading {
            return None;
        }
        match context {
            Some(context) => {
                if !self.doc.contains(Kind::Context, context.as_str()) {
                    return None;
                }
                self.selection = Some(EntryRef::new(Kind::Context, context.as_str()));
                if test {
                    Some(context)
                } else {
                    None
                }
            },
            None => None,
        }
    }

    // ----- Saving -----

    /// How a save writes the document: with a backup, refusing when the file changed since it was
    /// loaded. A file Kubyl doesn't own is only written if editing is on for it, or is turned on
    /// (`opt_in`).
    pub fn save_options(&self, opted_in: bool, opt_in: bool, backups: &str, keep: usize) -> (r:
        Result<SaveOptions, SaveError>)
        ensures
            if !self.owned() && !opted_in && !opt_in {
                r is Err && r->Err_0 is Io && r->Err_0->Io_0@
                    == "Kubyl doesn't edit this file until you allow it"@
            } else {
                match r {
                    Ok(o) => {
                        &&& text::text_of(o.expected) == if self.draft is Some {
                            None
                        } else {
                            hash_of(self.snapshot)
                        }
                        &&& o.backups is Some
                        &&& o.backups->0.dir@ == backups@
                        &&& o.backups->0.keep == keep
                        &&& o.private == (self.draft is Some || transfer::holds_secrets(
                            self.doc@,
                        ))
                    },
                    Err(_) => false,
                }
            },
    {
        if !self.is_editable(opted_in) && !opt_in {
            return Err(
                SaveError::Io("Kubyl doesn't edit this file until you allow it".to_string()),
            );
        }
        Ok(
            SaveOptions {
                expected: if self.draft.is_some() {
                    None
                } else {
                    hash_in(&self.snapshot)
                },
                backups: Some(Backups { dir: backups.to_string(), keep }),
                private: self.draft.is_some() || self.doc.has_inline_credentials(),
            },
        )
    }

    /// A save ended with this error: the file on disk (`disk`) is kept aside for the banner if
    /// it changed.
    pub fn save_failed(&mut self, error: &SaveError, disk: Option<Snapshot>)
        ensures
            *final(self) == (KubeconfigEditor {
                saving: false,
                disk: if *error is Changed && disk is Some {
                    disk
                } else {
                    old(self).disk
                },
                ..*old(self)
            }),
    {
        self.saving = false;
        if let SaveError::Changed { current: _ } = error {
            if disk.is_some() {
                self.disk = disk;
            }
        }
    }

    /// Finishes a save: the written text is the new base; overrides move along, and a draft
    /// becomes a file (`title`: its file name). `parsed` is the document in the text,
    /// `backup_shown` the backup's path as it is shown.
    pub fn saved(
        &mut self,
        saved: &Saved,
        text: String,
        title: String,
        parsed: Result<Doc, String>,
        backup_shown: Option<&str>,
    ) -> (r: SaveEffects)
        ensures
            text::text_of(r.forget) == if old(self).draft is Some {
                Some(old(self).key())
            } else {
                None
            },
            r.renames == old(self).renames,
            r.message@ == "Saved "@ + old(self).shown@ + match backup_shown {
                Some(b) => " · backup "@ + b@,
                None => seq![],
            },
            exists|before: KubeconfigEditor, snapshot: Snapshot|
                #[trigger] final(self).took(before, snapshot, parsed) && snapshot.text@ == text@
                    && text::text_of(snapshot.hash) == Some(saved.hash@) && before.renames@.len()
                    == 0 && before == (KubeconfigEditor {
                    saving: false,
                    draft: None,
                    title: if old(self).draft is Some {
                        title
                    } else {
                        old(self).title
                    },
                    renames: before.renames,
                    ..*old(self)
                }),
    {
        self.saving = false;
        let forget: Option<String> = if self.draft.is_some() {
            Some(self.doc_key())
        } else {
            None
        };
        if self.draft.is_some() {
            self.title = title;
        }
        self.draft = None;
        let mut renames: Vec<(String, String)> = Vec::new();
        std::mem::swap(&mut renames, &mut self.renames);
        let message: String = match backup_shown {
            Some(b) => cat4("Saved ", self.shown.as_str(), " · backup ", b),
            None => cat("Saved ", self.shown.as_str()),
        };
        let snapshot = Snapshot { text, hash: Some(saved.hash.clone()) };
        let ghost before = *self;
        self.apply_snapshot(snapshot, parsed);
        assert(self.took(before, snapshot, parsed));
        assert(message@ =~= "Saved "@ + old(self).shown@ + match backup_shown {
            Some(b) => " · backup "@ + b@,
            None => seq![],
        });
        SaveEffects { forget, renames, message }
    }

    /// After "Save as a Kubyl copy": the editor shows the copy. Tests and sign-ins of the
    /// returned key are forgotten.
    pub fn moved_to(&mut self, path: String, shown: String, in_owned_dir: bool, title: String) -> (r:
        String)
        ensures
            r@ == old(self).key(),
            *final(self) == (KubeconfigEditor {
                path,
                shown,
                title,
                in_owned_dir,
                draft: None,
                ..*old(self)
            }),
    {
        let key: String = self.doc_key();
        self.path = path;
        self.shown = shown;
        self.title = title;
        self.in_owned_dir = in_owned_dir;
        self.draft = None;
        key
    }
}

// ----- Consent for many tests -----

/// The contexts that run each plugin, in the order in which the plugins come up.
pub open spec fn grouped(asks: Seq<(Seq<char>, Option<exec::Plugin>)>) -> Seq<
    (Seq<Seq<char>>, exec::Plugin),
>
    decreases asks.len(),
{
    if asks.len() == 0 {
        seq![]
    } else {
        let before = grouped(asks.drop_last());
        let (context, plugin) = asks.last();
        match plugin {
            None => before,
            Some(p) => match group_of(before, p) {
                Some(i) => before.update(i, (before[i].0.push(context), p)),
                None => before.push((seq![context], p)),
            },
        }
    }
}

/// The group of a plugin.
pub open spec fn group_of(groups: Seq<(Seq<Seq<char>>, exec::Plugin)>, p: exec::Plugin) -> Option<
    int,
>
    decreases groups.len(),
{
    if groups.len() == 0 {
        None
    } else {
        match group_of(groups.drop_last(), p) {
            Some(i) => Some(i),
            None => if groups.last().1 == p {
                Some(groups.len() - 1)
            } else {
                None
            },
        }
    }
}

pub open spec fn groups_view(v: Seq<(Vec<String>, ExecSpec)>) -> Seq<
    (Seq<Seq<char>>, exec::Plugin),
> {
    Seq::new(v.len(), |i: int| (text::texts(v[i].0@), v[i].1@))
}

pub open spec fn asks_view(v: Seq<(String, Option<ExecSpec>)>) -> Seq<
    (Seq<char>, Option<exec::Plugin>),
> {
    Seq::new(
        v.len(),
        |i: int|
            (v[i].0@, exec_of(v[i].1)),
    )
}

proof fn lemma_group_of(groups: Seq<(Seq<Seq<char>>, exec::Plugin)>, p: exec::Plugin, n: int)
    requires
        0 <= n <= groups.len(),
        group_of(groups.take(n), p) is Some,
    ensures
        group_of(groups, p) == group_of(groups.take(n), p),
    decreases groups.len() - n,
{
    if n < groups.len() {
        assert(groups.take(n + 1).drop_last() =~= groups.take(n));
        lemma_group_of(groups, p, n + 1);
    } else {
        assert(groups.take(n) =~= groups);
    }
}

fn find_group(groups: &Vec<(Vec<String>, ExecSpec)>, spec: &ExecSpec) -> (r: Option<usize>)
    ensures
        match r {
            Some(i) => i < groups@.len() && group_of(groups_view(groups@), spec@) == Some(
                i as int,
            ) && groups_view(groups@)[i as int].1 == spec@,
            None => group_of(groups_view(groups@), spec@) is None,
        },
{
    let ghost all = groups_view(groups@);
    let mut i: usize = 0;
    assert(all.take(0) =~= Seq::empty());
    while i < groups.len()
        invariant
            i <= groups@.len(),
            all == groups_view(groups@),
            group_of(all.take(i as int), spec@) is None,
        decreases groups@.len() - i,
    {
        assert(all.take(i + 1).drop_last() =~= all.take(i as int));
        assert(all[i as int].1 == groups@[i as int].1@);
        if state::same_plugin(&groups[i].1, spec) {
            proof {
                lemma_group_of(all, spec@, i + 1);
            }
            return Some(i);
        }
        i += 1;
    }
    assert(all.take(i as int) =~= all);
    None
}

/// Groups the plugins that need consent: one group for every plugin, with the contexts that run
/// it.
pub fn group_consents(asks: Vec<(String, Option<ExecSpec>)>) -> (r: Vec<(Vec<String>, ExecSpec)>)
    ensures
        groups_view(r@) == grouped(asks_view(asks@)),
{
    let ghost all = asks_view(asks@);
    let mut groups: Vec<(Vec<String>, ExecSpec)> = Vec::new();
    let mut i: usize = 0;
    assert(all.take(0) =~= Seq::empty());
    assert(groups_view(groups@) =~= Seq::empty());
    while i < asks.len()
        invariant
            i <= asks@.len(),
            all == asks_view(asks@),
            groups_view(groups@) == grouped(all.take(i as int)),
        decreases asks@.len() - i,
    {
        broadcast use text::texts_push;

        assert(all.take(i + 1).drop_last() =~= all.take(i as int));
        let ghost before = groups_view(groups@);
        if let Some(spec) = &asks[i].1 {
            assert(all[i as int] == (asks@[i as int].0@, Some(spec@)));
            match find_group(&groups, spec) {
                Some(at) => {
                    let mut names: Vec<String> = text::clone_texts(&groups[at].0);
                    names.push(asks[i].0.clone());
                    let spec: ExecSpec = spec.clone();
                    let ghost group = (text::texts(names@), spec@);
                    groups.set(at, (names, spec));
                    assert(groups_view(groups@) =~= before.update(at as int, group));
                },
                None => {
                    let mut names: Vec<String> = Vec::new();
                    names.push(asks[i].0.clone());
                    let spec: ExecSpec = spec.clone();
                    let ghost group = (text::texts(names@), spec@);
                    assert(text::texts(names@) =~= seq![asks@[i as int].0@]);
                    groups.push((names, spec));
                    assert(groups_view(groups@) =~= before.push(group));
                },
            }
        } else {
            assert(all[i as int].1 is None);
        }
        i += 1;
    }
    assert(all.take(i as int) =~= all);
    groups
}

// ----- Laws -----

proof fn lemma_group(groups: Seq<(Seq<Seq<char>>, exec::Plugin)>, p: exec::Plugin)
    ensures
        match group_of(groups, p) {
            Some(i) => 0 <= i < groups.len() && groups[i].1 == p,
            None => forall|i: int| 0 <= i < groups.len() ==> (#[trigger] groups[i]).1 != p,
        },
    decreases groups.len(),
{
    if groups.len() > 0 {
        lemma_group(groups.drop_last(), p);
        assert forall|i: int| group_of(groups, p) is None && 0 <= i < groups.len() implies (
        #[trigger] groups[i]).1 != p by {
            if i < groups.len() - 1 {
                assert(groups.drop_last()[i] == groups[i]);
            }
        }
    }
}

/// However many contexts run a plugin, it is asked for once.
pub proof fn each_plugin_is_asked_for_once(asks: Seq<(Seq<char>, Option<exec::Plugin>)>, i: int, j: int)
    requires
        0 <= i < j < grouped(asks).len(),
    ensures
        grouped(asks)[i].1 != grouped(asks)[j].1,
    decreases asks.len(),
{
    if asks.len() > 0 {
        let before = grouped(asks.drop_last());
        if j < before.len() {
            each_plugin_is_asked_for_once(asks.drop_last(), i, j);
        }
        if let Some(p) = asks.last().1 {
            lemma_group(before, p);
        }
    }
}

/// A context that runs a plugin to ask for is named in the question about it.
pub proof fn every_context_is_named(asks: Seq<(Seq<char>, Option<exec::Plugin>)>, i: int)
    requires
        0 <= i < asks.len(),
        asks[i].1 is Some,
    ensures
        exists|g: int|
            0 <= g < grouped(asks).len() && (#[trigger] grouped(asks)[g]).1 == asks[i].1->0
                && grouped(asks)[g].0.contains(asks[i].0),
    decreases asks.len(),
{
    let before = grouped(asks.drop_last());
    let all = grouped(asks);
    let p = asks[i].1->0;
    if let Some(q) = asks.last().1 {
        lemma_group(before, q);
    }
    if i < asks.len() - 1 {
        every_context_is_named(asks.drop_last(), i);
        let g = choose|g: int|
            0 <= g < before.len() && (#[trigger] before[g]).1 == p && before[g].0.contains(
                asks[i].0,
            );
        let k = choose|k: int| 0 <= k < before[g].0.len() && before[g].0[k] == asks[i].0;
        assert(all[g].0[k] == asks[i].0);
        assert(all[g].1 == p && all[g].0.contains(asks[i].0));
    } else {
        let g = match group_of(before, p) {
            Some(g) => g,
            None => before.len() as int,
        };
        assert(all[g].0.last() == asks[i].0);
        assert(all[g].1 == p && all[g].0.contains(asks[i].0));
    }
}

/// A plugin that the user agreed to isn't asked for again.
pub proof fn consent_is_asked_once(
    editor: KubeconfigEditor,
    before: Kubeconfigs,
    after: Kubeconfigs,
    p: exec::Plugin,
    loaded: bool,
    context: Seq<char>,
)
    requires
        forall|q: exec::Plugin| #[trigger]
            after.agreed_to(q) == (before.agreed_to(q) || consent::id_of(q) == consent::id_of(p)),
    ensures
        editor.asks_for(after, loaded, context) != Some(p),
        editor.asks_for(before, loaded, context) is None ==> editor.asks_for(
            after,
            loaded,
            context,
        ) is None,
{
    assert(after.agreed_to(p));
}

/// The path of a draft gives its id back.
pub proof fn a_draft_path_gives_its_id(id: u64)
    ensures
        draft_of(DRAFT_PREFIX@ + text::decimal(id as nat)) == Some(id as nat),
{
    let digits = text::decimal(id as nat);
    text::lemma_decimal_digits(id as nat);
    let path = DRAFT_PREFIX@ + digits;
    assert(path.skip(DRAFT_PREFIX@.len() as int) =~= digits);
    assert(DRAFT_PREFIX@.is_prefix_of(path));
    assert(text::is_digit(digits[0]));
}

/// A → B → C moves A's overrides to C.
pub proof fn renames_chain(a: Seq<char>, b: Seq<char>, c: Seq<char>)
    ensures
        renamed(renamed(seq![], a, b), b, c) == seq![(a, c)],
{
    let one = renamed(seq![], a, b);
    assert(one =~= seq![(a, b)]);
    assert(one.drop_last() =~= seq![]);
    assert(first_to(one.drop_last(), b) is None);
    assert(first_to(one, b) == Some(0int));
    assert(renamed(one, b, c) =~= seq![(a, c)]);
}

/// A document that was just loaded (or saved) has no unsaved changes.
pub proof fn a_loaded_document_is_not_dirty(
    editor: KubeconfigEditor,
    before: KubeconfigEditor,
    snapshot: Snapshot,
    doc: Doc,
)
    requires
        editor.took(before, snapshot, Ok(doc)),
        before.draft is None,
        json::well_formed(doc@),
    ensures
        !editor.dirty(),
{
    json::equal_to_itself(doc@);
}

/// A document that was just reverted has no unsaved changes.
pub proof fn a_reverted_document_is_not_dirty(editor: KubeconfigEditor)
    requires
        editor.draft is None,
        editor.doc@ == editor.base@,
        json::well_formed(editor.base@),
    ensures
        !editor.dirty(),
{
    json::equal_to_itself(editor.base@);
}

} // verus!
