//! Moving documents and contexts: saving as a Kubyl copy, merge, split, export, and copying or
//! moving a context to another file.

use crate::dialogs::Confirm;
use crate::document;
use crate::json::Json;
use crate::locations;
use crate::model::{Doc, Kind};
use crate::text::{self, cat, cat3, cat4, cat5, same};
use crate::transfer;
use vstd::prelude::*;

verus! {

/// Where a kubeconfig source comes from.
#[derive(Clone, Copy, Debug, PartialEq, Eq, Structural)]
pub enum SourceKind {
    /// `~/.kube/config`.
    Default,
    /// `$KUBECONFIG`.
    Env,
    /// Added by the user.
    User,
    /// Pasted, or written by Kubyl.
    Pasted,
}

/// A kubeconfig source.
#[derive(Debug)]
pub struct SourceFiles {
    pub kind: SourceKind,
    pub files: Vec<String>,
}

/// Where a file comes from: the kind of the first source that has it.
pub open spec fn kind_of(sources: Seq<SourceFiles>, path: Seq<char>) -> Option<SourceKind>
    decreases sources.len(),
{
    if sources.len() == 0 {
        None
    } else if locations::listed(text::texts(sources[0].files@), path) {
        Some(sources[0].kind)
    } else {
        kind_of(sources.drop_first(), path)
    }
}

/// Where a file comes from, for the toolbar and "Save as a Kubyl copy".
pub fn source_kind(sources: &Vec<SourceFiles>, path: &str) -> (r: Option<SourceKind>)
    ensures
        r == kind_of(sources@, path@),
{
    let mut i: usize = 0;
    assert(sources@.skip(0) =~= sources@);
    while i < sources.len()
        invariant
            i <= sources@.len(),
            kind_of(sources@.skip(i as int), path@) == kind_of(sources@, path@),
        decreases sources@.len() - i,
    {
        assert(sources@.skip(i as int).drop_first() =~= sources@.skip(i + 1));
        assert(sources@.skip(i as int)[0] == sources@[i as int]);
        if locations::is_listed(&sources[i].files, path) {
            return Some(sources[i].kind);
        }
        i += 1;
    }
    None
}

// ----- Save as a Kubyl copy -----

/// The name that a file's copy starts with.
pub open spec fn copy_name(stem: Option<Seq<char>>) -> Seq<char> {
    match stem {
        Some(s) => if s == "config"@ {
            "kube-config"@
        } else {
            s
        },
        None => "kubeconfig"@,
    }
}

/// The name that a file's copy starts with: that of the file.
pub fn copy_stem(stem: Option<&str>) -> (r: String)
    ensures
        r@ == copy_name(
            match stem {
                Some(s) => Some(s@),
                None => None,
            },
        ),
{
    match stem {
        Some(s) => if same(s, "config") {
            "kube-config".to_string()
        } else {
            s.to_string()
        },
        None => "kubeconfig".to_string(),
    }
}

/// What becomes of the original as a source.
pub open spec fn source_note(kind: Option<SourceKind>) -> Seq<char> {
    match kind {
        Some(SourceKind::Default) => "Kubyl stops loading ~/.kube/config (turn it back on in Clusters & kubeconfigs)."@,
        Some(SourceKind::Env) => "Kubyl stops loading $KUBECONFIG and adds its other files as sources."@,
        Some(SourceKind::User) => "The copy replaces the original as a source."@,
        _ => "The copy is loaded as a Kubyl-owned kubeconfig."@,
    }
}

/// The question before a file is saved as a Kubyl copy. Both paths are as they are shown.
pub fn save_copy(kind: Option<SourceKind>, target: &str, path: &str) -> (r: Confirm)
    ensures
        r.title@ == "Save as a Kubyl copy?"@,
        r.action@ == "Save copy"@,
        !r.danger,
        text::texts(r.lines@) == seq![
            "Writes "@ + target@ + " (0600)."@,
            path@ + " stays as it is."@,
            source_note(kind),
        ],
        text::text_of(r.note) == Some(
            "Kubyl's overrides of its contexts (names, colors, production, read-only) move to the copy."@,
        ),
{
    let note: &'static str = match kind {
        Some(SourceKind::Default) => "Kubyl stops loading ~/.kube/config (turn it back on in Clusters & kubeconfigs).",
        Some(SourceKind::Env) => "Kubyl stops loading $KUBECONFIG and adds its other files as sources.",
        Some(SourceKind::User) => "The copy replaces the original as a source.",
        _ => "The copy is loaded as a Kubyl-owned kubeconfig.",
    };
    let lines: Vec<String> = vec![
        cat3("Writes ", target, " (0600)."),
        cat(path, " stays as it is."),
        note.to_string(),
    ];
    assert(text::texts(lines@) =~= seq![
        "Writes "@ + target@ + " (0600)."@,
        path@ + " stays as it is."@,
        source_note(kind),
    ]);
    Confirm {
        title: "Save as a Kubyl copy?".to_string(),
        action: "Save copy",
        lines,
        note: Some(
            "Kubyl's overrides of its contexts (names, colors, production, read-only) move to the copy.".to_string(),
        ),
        danger: false,
    }
}

/// What happens to the sources when a copy replaces a file.
#[derive(Debug)]
pub enum SourceChange {
    /// `~/.kube/config` isn't loaded any more.
    StopDefault,
    /// `$KUBECONFIG` isn't loaded any more; its other files become sources.
    StopEnv(Vec<String>),
    /// The original isn't a source any more.
    Remove,
    Nothing,
}

/// The paths that aren't this one.
pub open spec fn others(v: Seq<Seq<char>>, path: Seq<char>) -> Seq<Seq<char>>
    decreases v.len(),
{
    if v.len() == 0 {
        seq![]
    } else {
        let before = others(v.drop_last(), path);
        if locations::same_path(v.last(), path) {
            before
        } else {
            before.push(v.last())
        }
    }
}

/// The other files of `$KUBECONFIG`.
pub open spec fn env_files(sources: Seq<SourceFiles>, original: Seq<char>) -> Seq<Seq<char>>
    decreases sources.len(),
{
    if sources.len() == 0 {
        seq![]
    } else {
        let before = env_files(sources.drop_last(), original);
        if sources.last().kind == SourceKind::Env {
            before + others(text::texts(sources.last().files@), original)
        } else {
            before
        }
    }
}

fn push_others(to: &mut Vec<String>, v: &Vec<String>, path: &str)
    ensures
        text::texts(final(to)@) == text::texts(old(to)@) + others(text::texts(v@), path@),
{
    let ghost before = text::texts(to@);
    let ghost all = text::texts(v@);
    let mut i: usize = 0;
    assert(all.take(0) =~= seq![]);
    assert(before + others(all.take(0), path@) =~= before);
    while i < v.len()
        invariant
            i <= v@.len(),
            all == text::texts(v@),
            text::texts(to@) == before + others(all.take(i as int), path@),
        decreases v@.len() - i,
    {
        broadcast use text::texts_push;

        assert(all.take(i + 1).drop_last() =~= all.take(i as int));
        assert(all.take(i + 1).last() == v@[i as int]@);
        let ghost have = others(all.take(i as int), path@);
        if !locations::is_same_path(v[i].as_str(), path) {
            to.push(v[i].clone());
            assert(before + have.push(v@[i as int]@) =~= (before + have).push(v@[i as int]@));
        }
        i += 1;
    }
    assert(all.take(i as int) =~= all);
}

/// The copy replaces the original as a source.
pub fn replace_source(sources: &Vec<SourceFiles>, kind: Option<SourceKind>, original: &str) -> (r:
    SourceChange)
    ensures
        match kind {
            Some(SourceKind::Default) => r is StopDefault,
            Some(SourceKind::Env) => r is StopEnv && text::texts(r->StopEnv_0@) == env_files(
                sources@,
                original@,
            ),
            Some(SourceKind::User) => r is Remove,
            _ => r is Nothing,
        },
{
    match kind {
        Some(SourceKind::Default) => SourceChange::StopDefault,
        Some(SourceKind::Env) => {
            let mut files: Vec<String> = Vec::new();
            let mut i: usize = 0;
            assert(sources@.take(0) =~= seq![]);
            assert(text::texts(files@) =~= seq![]);
            while i < sources.len()
                invariant
                    i <= sources@.len(),
                    text::texts(files@) == env_files(sources@.take(i as int), original@),
                decreases sources@.len() - i,
            {
                assert(sources@.take(i + 1).drop_last() =~= sources@.take(i as int));
                if sources[i].kind == SourceKind::Env {
                    push_others(&mut files, &sources[i].files, original);
                }
                i += 1;
            }
            assert(sources@.take(i as int) =~= sources@);
            SourceChange::StopEnv(files)
        },
        Some(SourceKind::User) => SourceChange::Remove,
        _ => SourceChange::Nothing,
    }
}

// ----- Merge -----

/// A document with the contexts of another one, and how many came over.
pub open spec fn merged(d: Json, from: Json, contexts: Seq<Seq<char>>) -> (Json, nat)
    decreases contexts.len(),
{
    if contexts.len() == 0 {
        (d, 0)
    } else {
        let (before, n) = merged(d, from, contexts.drop_last());
        match transfer::imported(before, from, contexts.last()) {
            Some((after, _)) => (after, n + 1),
            None => (before, n),
        }
    }
}

/// Merges every context of `other`, with its cluster and user. Gives how many came over.
pub fn merge(doc: &mut Doc, other: &Doc) -> (r: usize)
    ensures
        (final(doc)@, r as nat) == merged(
            old(doc)@,
            other@,
            document::names(other@, Kind::Context),
        ),
{
    let contexts: Vec<String> = other.names(Kind::Context);
    let ghost all = text::texts(contexts@);
    let ghost start = doc@;
    let mut count: usize = 0;
    let mut i: usize = 0;
    assert(all.take(0) =~= seq![]);
    while i < contexts.len()
        invariant
            i <= contexts@.len(),
            count <= i,
            all == text::texts(contexts@),
            (doc@, count as nat) == merged(start, other@, all.take(i as int)),
        decreases contexts@.len() - i,
    {
        assert(all.take(i + 1).drop_last() =~= all.take(i as int));
        assert(all.take(i + 1).last() == contexts@[i as int]@);
        if doc.import_context(other, contexts[i].as_str()).is_some() {
            count += 1;
        }
        i += 1;
    }
    assert(all.take(i as int) =~= all);
    count
}

/// What is said after a merge.
pub fn merge_message(count: usize) -> (r: String)
    ensures
        r@ == "Merged "@ + text::decimal(count as nat) + " context"@ + (if count == 1 {
            ""@
        } else {
            "s"@
        }) + " (not saved yet). Exec plugins from them ask before they run."@,
{
    cat5(
        "Merged ",
        text::decimal_text(count as u128).as_str(),
        " context",
        if count == 1 {
            ""
        } else {
            "s"
        },
        " (not saved yet). Exec plugins from them ask before they run.",
    )
}

// ----- Split -----

/// The files that a document is split into, by context.
pub open spec fn split_lines(contexts: Seq<Seq<char>>, stem: Seq<char>, dir: Seq<char>) -> Seq<
    Seq<char>,
> {
    Seq::new(
        contexts.len(),
        |i: int| contexts[i] + " → "@ + dir + stem + "-"@ + contexts[i] + ".yaml"@,
    )
}

/// The question before a document is split into one file per context; none without contexts.
/// `dir` is Kubyl's folder as it is shown, with the separator behind it.
pub fn split(doc: &Doc, stem: &str, dir: &str) -> (r: Option<Confirm>)
    ensures
        ({
            let contexts = document::names(doc@, Kind::Context);
            match r {
                Some(c) => {
                    &&& contexts.len() > 0
                    &&& c.title@ == "Split into "@ + text::decimal(contexts.len()) + " files?"@
                    &&& c.action@ == "Split"@
                    &&& !c.danger
                    &&& text::texts(c.lines@) == split_lines(contexts, stem@, dir@)
                    &&& text::text_of(c.note) == Some(
                        "Each file holds one context with its cluster and user (credentials included, 0600). This file stays as it is, so its contexts show up twice until you remove one."@,
                    )
                },
                None => contexts.len() == 0,
            }
        }),
{
    let contexts: Vec<String> = doc.names(Kind::Context);
    let ghost all = text::texts(contexts@);
    let ghost wanted = split_lines(all, stem@, dir@);
    assert(all.len() == contexts@.len());
    if contexts.len() == 0 {
        return None;
    }
    let mut lines: Vec<String> = Vec::new();
    let mut i: usize = 0;
    assert(text::texts(lines@) =~= wanted.take(0));
    while i < contexts.len()
        invariant
            i <= contexts@.len(),
            all == text::texts(contexts@),
            wanted == split_lines(all, stem@, dir@),
            text::texts(lines@) == wanted.take(i as int),
        decreases contexts@.len() - i,
    {
        broadcast use text::texts_push;

        let context: &str = contexts[i].as_str();
        assert(all[i as int] == context@);
        let start: String = cat5(context, " → ", dir, stem, "-");
        lines.push(cat3(start.as_str(), context, ".yaml"));
        assert(wanted.take(i + 1) =~= wanted.take(i as int).push(wanted[i as int]));
        i += 1;
    }
    assert(wanted.take(i as int) =~= wanted);
    Some(
        Confirm {
            title: cat3(
                "Split into ",
                text::decimal_text(contexts.len() as u128).as_str(),
                " files?",
            ),
            action: "Split",
            lines,
            note: Some(
                "Each file holds one context with its cluster and user (credentials included, 0600). This file stays as it is, so its contexts show up twice until you remove one.".to_string(),
            ),
            danger: false,
        },
    )
}

/// The files that a document is split into: their names and documents.
pub open spec fn parts_of(d: Json, stem: Seq<char>, contexts: Seq<Seq<char>>) -> Seq<
    (Seq<char>, Json),
>
    decreases contexts.len(),
{
    if contexts.len() == 0 {
        seq![]
    } else {
        let before = parts_of(d, stem, contexts.drop_last());
        match transfer::extracted(d, contexts.last(), true) {
            Some(part) => before.push((stem + "-"@ + contexts.last(), part)),
            None => before,
        }
    }
}

pub open spec fn parts_view(v: Seq<(String, Doc)>) -> Seq<(Seq<char>, Json)> {
    Seq::new(v.len(), |i: int| (v[i].0@, v[i].1@))
}

/// The files that a document is split into: their names and documents.
pub fn split_parts(doc: &Doc, stem: &str) -> (r: Vec<(String, Doc)>)
    ensures
        parts_view(r@) == parts_of(doc@, stem@, document::names(doc@, Kind::Context)),
{
    let contexts: Vec<String> = doc.names(Kind::Context);
    let ghost all = text::texts(contexts@);
    let mut out: Vec<(String, Doc)> = Vec::new();
    let mut i: usize = 0;
    assert(all.take(0) =~= seq![]);
    assert(parts_view(out@) =~= seq![]);
    while i < contexts.len()
        invariant
            i <= contexts@.len(),
            all == text::texts(contexts@),
            parts_view(out@) == parts_of(doc@, stem@, all.take(i as int)),
        decreases contexts@.len() - i,
    {
        let ghost before = out@;
        assert(all.take(i + 1).drop_last() =~= all.take(i as int));
        let context: &str = contexts[i].as_str();
        assert(all.take(i + 1).last() == context@);
        if let Some(part) = doc.extract(context, true) {
            let name: String = cat3(stem, "-", context);
            let ghost pair = (name@, part@);
            out.push((name, part));
            assert(parts_view(out@) =~= parts_view(before).push(pair));
        }
        i += 1;
    }
    assert(all.take(i as int) =~= all);
    out
}

/// What is said after a split: how many files were written where.
pub fn split_message(count: usize, dir: &str) -> (r: String)
    ensures
        r@ == "Wrote "@ + text::decimal(count as nat) + " kubeconfigs to "@ + dir@,
{
    cat4("Wrote ", text::decimal_text(count as u128).as_str(), " kubeconfigs to ", dir)
}

// ----- Export -----

/// What the export dialog shows.
pub struct Export {
    /// The document to write; none if the context is gone.
    pub doc: Option<Doc>,
    pub warning: Option<&'static str>,
    pub hint: Option<&'static str>,
}

/// Whether a context has secrets to export.
pub open spec fn export_has_secrets(d: Json, context: Seq<char>) -> bool {
    match transfer::extracted(d, context, true) {
        Some(part) => transfer::holds_secrets(part),
        None => false,
    }
}

/// One context as a standalone kubeconfig, with or without credentials.
pub fn export(doc: &Doc, context: &str, credentials: bool) -> (r: Export)
    ensures
        match r.doc {
            Some(part) => transfer::extracted(doc@, context@, credentials) == Some(part@),
            None => transfer::extracted(doc@, context@, credentials) is None,
        },
        match r.warning {
            Some(w) => credentials && export_has_secrets(doc@, context@) && w@
                == "The export holds secrets: anyone with the file can use this cluster as you. Files are written 0600; the clipboard isn't protected."@,
            None => !(credentials && export_has_secrets(doc@, context@)),
        },
        match r.hint {
            Some(h) => !credentials && export_has_secrets(doc@, context@) && h@
                == "Without credentials the user entry keeps only what isn't secret (exec plugins, certificate files)."@,
            None => credentials || !export_has_secrets(doc@, context@),
        },
{
    let has_secrets: bool = match doc.extract(context, true) {
        Some(part) => part.has_inline_credentials(),
        None => false,
    };
    Export {
        doc: doc.extract(context, credentials),
        warning: if credentials && has_secrets {
            Some(
                "The export holds secrets: anyone with the file can use this cluster as you. Files are written 0600; the clipboard isn't protected.",
            )
        } else {
            None
        },
        hint: if !credentials && has_secrets {
            Some(
                "Without credentials the user entry keeps only what isn't secret (exec plugins, certificate files).",
            )
        } else {
            None
        },
    }
}

// ----- Copy and move -----

/// Copies a context with its cluster and user into another document. Gives its name there, and
/// whether the file must be written for the user alone.
pub fn copy_into(into: &mut Doc, doc: &Doc, context: &str, new_file: bool) -> (r: Result<
    (String, bool),
    String,
>)
    ensures
        match transfer::imported(old(into)@, doc@, context@) {
            Some((after, name)) => r is Ok && final(into)@ == after && (match r {
                Ok((n, private)) => n@ == name && private == (new_file || transfer::holds_secrets(
                    after,
                )),
                Err(_) => false,
            }),
            None => r is Err && r->Err_0@ == "the context is gone"@ && final(into)@ == old(into)@,
        },
{
    match into.import_context(doc, context) {
        Some(name) => {
            let private: bool = new_file || into.has_inline_credentials();
            Ok((name, private))
        },
        None => Err("the context is gone".to_string()),
    }
}

/// The copy was written: what is said, and for a move the context is removed here, with the
/// cluster and user that nothing else uses.
pub fn finish_copy(doc: &mut Doc, context: &str, target: &str, name: &str, remove: bool) -> (r: (
    String,
    Option<&'static str>,
))
    ensures
        r.0@ == "Copied "@ + context@ + " to "@ + target@ + " as "@ + name@,
        match r.1 {
            Some(s) => remove && s@ == "Removed it here; save to finish the move."@,
            None => !remove,
        },
        final(doc)@ == if remove {
            transfer::without_context(old(doc)@, context@)
        } else {
            old(doc)@
        },
{
    let message: String = cat(
        cat5("Copied ", context, " to ", target, " as ").as_str(),
        name,
    );
    if remove {
        doc.remove_context_with_refs(context);
        (message, Some("Removed it here; save to finish the move."))
    } else {
        (message, None)
    }
}

/// A file that a context can be copied to.
#[derive(Debug)]
pub struct CopyTarget {
    pub path: String,
    /// Kubyl may write it.
    pub editable: bool,
}

/// The loaded files but this one.
pub open spec fn other_targets(files: Seq<(String, bool)>, current: Seq<char>) -> Seq<
    (Seq<char>, bool),
>
    decreases files.len(),
{
    if files.len() == 0 {
        seq![]
    } else {
        let before = other_targets(files.drop_last(), current);
        if locations::same_path(files.last().0@, current) {
            before
        } else {
            before.push((files.last().0@, files.last().1))
        }
    }
}

/// Whether a file stands before another: by their paths, and of the same one the one that can't
/// be written first.
pub open spec fn stands_before(a: (Seq<char>, bool), b: (Seq<char>, bool)) -> bool {
    let x = locations::path_key(a.0);
    let y = locations::path_key(b.0);
    text::precedes(x, y) || x == y && !a.1 && b.1
}

/// No file stands behind one that it belongs before.
pub open spec fn in_order(v: Seq<(Seq<char>, bool)>) -> bool {
    forall|i: int, j: int| 0 <= i < j < v.len() ==> !stands_before(#[trigger] v[j], #[trigger] v[i])
}

proof fn lemma_not_before_chains(
    a: (Seq<char>, bool),
    b: (Seq<char>, bool),
    c: (Seq<char>, bool),
)
    ensures
        !stands_before(b, a) && !stands_before(c, b) ==> !stands_before(c, a),
        stands_before(a, b) ==> !stands_before(b, a),
{
    let x = locations::path_key(a.0);
    let y = locations::path_key(b.0);
    let z = locations::path_key(c.0);
    text::lemma_precedes_total(x, y);
    text::lemma_precedes_total(y, z);
    text::lemma_precedes_total(x, z);
    if text::precedes(x, y) && text::precedes(y, z) {
        text::lemma_precedes_transitive(x, y, z);
    }
}

pub open spec fn targets_view(v: Seq<CopyTarget>) -> Seq<(Seq<char>, bool)> {
    Seq::new(v.len(), |i: int| (v[i].path@, v[i].editable))
}

fn is_before(a: &CopyTarget, b: &CopyTarget) -> (r: bool)
    ensures
        r == stands_before((a.path@, a.editable), (b.path@, b.editable)),
{
    let x: String = locations::key_of(a.path.as_str());
    let y: String = locations::key_of(b.path.as_str());
    text::comes_before(x.as_str(), y.as_str()) || same(x.as_str(), y.as_str()) && !a.editable
        && b.editable
}

/// Puts a file where it belongs.
fn place(v: &mut Vec<CopyTarget>, target: CopyTarget)
    requires
        in_order(targets_view(old(v)@)),
    ensures
        in_order(targets_view(final(v)@)),
        targets_view(final(v)@).to_multiset() == targets_view(old(v)@).to_multiset().insert(
            (target.path@, target.editable),
        ),
{
    let ghost before = targets_view(v@);
    let ghost t = (target.path@, target.editable);
    let mut at: usize = 0;
    while at < v.len() && !is_before(&target, &v[at])
        invariant
            at <= v@.len(),
            before == targets_view(v@),
            t == (target.path@, target.editable),
            forall|j: int| 0 <= j < at ==> !stands_before(t, #[trigger] before[j]),
        decreases v@.len() - at,
    {
        at += 1;
    }
    assert(at < v@.len() ==> stands_before(t, before[at as int]));
    v.insert(at, target);
    proof {
        broadcast use vstd::seq_lib::group_to_multiset_ensures;

        let after = targets_view(v@);
        assert(after =~= before.insert(at as int, t));
        assert forall|j: int| at <= j < before.len() implies !stands_before(
            #[trigger] before[j],
            t,
        ) by {
            lemma_not_before_chains(t, before[at as int], before[j]);
        }
        assert forall|i: int, j: int| 0 <= i < j < after.len() implies !stands_before(
            #[trigger] after[j],
            #[trigger] after[i],
        ) by {
            let a = if i < at {
                before[i]
            } else if i == at {
                t
            } else {
                before[i - 1]
            };
            let b = if j < at {
                before[j]
            } else if j == at {
                t
            } else {
                before[j - 1]
            };
            assert(after[i] == a && after[j] == b);
        }
        assert(after.remove(at as int) =~= before);
        assert(after[at as int] == t && after.contains(t));
        assert(after.to_multiset() =~= before.to_multiset().insert(t));
    }
}

/// The files that a context can be copied to: every loaded one but its own, in the order of their
/// paths. `files` are the loaded ones, and whether Kubyl owns them or the user turned editing on.
pub fn copy_targets(files: &Vec<(String, bool)>, current: &str) -> (r: Vec<CopyTarget>)
    ensures
        in_order(targets_view(r@)),
        targets_view(r@).to_multiset() == other_targets(files@, current@).to_multiset(),
{
    let mut out: Vec<CopyTarget> = Vec::new();
    let mut i: usize = 0;
    assert(files@.take(0) =~= seq![]);
    assert(targets_view(out@) =~= seq![]);
    while i < files.len()
        invariant
            i <= files@.len(),
            in_order(targets_view(out@)),
            targets_view(out@).to_multiset() == other_targets(
                files@.take(i as int),
                current@,
            ).to_multiset(),
        decreases files@.len() - i,
    {
        broadcast use vstd::seq_lib::group_to_multiset_ensures;

        assert(files@.take(i + 1).drop_last() =~= files@.take(i as int));
        if !locations::is_same_path(files[i].0.as_str(), current) {
            let editable: bool = files[i].1;
            place(&mut out, CopyTarget { path: files[i].0.clone(), editable });
        }
        i += 1;
    }
    assert(files@.take(i as int) =~= files@);
    out
}

/// The title of the dialog.
pub fn copy_title(context: &str, remove: bool) -> (r: String)
    ensures
        r@ == (if remove {
            "Move "@
        } else {
            "Copy "@
        }) + context@ + " to…"@,
{
    cat3(
        if remove {
            "Move "
        } else {
            "Copy "
        },
        context,
        " to…",
    )
}

// ----- Laws -----

proof fn lemma_named_is_found(entries: Seq<Json>, i: int)
    requires
        0 <= i < document::names_in(entries).len(),
    ensures
        document::name_index(entries, document::names_in(entries)[i]) < entries.len(),
    decreases entries.len(),
{
    let names = document::names_in(entries);
    let before = document::names_in(entries.drop_last());
    let name = names[i];
    document::lemma_name_index(entries, name);
    let last = entries.len() - 1;
    if i < before.len() {
        lemma_named_is_found(entries.drop_last(), i);
        assert(before[i] == name);
        let at = document::name_index(entries.drop_last(), name);
        document::lemma_name_index(entries.drop_last(), name);
        assert(entries[at] == entries.drop_last()[at]);
        assert(document::name_of(entries[at]) == Some(name));
    } else {
        assert(document::name_of(entries[last]) == Some(name));
    }
}

proof fn lemma_all_merged(d: Json, from: Json, contexts: Seq<Seq<char>>)
    requires
        forall|i: int|
            0 <= i < contexts.len() ==> document::contains(from, Kind::Context, #[trigger] contexts[i]),
    ensures
        merged(d, from, contexts).1 == contexts.len(),
    decreases contexts.len(),
{
    if contexts.len() > 0 {
        assert forall|i: int| 0 <= i < contexts.len() - 1 implies document::contains(
            from,
            Kind::Context,
            #[trigger] contexts.drop_last()[i],
        ) by {
            assert(contexts.drop_last()[i] == contexts[i]);
        }
        lemma_all_merged(d, from, contexts.drop_last());
        assert(document::contains(from, Kind::Context, contexts[contexts.len() - 1]));
    }
}

/// A merge brings every context of the other document over.
pub proof fn every_context_is_merged(d: Json, from: Json)
    ensures
        merged(d, from, document::names(from, Kind::Context)).1 == document::names(
            from,
            Kind::Context,
        ).len(),
{
    let contexts = document::names(from, Kind::Context);
    assert forall|i: int| 0 <= i < contexts.len() implies document::contains(
        from,
        Kind::Context,
        #[trigger] contexts[i],
    ) by {
        lemma_named_is_found(document::list(from, Kind::Context), i);
    }
    lemma_all_merged(d, from, contexts);
}

} // verus!
