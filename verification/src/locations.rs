//! Paths in a kubeconfig: relative ones are relative to its folder, so a document that moves
//! gets absolute ones.

use crate::document;
use crate::json::{self, Fields, Json};
use crate::model::{Doc, Kind};
use crate::text::{self, cat, cat3};
use crate::value::{self, Object, Value};
use vstd::prelude::*;

verus! {

/// A path as it is found from a folder.
pub open spec fn resolved(dir: Seq<char>, path: Seq<char>) -> Seq<char> {
    if path.len() > 0 && path[0] == '/' || dir.len() == 0 {
        path
    } else if dir.last() == '/' {
        dir + path
    } else {
        dir + "/"@ + path
    }
}

/// A path as it is found from a folder.
pub fn resolve(dir: &str, path: &str) -> (r: String)
    ensures
        r@ == resolved(dir@, path@),
{
    let folder: Vec<char> = text::chars(dir);
    let p: Vec<char> = text::chars(path);
    if folder.len() == 0 || (p.len() > 0 && p[0] == '/') {
        path.to_string()
    } else if folder[folder.len() - 1] == '/' {
        cat(dir, path)
    } else {
        cat3(dir, "/", path)
    }
}

/// A part of a path, written so that parts stand in the order of their characters: the root,
/// `.`, `..`, and a name. A `.` that isn't the first part, and nothing between two slashes, is
/// no part.
pub open spec fn part_key(part: Seq<char>, first: bool) -> Seq<char> {
    if part.len() == 0 {
        if first {
            seq!['1', '\0']
        } else {
            seq![]
        }
    } else if part == seq!['.'] {
        if first {
            seq!['2', '\0']
        } else {
            seq![]
        }
    } else if part == seq!['.', '.'] {
        seq!['3', '\0']
    } else {
        seq!['4'] + part + seq!['\0']
    }
}

pub open spec fn parts_key(parts: Seq<Seq<char>>) -> Seq<char>
    decreases parts.len(),
{
    if parts.len() == 0 {
        seq![]
    } else {
        parts_key(parts.drop_last()) + part_key(parts.last(), parts.len() == 1)
    }
}

/// A path by its parts, written so that paths stand in the order of their characters: part by
/// part, a folder before what is in it.
pub open spec fn path_key(path: Seq<char>) -> Seq<char> {
    if path.len() == 0 {
        seq![]
    } else {
        parts_key(text::pieces(path, '/'))
    }
}

/// Whether two paths have the same parts.
pub open spec fn same_path(a: Seq<char>, b: Seq<char>) -> bool {
    path_key(a) == path_key(b)
}

/// Whether a path is among others.
pub open spec fn listed(paths: Seq<Seq<char>>, path: Seq<char>) -> bool {
    exists|i: int| 0 <= i < paths.len() && same_path(#[trigger] paths[i], path)
}

fn key_of_part(part: &str, first: bool) -> (r: String)
    ensures
        r@ == part_key(part@, first),
{
    proof {
        reveal_strlit(".");
        reveal_strlit("..");
        reveal_strlit("1\0");
        reveal_strlit("2\0");
        reveal_strlit("3\0");
        reveal_strlit("4");
        reveal_strlit("\0");
        reveal_strlit("");
        assert("."@ =~= seq!['.']);
        assert(".."@ =~= seq!['.', '.']);
        assert("1\0"@ =~= seq!['1', '\0']);
        assert("2\0"@ =~= seq!['2', '\0']);
        assert("3\0"@ =~= seq!['3', '\0']);
        assert("4"@ =~= seq!['4']);
        assert("\0"@ =~= seq!['\0']);
        assert(""@ =~= Seq::empty());
    }
    if part.is_empty() {
        if first {
            "1\0".to_string()
        } else {
            "".to_string()
        }
    } else if text::same(part, ".") {
        if first {
            "2\0".to_string()
        } else {
            "".to_string()
        }
    } else if text::same(part, "..") {
        "3\0".to_string()
    } else {
        cat3("4", part, "\0")
    }
}

/// A path by its parts, in the order of paths.
pub(crate) fn key_of(path: &str) -> (r: String)
    ensures
        r@ == path_key(path@),
{
    let mut key: String = String::new();
    assert(key@ =~= Seq::empty());
    if path.is_empty() {
        return key;
    }
    let parts: Vec<String> = text::split(path, '/');
    let ghost all = text::texts(parts@);
    let mut i: usize = 0;
    assert(all.take(0) =~= Seq::empty());
    while i < parts.len()
        invariant
            i <= parts@.len(),
            all == text::texts(parts@),
            key@ == parts_key(all.take(i as int)),
        decreases parts@.len() - i,
    {
        assert(all.take(i + 1).drop_last() =~= all.take(i as int));
        assert(all.take(i + 1).last() == parts@[i as int]@);
        key = cat(key.as_str(), key_of_part(parts[i].as_str(), i == 0).as_str());
        i += 1;
    }
    assert(all.take(i as int) =~= all);
    key
}

/// Whether two paths have the same parts.
pub fn is_same_path(a: &str, b: &str) -> (r: bool)
    ensures
        r == same_path(a@, b@),
{
    text::same(key_of(a).as_str(), key_of(b).as_str())
}

/// Whether a path is among others.
pub fn is_listed(paths: &Vec<String>, path: &str) -> (r: bool)
    ensures
        r == listed(text::texts(paths@), path@),
{
    let ghost all = text::texts(paths@);
    let mut i: usize = 0;
    while i < paths.len()
        invariant
            i <= paths@.len(),
            all == text::texts(paths@),
            forall|j: int| 0 <= j < i ==> !same_path(#[trigger] all[j], path@),
        decreases paths@.len() - i,
    {
        assert(all[i as int] == paths@[i as int]@);
        if is_same_path(paths[i].as_str(), path) {
            return true;
        }
        i += 1;
    }
    false
}

/// The fields with the path under a key made absolute; an empty one stays.
pub open spec fn moved_key(o: Fields, dir: Seq<char>, key: Seq<char>) -> Fields {
    match json::field(o, key) {
        Some(Json::Str(path)) if path.len() > 0 => json::put(
            o,
            key,
            Json::Str(resolved(dir, path)),
        ),
        _ => o,
    }
}

/// A body with its paths made absolute.
pub open spec fn moved_body(o: Fields, kind: Kind, dir: Seq<char>) -> Fields {
    match kind {
        Kind::Context => o,
        Kind::Cluster => moved_key(o, dir, "certificate-authority"@),
        Kind::User => moved_key(
            moved_key(moved_key(o, dir, "client-certificate"@), dir, "client-key"@),
            dir,
            "tokenFile"@,
        ),
    }
}

/// An entry with its paths made absolute.
pub open spec fn moved_entry(entry: Json, kind: Kind, dir: Seq<char>) -> Json {
    match document::body_of(entry, kind) {
        Some(body) => document::with_field(
            entry,
            document::body_key(kind),
            Json::Object(moved_body(body, kind, dir)),
        ),
        None => entry,
    }
}

/// A document with the paths of a list made absolute.
pub open spec fn moved_list(d: Json, kind: Kind, dir: Seq<char>) -> Json {
    if document::list(d, kind).len() == 0 {
        d
    } else {
        document::with_list(
            d,
            kind,
            Seq::new(
                document::list(d, kind).len(),
                |i: int| moved_entry(document::list(d, kind)[i], kind, dir),
            ),
        )
    }
}

/// A document with absolute paths: those of CA, certificate, key and token files.
pub open spec fn moved(d: Json, dir: Seq<char>) -> Json {
    moved_list(moved_list(d, Kind::Cluster, dir), Kind::User, dir)
}

fn move_key(body: &mut Object, dir: &str, key: &str)
    ensures
        final(body)@ == moved_key(old(body)@, dir@, key@),
{
    let path: Option<String> = match body.get(key) {
        Some(v) => match v.as_str() {
            Some(s) => if s.is_empty() {
                None
            } else {
                Some(s.to_string())
            },
            None => None,
        },
        None => None,
    };
    if let Some(path) = path {
        body.insert(key, Value::Str(resolve(dir, path.as_str())));
    }
}

fn move_body(body: &mut Object, kind: Kind, dir: &str)
    ensures
        final(body)@ == moved_body(old(body)@, kind, dir@),
{
    match kind {
        Kind::Context => {},
        Kind::Cluster => move_key(body, dir, "certificate-authority"),
        Kind::User => {
            move_key(body, dir, "client-certificate");
            move_key(body, dir, "client-key");
            move_key(body, dir, "tokenFile");
        },
    }
}

fn move_entry(entry: &mut Value, kind: Kind, dir: &str)
    ensures
        final(entry)@ == moved_entry(old(entry)@, kind, dir@),
{
    broadcast use json::put_same;

    if let Some(slot) = entry.get_mut(kind.body_key()) {
        if let Some(body) = slot.as_object_mut() {
            move_body(body, kind, dir);
        }
    }
}

fn move_entries(entries: &mut Vec<Value>, kind: Kind, dir: &str)
    ensures
        value::items_view(final(entries)@) == Seq::new(
            value::items_view(old(entries)@).len(),
            |i: int| moved_entry(value::items_view(old(entries)@)[i], kind, dir@),
        ),
{
    let ghost all = value::items_view(entries@);
    let mut i: usize = 0;
    while i < entries.len()
        invariant
            i <= entries@.len() == all.len(),
            forall|j: int|
                0 <= j < i ==> (#[trigger] value::items_view(entries@)[j]) == moved_entry(
                    all[j],
                    kind,
                    dir@,
                ),
            forall|j: int|
                i <= j < all.len() ==> (#[trigger] value::items_view(entries@)[j]) == all[j],
        decreases entries@.len() - i,
    {
        broadcast use value::group_items_view;

        assert(value::items_view(entries@)[i as int] == all[i as int]);
        move_entry(&mut entries[i], kind, dir);
        i += 1;
    }
    assert(value::items_view(entries@) =~= Seq::new(
        all.len(),
        |i: int| moved_entry(all[i], kind, dir@),
    ));
}

impl Doc {
    fn move_list(&mut self, kind: Kind, dir: &str)
        ensures
            final(self)@ == moved_list(old(self)@, kind, dir@),
    {
        let some: bool = match self.list(kind) {
            Some(entries) => entries.len() > 0,
            None => false,
        };
        if some {
            move_entries(self.list_mut(kind), kind, dir);
        }
    }

    /// Makes the paths of CA, certificate, key and token files absolute.
    pub fn absolutize_paths(&mut self, dir: &str)
        ensures
            final(self)@ == moved(old(self)@, dir@),
    {
        self.move_list(Kind::Cluster, dir);
        self.move_list(Kind::User, dir);
    }

    /// A copy with absolute paths, of a document whose file is in `dir`.
    pub fn with_absolute_paths(&self, dir: &str) -> (r: Doc)
        ensures
            r@ == moved(self@, dir@),
    {
        let mut doc: Doc = self.clone();
        doc.absolutize_paths(dir);
        doc
    }
}

} // verus!
