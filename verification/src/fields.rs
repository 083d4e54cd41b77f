//! Single fields of an entry body, by path.

use crate::json::{self, Json};
use crate::paths;
use crate::text::{self, parse_number, same};
use crate::value::{self, Object, Value};
use vstd::prelude::*;

verus! {

fn walk<'a>(map: &'a Object, path: &[&str], from: usize) -> (r: Option<&'a Value>)
    requires
        from <= path@.len(),
    ensures
        match r {
            Some(v) => paths::at(map@, text::slices(path@).skip(from as int)) == Some(v@),
            None => paths::at(map@, text::slices(path@).skip(from as int)) is None,
        },
    decreases path@.len() - from,
{
    if from == path.len() {
        return None;
    }
    let ghost rest = text::slices(path@).skip(from as int);
    assert(rest.drop_first() =~= text::slices(path@).skip(from + 1));
    match map.get(path[from]) {
        None => None,
        Some(v) => if from + 1 == path.len() {
            Some(v)
        } else {
            match v.as_object() {
                Some(child) => walk(child, path, from + 1),
                None => None,
            }
        },
    }
}

/// The value at `path` in an entry body.
pub fn get<'a>(map: &'a Object, path: &[&str]) -> (r: Option<&'a Value>)
    ensures
        match r {
            Some(v) => paths::at(map@, text::slices(path@)) == Some(v@),
            None => paths::at(map@, text::slices(path@)) is None,
        },
{
    assert(text::slices(path@).skip(0) =~= text::slices(path@));
    walk(map, path, 0)
}

/// A string (or number/bool as text) at `path`; `""` when missing.
pub fn get_str(map: &Object, path: &[&str]) -> (r: String)
    ensures
        r@ == paths::text(map@, text::slices(path@)),
{
    match get(map, path) {
        Some(Value::Str(s)) => s.clone(),
        Some(Value::Number(n)) => n.clone(),
        Some(Value::Bool(b)) => if *b {
            "true".to_string()
        } else {
            "false".to_string()
        },
        _ => String::new(),
    }
}

pub fn get_bool(map: &Object, path: &[&str]) -> (r: bool)
    ensures
        r == paths::flag(map@, text::slices(path@)),
{
    match get(map, path) {
        Some(Value::Bool(b)) => *b,
        Some(Value::Str(s)) => same(s.as_str(), "true"),
        _ => false,
    }
}

/// Sets `value` at the path from `from` on, creating objects along the way.
fn set_from(map: &mut Object, path: &[&str], from: usize, value: Value)
    requires
        from < path@.len(),
    ensures
        final(map)@ == paths::with(old(map)@, text::slices(path@).skip(from as int), value@),
    decreases path@.len() - from,
{
    let ghost rest = text::slices(path@).skip(from as int);
    assert(rest.drop_first() =~= text::slices(path@).skip(from + 1));
    let len: usize = path.len();
    if from + 1 == len {
        map.insert(path[from], value);
    } else {
        let slot = map.entry_or_insert(path[from], Value::Object(Object::new()));
        if slot.as_object().is_none() {
            *slot = Value::Object(Object::new());
        }
        if let Some(child) = slot.as_object_mut() {
            set_from(child, path, from + 1, value);
        }
    }
}

/// Removes what stands at the path from `from` on, and the parents left empty by it.
fn remove_path(map: &mut Object, path: &[&str], from: usize) -> (removed: bool)
    requires
        from <= path@.len(),
    ensures
        removed == (paths::at(old(map)@, text::slices(path@).skip(from as int)) is Some),
        final(map)@ == paths::cut(old(map)@, text::slices(path@).skip(from as int)),
    decreases path@.len() - from,
{
    broadcast use json::put_same;

    if from == path.len() {
        return false;
    }
    let ghost rest = text::slices(path@).skip(from as int);
    assert(rest.drop_first() =~= text::slices(path@).skip(from + 1));
    if from + 1 == path.len() {
        return map.remove(path[from]);
    }
    let mut removed: bool = false;
    let mut emptied: bool = false;
    if let Some(slot) = map.get_mut(path[from]) {
        if let Some(child) = slot.as_object_mut() {
            removed = remove_path(child, path, from + 1);
            emptied = removed && child.is_empty();
        }
    }
    if emptied {
        proof {
            json::put_then_without(old(map)@, rest[0], Json::Object(Seq::empty()));
            let kept = paths::cut(paths::child(old(map)@, rest[0]), rest.drop_first());
            assert(kept =~= Seq::<(Seq<char>, Json)>::empty());
        }
        map.remove(path[from]);
    }
    proof {
        if !removed && json::field(old(map)@, rest[0]) is Some {
            assert(map@ == old(map)@);
        }
    }
    removed
}

/// Sets `value` at `path`, or removes the key for `None` (and parents left empty by it).
pub fn set(map: &mut Object, path: &[&str], value: Option<Value>)
    ensures
        final(map)@ == paths::set(
            old(map)@,
            text::slices(path@),
            match value {
                Some(v) => Some(v@),
                None => None,
            },
        ),
{
    assert(text::slices(path@).skip(0) =~= text::slices(path@));
    if path.len() == 0 {
        return;
    }
    match value {
        Some(value) => set_from(map, path, 0, value),
        None => {
            remove_path(map, path, 0);
        },
    }
}

/// Sets a string; an empty one removes the key.
pub fn set_str(map: &mut Object, path: &[&str], value: &str)
    ensures
        final(map)@ == paths::set(old(map)@, text::slices(path@), paths::text_value(value@)),
{
    if value.is_empty() {
        set(map, path, None);
    } else {
        set(map, path, Some(Value::text(value)));
    }
}

/// Sets a flag. `false` isn't written where the key is missing, but an existing key stays (as
/// `false`).
pub fn set_bool(map: &mut Object, path: &[&str], value: bool)
    ensures
        final(map)@ == if value || paths::at(old(map)@, text::slices(path@)) is Some {
            paths::with(old(map)@, text::slices(path@), Json::Bool(value))
        } else {
            old(map)@
        },
{
    if value || get(map, path).is_some() {
        set(map, path, Some(Value::Bool(value)));
    }
}

// ----- Clusters -----

/// Where a cluster's CA (or a user's certificate/key) comes from.
#[derive(Debug, PartialEq, Eq)]
pub enum PemSource {
    /// No CA: the system trust store. (For client certificates: none.)
    Unset,
    File(String),
    /// Base64 of the PEM (`*-data`).
    Data(String),
}

impl PemSource {
    /// Inline data wins over a file.
    pub fn read(map: &Object, file_key: &str, data_key: &str) -> (r: PemSource)
        ensures
            ({
                let data = paths::text(map@, seq![data_key@]);
                let file = paths::text(map@, seq![file_key@]);
                match r {
                    PemSource::Data(d) => data.len() > 0 && d@ == data,
                    PemSource::File(f) => data.len() == 0 && file.len() > 0 && f@ == file,
                    PemSource::Unset => data.len() == 0 && file.len() == 0,
                }
            }),
    {
        let data: String = get_str(map, &[data_key]);
        assert(text::slices([data_key]@) =~= seq![data_key@]);
        if !data.as_str().is_empty() {
            return PemSource::Data(data);
        }
        let file: String = get_str(map, &[file_key]);
        assert(text::slices([file_key]@) =~= seq![file_key@]);
        if !file.as_str().is_empty() {
            return PemSource::File(file);
        }
        PemSource::Unset
    }

    /// Writes one key and removes the other.
    pub fn write(&self, map: &mut Object, file_key: &str, data_key: &str)
        ensures
            final(map)@ == match *self {
                PemSource::Unset => json::without(
                    json::without(old(map)@, file_key@),
                    data_key@,
                ),
                PemSource::File(path) => paths::set(
                    json::without(old(map)@, data_key@),
                    seq![file_key@],
                    paths::text_value(path@),
                ),
                PemSource::Data(data) => paths::set(
                    json::without(old(map)@, file_key@),
                    seq![data_key@],
                    paths::text_value(data@),
                ),
            },
    {
        assert(text::slices([data_key]@) =~= seq![data_key@]);
        assert(text::slices([file_key]@) =~= seq![file_key@]);
        match self {
            PemSource::Unset => {
                set(map, &[file_key], None);
                set(map, &[data_key], None);
            },
            PemSource::File(path) => {
                set(map, &[data_key], None);
                set_str(map, &[file_key], path.as_str());
            },
            PemSource::Data(data) => {
                set(map, &[file_key], None);
                set_str(map, &[data_key], data.as_str());
            },
        }
    }
}

pub const CA_FILE: &'static str = "certificate-authority";

pub const CA_DATA: &'static str = "certificate-authority-data";

pub const CERT_FILE: &'static str = "client-certificate";

pub const CERT_DATA: &'static str = "client-certificate-data";

pub const KEY_FILE: &'static str = "client-key";

pub const KEY_DATA: &'static str = "client-key-data";

/// An item of a list, to change it in place.
fn item_mut(items: &mut Vec<Value>, i: usize) -> (r: &mut Value)
    requires
        i < old(items)@.len(),
    ensures
        r@ == value::items_view(old(items)@)[i as int],
        value::items_view(final(items)@) == value::items_view(old(items)@).update(
            i as int,
            final(r)@,
        ),
{
    broadcast use value::group_items_view;

    &mut items[i]
}

/// The value that a path from `from` on picks below `v`, to change it in place.
fn deep_mut<'a>(v: &'a mut Value, path: &[&str], from: usize) -> (r: Option<&'a mut Value>)
    requires
        from <= path@.len(),
    ensures
        match r {
            Some(x) => paths::deep(old(v)@, text::slices(path@).skip(from as int)) == Some(x@)
                && final(v)@ == paths::with_deep(
                old(v)@,
                text::slices(path@).skip(from as int),
                final(x)@,
            ),
            None => paths::deep(old(v)@, text::slices(path@).skip(from as int)) is None
                && final(v)@ == old(v)@,
        },
    decreases path@.len() - from,
{
    broadcast use {json::put_same, paths::update_same};

    if from == path.len() {
        return Some(v);
    }
    let ghost rest = text::slices(path@).skip(from as int);
    assert(rest.drop_first() =~= text::slices(path@).skip(from + 1));
    match v {
        Value::Object(o) => match o.get_mut(path[from]) {
            Some(next) => deep_mut(next, path, from + 1),
            None => None,
        },
        Value::Array(items) => {
            let max: usize = items.len();
            match parse_number(path[from], u64::MAX) {
                Some(i) => if i < max as u64 {
                    deep_mut(item_mut(items, i as usize), path, from + 1)
                } else {
                    None
                },
                None => None,
            }
        },
        _ => None,
    }
}

/// A value by path where numeric segments index arrays.
pub fn get_json_mut<'a>(map: &'a mut Object, path: &[&str]) -> (r: Option<&'a mut Value>)
    ensures
        match r {
            Some(x) => {
                &&& path@.len() > 0
                &&& paths::deep(Json::Object(old(map)@), text::slices(path@)) == Some(x@)
                &&& Json::Object(final(map)@) == paths::with_deep(
                    Json::Object(old(map)@),
                    text::slices(path@),
                    final(x)@,
                )
            },
            None => {
                &&& path@.len() > 0 ==> paths::deep(
                    Json::Object(old(map)@),
                    text::slices(path@),
                ) is None
                &&& final(map)@ == old(map)@
            },
        },
{
    broadcast use json::put_same;

    if path.len() == 0 {
        return None;
    }
    let ghost all = text::slices(path@);
    assert(all.drop_first() =~= all.skip(1));
    match map.get_mut(path[0]) {
        Some(next) => deep_mut(next, path, 1),
        None => None,
    }
}

} // verus!
