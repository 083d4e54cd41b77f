//! Edits of one field of an entry.

use crate::document;
use crate::fields;
use crate::json::{Fields, Json};
use crate::model::{Doc, Kind};
use crate::paths;
use crate::text;
use vstd::prelude::*;

verus! {

/// The body of an entry; nothing where it has none.
pub open spec fn body_or_nothing(d: Json, kind: Kind, name: Seq<char>) -> Fields {
    match document::body(d, kind, name) {
        Some(b) => b,
        None => seq![],
    }
}

/// A document with another body of an entry, if there is such an entry.
pub open spec fn with_new_body(d: Json, kind: Kind, name: Seq<char>, body: Fields) -> Json {
    if document::contains(d, kind, name) {
        document::with_body(d, kind, name, body)
    } else {
        d
    }
}

/// A document with a text in a field of an entry; an empty text takes the field out.
pub open spec fn with_text(
    d: Json,
    kind: Kind,
    name: Seq<char>,
    path: Seq<Seq<char>>,
    value: Seq<char>,
) -> Json {
    with_new_body(
        d,
        kind,
        name,
        paths::set(body_or_nothing(d, kind, name), path, paths::text_value(value)),
    )
}

impl Doc {
    /// Sets a text in a field of an entry; an empty one removes the field. Nothing happens
    /// without the entry.
    pub fn set_text(&mut self, kind: Kind, name: &str, path: &[&str], value: &str)
        ensures
            final(self)@ == with_text(old(self)@, kind, name@, text::slices(path@), value@),
    {
        if let Some(body) = self.body_mut(kind, name) {
            fields::set_str(body, path, value);
        }
    }
}

} // verus!
