//! What it means to take a context out of a document, to bring one in, and to mask a document.

use crate::credentials;
use crate::document;
use crate::json::{self, Fields, Json};
use crate::model::Kind;
use vstd::prelude::*;

verus! {

/// The document with an entry more at the end of a list, if there is one.
pub open spec fn appended(d: Json, kind: Kind, entry: Option<Json>) -> Json {
    match entry {
        Some(e) => document::with_list(d, kind, document::list(d, kind).push(e)),
        None => d,
    }
}

/// The entry that a context refers to.
pub open spec fn referred(d: Json, context: Seq<char>, kind: Kind) -> Option<Json> {
    match document::context_reference(d, context, kind) {
        Some(name) => document::entry(d, kind, name),
        None => None,
    }
}

/// A user entry as it leaves the document.
pub open spec fn exported_user(e: Json, with_credentials: bool) -> Json {
    match document::body_of(e, Kind::User) {
        Some(b) if !with_credentials => document::with_field(
            e,
            "user"@,
            Json::Object(credentials::stripped(b)),
        ),
        _ => e,
    }
}

/// A standalone document with one context, its cluster and its user.
pub open spec fn extracted(d: Json, context: Seq<char>, with_credentials: bool) -> Option<Json> {
    match document::entry(d, Kind::Context, context) {
        None => None,
        Some(entry) => {
            let user = match referred(d, context, Kind::User) {
                Some(e) => Some(exported_user(e, with_credentials)),
                None => None,
            };
            let d1 = appended(document::empty_document(), Kind::Context, Some(entry));
            let d2 = appended(d1, Kind::Cluster, referred(d, context, Kind::Cluster));
            let d3 = appended(d2, Kind::User, user);
            Some(document::with_current_context(d3, Some(context)))
        },
    }
}

/// A document with a cluster (or user) brought in, and the name it has there. The same entry
/// under the same name is shared.
pub open spec fn with_reference(d: Json, from: Json, kind: Kind, name: Option<Seq<char>>) -> (
    Json,
    Option<Seq<char>>,
) {
    match name {
        None => (d, None),
        Some(name) => match document::entry(from, kind, name) {
            None => (d, None),
            Some(theirs) => if document::entry(d, kind, name) matches Some(mine) && json::equal(
                mine,
                theirs,
            ) {
                (d, Some(name))
            } else {
                let new = document::unique_name(d, kind, name);
                (appended(d, kind, Some(document::with_name(theirs, new))), Some(new))
            },
        },
    }
}

pub open spec fn put_text(o: Fields, key: Seq<char>, s: Option<Seq<char>>) -> Fields {
    match s {
        Some(s) => json::put(o, key, Json::Str(s)),
        None => o,
    }
}

/// A context entry under a new name that refers to this cluster and user.
pub open spec fn pointed(
    entry: Json,
    name: Seq<char>,
    cluster: Option<Seq<char>>,
    user: Option<Seq<char>>,
) -> Json {
    let e = document::with_name(entry, name);
    match json::as_fields(json::get(e, "context"@)) {
        Some(b) => document::with_field(
            e,
            "context"@,
            Json::Object(put_text(put_text(b, "cluster"@, cluster), "user"@, user)),
        ),
        None => e,
    }
}

/// The document with a context of another one and what it refers to, and the context's name.
pub open spec fn imported(d: Json, from: Json, context: Seq<char>) -> Option<(Json, Seq<char>)> {
    match document::entry(from, Kind::Context, context) {
        None => None,
        Some(entry) => {
            let (d1, cluster) = with_reference(
                d,
                from,
                Kind::Cluster,
                document::context_reference(from, context, Kind::Cluster),
            );
            let (d2, user) = with_reference(
                d1,
                from,
                Kind::User,
                document::context_reference(from, context, Kind::User),
            );
            let name = document::unique_name(d2, Kind::Context, context);
            Some((appended(d2, Kind::Context, Some(pointed(entry, name, cluster, user))), name))
        },
    }
}

/// The document without an entry that no context uses.
pub open spec fn without_unused(d: Json, kind: Kind, name: Option<Seq<char>>) -> Json {
    match name {
        Some(name) if document::used_by(d, kind, name).len() == 0 => document::removed(
            d,
            kind,
            name,
        ),
        _ => d,
    }
}

/// The document without a context, and without the cluster and user that no other context uses.
pub open spec fn without_context(d: Json, context: Seq<char>) -> Json {
    let d1 = document::removed(d, Kind::Context, context);
    let d2 = without_unused(
        d1,
        Kind::Cluster,
        document::context_reference(d, context, Kind::Cluster),
    );
    without_unused(d2, Kind::User, document::context_reference(d, context, Kind::User))
}

/// Whether a user entry holds a secret inline.
pub open spec fn holds_secret(user: Json) -> bool {
    match document::body_of(user, Kind::User) {
        Some(b) => credentials::secret_paths(b).len() > 0,
        None => false,
    }
}

/// Whether any user of a document holds a secret inline.
pub open spec fn holds_secrets(d: Json) -> bool {
    exists|i: int|
        0 <= i < document::list(d, Kind::User).len() && holds_secret(
            #[trigger] document::list(d, Kind::User)[i],
        )
}

/// The document as the Kubernetes client wants it: empty lists where it has `null`.
pub open spec fn with_lists(d: Json) -> Json {
    without_null(
        without_null(without_null(d, Kind::Context), Kind::Cluster),
        Kind::User,
    )
}

pub open spec fn without_null(d: Json, kind: Kind) -> Json {
    if json::get(d, document::list_key(kind)) == Some(Json::Null) {
        document::with_list(d, kind, seq![])
    } else {
        d
    }
}

// ----- Masking a document -----

/// A user entry with the secrets of its body masked; one without a body stays.
pub open spec fn masked_user(entry: Json, placeholder: Seq<char>) -> Json {
    match document::body_of(entry, Kind::User) {
        Some(b) => document::with_field(
            entry,
            document::body_key(Kind::User),
            credentials::masked(Json::Object(b), credentials::secret_paths(b), placeholder),
        ),
        None => entry,
    }
}

/// The document with the secrets of every user masked.
pub open spec fn with_masked_users(d: Json, placeholder: Seq<char>) -> Json {
    let users = document::list(d, Kind::User);
    if users.len() == 0 {
        d
    } else {
        document::with_list(
            d,
            Kind::User,
            Seq::new(users.len(), |i: int| masked_user(users[i], placeholder)),
        )
    }
}

/// A secret that masking takes out: the user's name (empty if it has none), the path in the
/// user's body, the text, and the place of the user in the list.
pub type Taken = (Seq<char>, Seq<Seq<char>>, Seq<char>, int);

/// The name of a user entry; empty if it has none.
pub open spec fn name_or_nothing(entry: Json) -> Seq<char> {
    match document::name_of(entry) {
        Some(name) => name,
        None => seq![],
    }
}

/// What masking takes out of the user entry at a place: every text at the path of a secret.
pub open spec fn taken_from_user(entry: Json, place: int) -> Seq<Taken> {
    match document::body_of(entry, Kind::User) {
        Some(b) => {
            let taken = credentials::texts_at(Json::Object(b), credentials::secret_paths(b));
            Seq::new(
                taken.len(),
                |i: int| (name_or_nothing(entry), taken[i].0, taken[i].1, place),
            )
        },
        None => seq![],
    }
}

/// What masking takes out of user entries, in their order.
pub open spec fn taken_from_users(users: Seq<Json>) -> Seq<Taken>
    decreases users.len(),
{
    if users.len() == 0 {
        seq![]
    } else {
        taken_from_users(users.drop_last()) + taken_from_user(users.last(), users.len() - 1)
    }
}

} // verus!
