//! No edit makes a key occur twice in an object of the document.

use crate::credentials;
use crate::document;
use crate::json::{self, Fields, Json};
use crate::laws;
use crate::model::Kind;
use crate::paths;
use crate::transfer;
use crate::users::AuthKind;
use vstd::prelude::*;

verus! {

/// All items are well-formed.
pub open spec fn all_well_formed(items: Seq<Json>) -> bool {
    forall|i: int| 0 <= i < items.len() ==> json::well_formed(#[trigger] items[i])
}

pub proof fn lemma_get_well_formed(v: Json, key: Seq<char>)
    requires
        json::well_formed(v),
    ensures
        json::get(v, key) matches Some(x) ==> json::well_formed(x),
{
    if let Json::Object(o) = v {
        assert(json::fields_well_formed(o));
        json::lemma_field_well_formed(o, key);
    }
}

pub proof fn lemma_fields_of_well_formed(v: Json)
    requires
        json::well_formed(v),
    ensures
        json::fields_well_formed(document::fields_of(v)),
{
    if let Json::Object(o) = v {
        assert(json::fields_well_formed(o));
    }
}

pub proof fn lemma_with_field_well_formed(v: Json, key: Seq<char>, to: Json)
    requires
        json::well_formed(v),
        json::well_formed(to),
    ensures
        json::well_formed(document::with_field(v, key, to)),
{
    lemma_fields_of_well_formed(v);
    json::put_keeps_well_formed(document::fields_of(v), key, to);
    assert(json::fields_well_formed(json::put(document::fields_of(v), key, to)));
}

pub proof fn lemma_list_well_formed(d: Json, kind: Kind)
    requires
        json::well_formed(d),
    ensures
        all_well_formed(document::list(d, kind)),
{
    lemma_get_well_formed(d, document::list_key(kind));
}

pub proof fn lemma_with_list_well_formed(d: Json, kind: Kind, entries: Seq<Json>)
    requires
        json::well_formed(d),
        all_well_formed(entries),
    ensures
        json::well_formed(document::with_list(d, kind, entries)),
{
    lemma_with_field_well_formed(d, document::list_key(kind), Json::Array(entries));
}

pub proof fn lemma_entry_well_formed(d: Json, kind: Kind, name: Seq<char>)
    requires
        json::well_formed(d),
    ensures
        document::entry(d, kind, name) matches Some(e) ==> json::well_formed(e),
        document::body(d, kind, name) matches Some(b) ==> json::fields_well_formed(b),
{
    lemma_list_well_formed(d, kind);
    document::lemma_name_index(document::list(d, kind), name);
    if let Some(e) = document::entry(d, kind, name) {
        lemma_get_well_formed(e, document::body_key(kind));
    }
}

proof fn lemma_with_current_well_formed(d: Json, name: Option<Seq<char>>)
    requires
        json::well_formed(d),
    ensures
        json::well_formed(document::with_current_context(d, name)),
{
    lemma_with_field_well_formed(d, "current-context"@, Json::Str(seq![]));
    if let Some(s) = name {
        lemma_with_field_well_formed(d, "current-context"@, Json::Str(s));
    }
    lemma_fields_of_well_formed(d);
    assert(json::fields_well_formed(document::fields_of(d)));
}

/// A new document is well-formed.
pub proof fn empty_document_is_well_formed()
    ensures
        json::well_formed(document::empty_document()),
{
    let o = document::empty_document()->Object_0;
    reveal_strlit("apiVersion");
    reveal_strlit("kind");
    reveal_strlit("clusters");
    reveal_strlit("contexts");
    reveal_strlit("users");
    reveal_strlit("preferences");
    assert("clusters"@[1] == 'l' && "contexts"@[1] == 'o');
    assert("apiVersion"@.len() == 10 && "kind"@.len() == 4 && "users"@.len() == 5);
    assert("clusters"@.len() == 8 && "contexts"@.len() == 8 && "preferences"@.len() == 11);
    assert(json::distinct_keys(o));
    assert(json::fields_well_formed(Seq::<(Seq<char>, Json)>::empty()));
    assert forall|i: int| 0 <= i < o.len() implies json::well_formed((#[trigger] o[i]).1) by {
        assert(o[5].1 == Json::Object(Seq::<(Seq<char>, Json)>::empty()));
        assert(json::well_formed(o[5].1));
    }
    assert(json::fields_well_formed(o));
}

/// Adding keeps a document well-formed.
pub proof fn add_keeps_well_formed(d: Json, kind: Kind, name: Seq<char>, body: Fields)
    requires
        json::well_formed(d),
        json::fields_well_formed(body),
    ensures
        json::well_formed(document::added(d, kind, name, body)),
{
    document::lemma_keys_differ();
    lemma_list_well_formed(d, kind);
    let o = document::new_entry(kind, name, body)->Object_0;
    assert(document::body_key(kind) != "name"@);
    assert(json::well_formed(Json::Object(body)));
    assert forall|i: int| 0 <= i < o.len() implies json::well_formed((#[trigger] o[i]).1) by {
        assert(i == 0 || i == 1);
    }
    assert(json::fields_well_formed(o));
    assert(json::well_formed(document::new_entry(kind, name, body)));
    lemma_with_list_well_formed(
        d,
        kind,
        document::list(d, kind).push(document::new_entry(kind, name, body)),
    );
}

/// Duplicating keeps a document well-formed.
pub proof fn duplicate_keeps_well_formed(d: Json, kind: Kind, name: Seq<char>)
    requires
        json::well_formed(d),
        document::contains(d, kind, name),
    ensures
        json::well_formed(document::duplicated(d, kind, name)),
{
    let entries = document::list(d, kind);
    let i = document::entry_index(d, kind, name);
    let new = document::unique_name(d, kind, name + "-copy"@);
    document::lemma_name_index(entries, name);
    lemma_list_well_formed(d, kind);
    lemma_with_field_well_formed(entries[i], "name"@, Json::Str(new));
    lemma_with_list_well_formed(
        d,
        kind,
        entries.insert(i + 1, document::with_name(entries[i], new)),
    );
}

/// Renaming keeps a document well-formed.
pub proof fn rename_keeps_well_formed(d: Json, kind: Kind, from: Seq<char>, to: Seq<char>)
    requires
        json::well_formed(d),
        document::rename_error(d, kind, from, to) is None,
    ensures
        json::well_formed(document::renamed(d, kind, from, to)),
{
    if from != to {
        let entries = document::list(d, kind);
        let i = document::entry_index(d, kind, from);
        document::lemma_name_index(entries, from);
        lemma_list_well_formed(d, kind);
        lemma_with_field_well_formed(entries[i], "name"@, Json::Str(to));
        let changed = entries.update(i, document::with_name(entries[i], to));
        lemma_with_list_well_formed(d, kind, changed);
        let d1 = document::with_list(d, kind, changed);
        lemma_with_current_well_formed(d1, Some(to));
        lemma_list_well_formed(d1, Kind::Context);
        let contexts = document::list(d1, Kind::Context);
        let redirected = document::all_redirected(contexts, kind, from, to);
        assert forall|j: int| 0 <= j < redirected.len() implies json::well_formed(
            #[trigger] redirected[j],
        ) by {
            lemma_get_well_formed(contexts[j], "context"@);
            if let Some(b) = json::as_fields(json::get(contexts[j], "context"@)) {
                assert(json::fields_well_formed(b));
                json::put_keeps_well_formed(b, document::body_key(kind), Json::Str(to));
                let new = json::put(b, document::body_key(kind), Json::Str(to));
                assert(json::well_formed(Json::Object(new)));
                lemma_with_field_well_formed(contexts[j], "context"@, Json::Object(new));
            }
        }
        lemma_with_list_well_formed(d1, Kind::Context, redirected);
    }
}

/// Removing keeps a document well-formed.
pub proof fn remove_keeps_well_formed(d: Json, kind: Kind, name: Seq<char>)
    requires
        json::well_formed(d),
    ensures
        json::well_formed(document::removed(d, kind, name)),
{
    if document::contains(d, kind, name) {
        let entries = document::list(d, kind);
        let i = document::entry_index(d, kind, name);
        document::lemma_name_index(entries, name);
        lemma_list_well_formed(d, kind);
        let rest = entries.remove(i);
        assert forall|j: int| 0 <= j < rest.len() implies json::well_formed(#[trigger] rest[j]) by {
            assert(rest[j] == entries[if j < i { j } else { j + 1 }]);
        }
        lemma_with_list_well_formed(d, kind, rest);
        lemma_with_current_well_formed(document::with_list(d, kind, rest), None);
    }
}

/// Replacing a body by a well-formed one keeps a document well-formed.
pub proof fn body_edit_keeps_well_formed(d: Json, kind: Kind, name: Seq<char>, to: Fields)
    requires
        json::well_formed(d),
        json::fields_well_formed(to),
        document::contains(d, kind, name),
    ensures
        json::well_formed(document::with_body(d, kind, name, to)),
{
    let entries = document::list(d, kind);
    let i = document::entry_index(d, kind, name);
    document::lemma_name_index(entries, name);
    lemma_list_well_formed(d, kind);
    assert(json::well_formed(Json::Object(to)));
    lemma_with_field_well_formed(entries[i], document::body_key(kind), Json::Object(to));
    lemma_with_list_well_formed(
        d,
        kind,
        entries.update(
            i,
            document::with_field(entries[i], document::body_key(kind), Json::Object(to)),
        ),
    );
}

/// Switching how a user authenticates keeps the body well-formed.
pub proof fn switching_keeps_well_formed(b: Fields, kind: AuthKind)
    requires
        json::fields_well_formed(b),
    ensures
        json::fields_well_formed(credentials::with_auth_kind(b, kind)),
{
    laws::lemma_kept(b, kind);
    laws::lemma_auth_literals();
    reveal_strlit("apiVersion");
    reveal_strlit("command");
    reveal_strlit("idp-issuer-url");
    reveal_strlit("client-id");
    assert("apiVersion"@.len() == 10 && "command"@.len() == 7);
    assert("idp-issuer-url"@.len() == 14 && "client-id"@.len() == 9);
    let k = credentials::kept(b, kind);
    let nothing = Json::Str(""@);
    json::put_keeps_well_formed(k, "token"@, nothing);
    json::put_keeps_well_formed(k, "tokenFile"@, nothing);
    json::put_keeps_well_formed(k, "username"@, nothing);
    json::put_keeps_well_formed(json::put(k, "username"@, nothing), "password"@, nothing);
    json::put_keeps_well_formed(k, crate::fields::CERT_FILE@, nothing);
    json::put_keeps_well_formed(
        json::put(k, crate::fields::CERT_FILE@, nothing),
        crate::fields::KEY_FILE@,
        nothing,
    );
    let exec = seq![
        ("apiVersion"@, Json::Str(crate::users::EXEC_API_VERSION@)),
        ("command"@, nothing),
    ];
    assert(json::fields_well_formed(exec));
    assert(json::well_formed(Json::Object(exec)));
    json::put_keeps_well_formed(k, "exec"@, Json::Object(exec));
    let config = seq![("idp-issuer-url"@, nothing), ("client-id"@, nothing)];
    assert(json::fields_well_formed(config));
    assert(json::well_formed(Json::Object(config)));
    let provider = seq![("name"@, Json::Str("oidc"@)), ("config"@, Json::Object(config))];
    assert(json::fields_well_formed(provider));
    assert(json::well_formed(Json::Object(provider)));
    json::put_keeps_well_formed(k, "auth-provider"@, Json::Object(provider));
}

/// Replacing what stands at a path by a text keeps a value well-formed.
pub proof fn masking_keeps_well_formed(v: Json, path: Seq<Seq<char>>, to: Seq<char>)
    requires
        json::well_formed(v),
    ensures
        json::well_formed(paths::with_deep(v, path, Json::Str(to))),
    decreases path.len(),
{
    if path.len() > 0 {
        if let Some(next) = paths::step(v, path[0]) {
            match v {
                Json::Object(o) => {
                    assert(json::fields_well_formed(o));
                    json::lemma_field_well_formed(o, path[0]);
                    masking_keeps_well_formed(next, path.drop_first(), to);
                    let new = paths::with_deep(next, path.drop_first(), Json::Str(to));
                    json::put_keeps_well_formed(o, path[0], new);
                },
                Json::Array(items) => {
                    let i = crate::text::parsed(path[0])->Some_0 as int;
                    assert(json::well_formed(items[i]));
                    masking_keeps_well_formed(next, path.drop_first(), to);
                    let new = paths::with_deep(next, path.drop_first(), Json::Str(to));
                    assert(all_well_formed(items.update(i, new)));
                },
                _ => {},
            }
        }
    }
}

// ----- Contexts that move -----

pub proof fn lemma_appended_well_formed(d: Json, kind: Kind, entry: Option<Json>)
    requires
        json::well_formed(d),
        entry matches Some(e) ==> json::well_formed(e),
    ensures
        json::well_formed(transfer::appended(d, kind, entry)),
{
    if let Some(e) = entry {
        lemma_list_well_formed(d, kind);
        lemma_with_list_well_formed(d, kind, document::list(d, kind).push(e));
    }
}

proof fn lemma_exported_user_well_formed(e: Json, with_credentials: bool)
    requires
        json::well_formed(e),
    ensures
        json::well_formed(transfer::exported_user(e, with_credentials)),
{
    lemma_get_well_formed(e, "user"@);
    if let Some(b) = document::body_of(e, Kind::User) {
        assert(json::fields_well_formed(b));
        laws::stripped_user_has_no_secrets(b);
        assert(json::well_formed(Json::Object(credentials::stripped(b))));
        lemma_with_field_well_formed(e, "user"@, Json::Object(credentials::stripped(b)));
    }
}

/// A context taken out of a well-formed document makes a well-formed one.
pub proof fn extract_keeps_well_formed(d: Json, context: Seq<char>, with_credentials: bool)
    requires
        json::well_formed(d),
    ensures
        transfer::extracted(d, context, with_credentials) matches Some(e) ==> json::well_formed(e),
{
    if let Some(entry) = document::entry(d, Kind::Context, context) {
        lemma_entry_well_formed(d, Kind::Context, context);
        let cluster = transfer::referred(d, context, Kind::Cluster);
        let user = transfer::referred(d, context, Kind::User);
        if let Some(name) = document::context_reference(d, context, Kind::Cluster) {
            lemma_entry_well_formed(d, Kind::Cluster, name);
        }
        if let Some(name) = document::context_reference(d, context, Kind::User) {
            lemma_entry_well_formed(d, Kind::User, name);
        }
        let exported = match user {
            Some(e) => Some(transfer::exported_user(e, with_credentials)),
            None => None,
        };
        if let Some(e) = user {
            lemma_exported_user_well_formed(e, with_credentials);
        }
        empty_document_is_well_formed();
        let d0 = document::empty_document();
        lemma_appended_well_formed(d0, Kind::Context, Some(entry));
        let d1 = transfer::appended(d0, Kind::Context, Some(entry));
        lemma_appended_well_formed(d1, Kind::Cluster, cluster);
        let d2 = transfer::appended(d1, Kind::Cluster, cluster);
        lemma_appended_well_formed(d2, Kind::User, exported);
        lemma_with_current_well_formed(
            transfer::appended(d2, Kind::User, exported),
            Some(context),
        );
    }
}

proof fn lemma_with_reference_well_formed(
    d: Json,
    from: Json,
    kind: Kind,
    name: Option<Seq<char>>,
)
    requires
        json::well_formed(d),
        json::well_formed(from),
    ensures
        json::well_formed(transfer::with_reference(d, from, kind, name).0),
{
    if let Some(n) = name {
        lemma_entry_well_formed(from, kind, n);
        if let Some(theirs) = document::entry(from, kind, n) {
            let new = document::unique_name(d, kind, n);
            lemma_with_field_well_formed(theirs, "name"@, Json::Str(new));
            lemma_appended_well_formed(d, kind, Some(document::with_name(theirs, new)));
        }
    }
}

/// A context brought in from a well-formed document keeps a document well-formed.
pub proof fn import_keeps_well_formed(d: Json, from: Json, context: Seq<char>)
    requires
        json::well_formed(d),
        json::well_formed(from),
    ensures
        transfer::imported(d, from, context) matches Some((e, name)) ==> json::well_formed(e),
{
    if let Some(entry) = document::entry(from, Kind::Context, context) {
        lemma_entry_well_formed(from, Kind::Context, context);
        let r1 = document::context_reference(from, context, Kind::Cluster);
        let r2 = document::context_reference(from, context, Kind::User);
        let (d1, cluster) = transfer::with_reference(d, from, Kind::Cluster, r1);
        lemma_with_reference_well_formed(d, from, Kind::Cluster, r1);
        let (d2, user) = transfer::with_reference(d1, from, Kind::User, r2);
        lemma_with_reference_well_formed(d1, from, Kind::User, r2);
        let name = document::unique_name(d2, Kind::Context, context);
        let e = document::with_name(entry, name);
        lemma_with_field_well_formed(entry, "name"@, Json::Str(name));
        lemma_get_well_formed(e, "context"@);
        if let Some(b) = json::as_fields(json::get(e, "context"@)) {
            assert(json::fields_well_formed(b));
            let b1 = transfer::put_text(b, "cluster"@, cluster);
            if let Some(s) = cluster {
                json::put_keeps_well_formed(b, "cluster"@, Json::Str(s));
            }
            let b2 = transfer::put_text(b1, "user"@, user);
            if let Some(s) = user {
                json::put_keeps_well_formed(b1, "user"@, Json::Str(s));
            }
            assert(json::well_formed(Json::Object(b2)));
            lemma_with_field_well_formed(e, "context"@, Json::Object(b2));
        }
        lemma_appended_well_formed(
            d2,
            Kind::Context,
            Some(transfer::pointed(entry, name, cluster, user)),
        );
    }
}

} // verus!
