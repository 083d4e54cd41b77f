//! What holds of edits as a whole.

use crate::credentials;
use crate::document;
use crate::json::{self, Fields, Json};
use crate::model::Kind;
use crate::paths;
use crate::users::AuthKind;
use vstd::prelude::*;

verus! {

// ----- What an edit leaves alone -----

/// Keys of a document that edits of entries write.
pub open spec fn edited_key(key: Seq<char>) -> bool {
    ||| key == "contexts"@
    ||| key == "clusters"@
    ||| key == "users"@
    ||| key == "current-context"@
}

/// Every other field of the two documents is the same.
pub open spec fn same_elsewhere(a: Json, b: Json) -> bool {
    forall|key: Seq<char>|
        !edited_key(key) ==> #[trigger] json::field(document::fields_of(b), key) == json::field(
            document::fields_of(a),
            key,
        )
}

pub proof fn lemma_with_list_elsewhere(d: Json, kind: Kind, entries: Seq<Json>)
    ensures
        same_elsewhere(d, document::with_list(d, kind, entries)),
{
    json::put_then_field(document::fields_of(d), document::list_key(kind), Json::Array(entries));
}

proof fn lemma_with_current_elsewhere(d: Json, name: Option<Seq<char>>)
    ensures
        same_elsewhere(d, document::with_current_context(d, name)),
{
    let key = "current-context"@;
    json::put_then_field(document::fields_of(d), key, Json::Str(seq![]));
    if let Some(name) = name {
        json::put_then_field(document::fields_of(d), key, Json::Str(name));
    }
}

/// Adding an entry leaves the fields that it doesn't know alone.
pub proof fn add_keeps_unknown_fields(d: Json, kind: Kind, name: Seq<char>, body: Fields)
    ensures
        same_elsewhere(d, document::added(d, kind, name, body)),
{
    lemma_with_list_elsewhere(
        d,
        kind,
        document::list(d, kind).push(document::new_entry(kind, name, body)),
    );
}

/// Duplicating an entry leaves the fields that it doesn't know alone.
pub proof fn duplicate_keeps_unknown_fields(d: Json, kind: Kind, name: Seq<char>)
    ensures
        same_elsewhere(d, document::duplicated(d, kind, name)),
{
    let i = document::entry_index(d, kind, name);
    let copy = document::with_name(
        document::list(d, kind)[i],
        document::unique_name(d, kind, name + "-copy"@),
    );
    lemma_with_list_elsewhere(d, kind, document::list(d, kind).insert(i + 1, copy));
}

/// Renaming an entry leaves the fields that it doesn't know alone.
pub proof fn rename_keeps_unknown_fields(d: Json, kind: Kind, from: Seq<char>, to: Seq<char>)
    ensures
        same_elsewhere(d, document::renamed(d, kind, from, to)),
{
    let entries = document::list(d, kind);
    let i = document::entry_index(d, kind, from);
    let renamed = entries.update(i, document::with_name(entries[i], to));
    lemma_with_list_elsewhere(d, kind, renamed);
    let d1 = document::with_list(d, kind, renamed);
    lemma_with_list_elsewhere(
        d1,
        Kind::Context,
        document::all_redirected(document::list(d1, Kind::Context), kind, from, to),
    );
    lemma_with_current_elsewhere(d1, Some(to));
}

/// Removing an entry leaves the fields that it doesn't know alone.
pub proof fn remove_keeps_unknown_fields(d: Json, kind: Kind, name: Seq<char>)
    ensures
        same_elsewhere(d, document::removed(d, kind, name)),
{
    let rest = document::list(d, kind).remove(document::entry_index(d, kind, name));
    lemma_with_list_elsewhere(d, kind, rest);
    lemma_with_current_elsewhere(document::with_list(d, kind, rest), None);
}

/// Editing the body of an entry leaves everything else alone: the fields that no edit knows,
/// the other lists, the current context, the other entries of the list, and the other fields of
/// the entry itself.
pub proof fn body_edit_keeps_the_rest(d: Json, kind: Kind, name: Seq<char>, to: Fields)
    requires
        document::contains(d, kind, name),
    ensures
        ({
            let e = document::with_body(d, kind, name, to);
            let i = document::entry_index(d, kind, name);
            &&& same_elsewhere(d, e)
            &&& document::body(e, kind, name) == Some(to)
            &&& document::names(e, kind) == document::names(d, kind)
            &&& forall|k: Kind| k != kind ==> #[trigger] document::list(e, k) == document::list(d, k)
            &&& document::current_context(e) == document::current_context(d)
            &&& document::list(e, kind).len() == document::list(d, kind).len()
            &&& forall|j: int|
                0 <= j < document::list(d, kind).len() && j != i ==> (#[trigger] document::list(
                    e,
                    kind,
                )[j]) == document::list(d, kind)[j]
            &&& forall|key: Seq<char>|
                key != document::body_key(kind) ==> #[trigger] json::get(
                    document::list(e, kind)[i],
                    key,
                ) == json::get(document::list(d, kind)[i], key)
        }),
{
    let entries = document::list(d, kind);
    let i = document::entry_index(d, kind, name);
    document::lemma_name_index(entries, name);
    document::lemma_keys_differ();
    let new = document::with_field(entries[i], document::body_key(kind), Json::Object(to));
    json::put_then_field(
        document::fields_of(entries[i]),
        document::body_key(kind),
        Json::Object(to),
    );
    let changed = entries.update(i, new);
    lemma_with_list_elsewhere(d, kind, changed);
    document::with_list_reads(d, kind, changed);
    assert(document::body_key(kind) != "name"@);
    assert(json::field(document::fields_of(new), "name"@) == json::field(
        document::fields_of(entries[i]),
        "name"@,
    ));
    assert(document::name_of(new) == document::name_of(entries[i]));
    lemma_same_names(entries, changed);
    assert forall|j: int| 0 <= j < i implies document::name_of(#[trigger] changed[j]) != Some(name) by {
        assert(changed[j] == entries[j]);
    }
    document::lemma_name_index_is(changed, name, i);
    assert forall|key: Seq<char>| key != document::body_key(kind) implies #[trigger] json::get(
        new,
        key,
    ) == json::get(entries[i], key) by {
        assert(json::field(document::fields_of(new), key) == json::field(
            document::fields_of(entries[i]),
            key,
        ));
    }
}

/// Lists whose entries have the same names in the same places name the same entries.
proof fn lemma_same_names(a: Seq<Json>, b: Seq<Json>)
    requires
        a.len() == b.len(),
        forall|i: int|
            0 <= i < a.len() ==> document::name_of(#[trigger] a[i]) == document::name_of(b[i]),
    ensures
        document::names_in(a) == document::names_in(b),
    decreases a.len(),
{
    if a.len() > 0 {
        assert(document::name_of(a[a.len() - 1]) == document::name_of(b[b.len() - 1]));
        assert forall|i: int| 0 <= i < a.drop_last().len() implies document::name_of(
            #[trigger] a.drop_last()[i],
        ) == document::name_of(b.drop_last()[i]) by {
            assert(document::name_of(a[i]) == document::name_of(b[i]));
        }
        lemma_same_names(a.drop_last(), b.drop_last());
    }
}

// ----- Adding -----

/// An added entry is found under its name with its body, at the end; the entries before it, the
/// other lists and the current context stay.
pub proof fn added_entry_is_found(d: Json, kind: Kind, name: Seq<char>, body: Fields)
    requires
        document::add_error(d, kind, name) is None,
    ensures
        ({
            let e = document::added(d, kind, name, body);
            &&& document::body(e, kind, name) == Some(body)
            &&& document::names(e, kind) == document::names(d, kind).push(name)
            &&& document::list(e, kind).drop_last() == document::list(d, kind)
            &&& forall|k: Kind| k != kind ==> #[trigger] document::list(e, k) == document::list(d, k)
            &&& document::current_context(e) == document::current_context(d)
        }),
{
    let entries = document::list(d, kind);
    let new = document::new_entry(kind, name, body);
    let all = entries.push(new);
    document::with_list_reads(d, kind, all);
    document::lemma_keys_differ();
    document::lemma_name_index(entries, name);
    assert(all.drop_last() =~= entries);
    let o = new->Object_0;
    json::lemma_key_index_is(o, "name"@, 0);
    assert(document::body_key(kind) != "name"@);
    json::lemma_key_index_is(o, document::body_key(kind), 1);
    assert forall|j: int| 0 <= j < entries.len() implies document::name_of(#[trigger] all[j])
        != Some(name) by {
        assert(all[j] == entries[j]);
    }
    document::lemma_name_index_is(all, name, entries.len() as int);
}

// ----- Renaming -----

/// A redirected context refers to the new name where it referred to the old one, and never to
/// the old one; its own name stays.
proof fn lemma_redirected(context: Json, kind: Kind, from: Seq<char>, to: Seq<char>)
    requires
        kind != Kind::Context,
        from != to,
    ensures
        ({
            let r = document::redirected(context, kind, from, to);
            &&& !document::refers_to(r, kind, from)
            &&& document::refers_to(r, kind, to) == (document::refers_to(context, kind, from)
                || document::refers_to(context, kind, to))
            &&& document::name_of(r) == document::name_of(context)
            &&& !document::refers_to(context, kind, from) ==> r == context
        }),
{
    document::lemma_keys_differ();
    let key = document::body_key(kind);
    assert(document::body_key(Kind::Context) == "context"@);
    match json::as_fields(json::get(context, "context"@)) {
        Some(b) => {
            json::put_then_field(b, key, Json::Str(to));
            let new = Json::Object(json::put(b, key, Json::Str(to)));
            json::put_then_field(document::fields_of(context), "context"@, new);
            assert(document::body_key(Kind::Context) != "name"@);
            assert(json::field(
                json::put(document::fields_of(context), "context"@, new),
                "name"@,
            ) == json::field(document::fields_of(context), "name"@));
        },
        None => {},
    }
}

proof fn lemma_redirected_users(
    contexts: Seq<Json>,
    kind: Kind,
    from: Seq<char>,
    to: Seq<char>,
)
    requires
        kind != Kind::Context,
        from != to,
    ensures
        document::users_in(document::all_redirected(contexts, kind, from, to), kind, from)
            == Seq::<Seq<char>>::empty(),
        (forall|j: int|
            0 <= j < contexts.len() ==> !document::refers_to(#[trigger] contexts[j], kind, to))
            ==> document::users_in(
            document::all_redirected(contexts, kind, from, to),
            kind,
            to,
        ) == document::users_in(contexts, kind, from),
    decreases contexts.len(),
{
    let new = document::all_redirected(contexts, kind, from, to);
    if contexts.len() > 0 {
        let before = contexts.drop_last();
        lemma_redirected_users(before, kind, from, to);
        lemma_redirected(contexts.last(), kind, from, to);
        assert(new.drop_last() =~= document::all_redirected(before, kind, from, to));
        assert(new.last() == document::redirected(contexts.last(), kind, from, to));
        if forall|j: int|
            0 <= j < contexts.len() ==> !document::refers_to(#[trigger] contexts[j], kind, to) {
            assert forall|j: int| 0 <= j < before.len() implies !document::refers_to(
                #[trigger] before[j],
                kind,
                to,
            ) by {
                assert(before[j] == contexts[j]);
            }
            assert(!document::refers_to(contexts[contexts.len() - 1], kind, to));
        }
    }
}

/// A renamed entry stands where it stood, with nothing changed but its name; it is found under
/// the new name.
pub proof fn renamed_entry_is_found(d: Json, kind: Kind, from: Seq<char>, to: Seq<char>)
    requires
        from != to,
        document::rename_error(d, kind, from, to) is None,
    ensures
        ({
            let e = document::renamed(d, kind, from, to);
            let i = document::entry_index(d, kind, from);
            let old_entry = document::list(d, kind)[i];
            &&& document::entry(e, kind, to) == Some(document::with_name(old_entry, to))
            &&& document::body(e, kind, to) == document::body(d, kind, from)
            &&& kind != Kind::Context ==> document::list(e, kind) == document::list(d, kind).update(
                i,
                document::with_name(old_entry, to),
            )
        }),
{
    let entries = document::list(d, kind);
    let i = document::entry_index(d, kind, from);
    document::lemma_name_index(entries, from);
    document::lemma_name_index(entries, to);
    document::lemma_keys_differ();
    let new = document::with_name(entries[i], to);
    let changed = entries.update(i, new);
    let d1 = document::with_list(d, kind, changed);
    document::with_list_reads(d, kind, changed);
    json::put_then_field(document::fields_of(entries[i]), "name"@, Json::Str(to));
    assert(document::name_of(new) == Some(to));
    let key = document::body_key(kind);
    assert(key != "name"@);
    assert(json::field(document::fields_of(new), key) == json::field(
        document::fields_of(entries[i]),
        key,
    ));
    assert forall|j: int| 0 <= j < i implies document::name_of(#[trigger] changed[j]) != Some(to) by {
        assert(changed[j] == entries[j]);
        assert(document::name_of(entries[j]) != Some(to));
    }
    document::lemma_name_index_is(changed, to, i);
    if kind != Kind::Context {
        document::with_list_reads(
            d1,
            Kind::Context,
            document::all_redirected(document::list(d1, Kind::Context), kind, from, to),
        );
    } else {
        lemma_with_current_keeps_lists(d1, Some(to));
    }
}

/// Setting the current context leaves the lists alone.
pub proof fn lemma_with_current_keeps_lists(d: Json, name: Option<Seq<char>>)
    ensures
        forall|k: Kind|
            #[trigger] document::list(document::with_current_context(d, name), k)
                == document::list(d, k),
        name matches Some(s) ==> document::current_context(document::with_current_context(d, name))
            == if s.len() > 0 {
            Some(s)
        } else {
            None
        },
        name is None ==> document::current_context(document::with_current_context(d, name)) is None,
{
    document::lemma_keys_differ();
    let c = "current-context"@;
    let v = match name {
        Some(s) => Json::Str(s),
        None => Json::Str(seq![]),
    };
    json::put_then_field(document::fields_of(d), c, v);
    let e = document::with_current_context(d, name);
    assert forall|k: Kind| #[trigger] document::list(e, k) == document::list(d, k) by {
        let key = document::list_key(k);
        assert(key != c);
        assert(json::field(json::put(document::fields_of(d), c, v), key) == json::field(
            document::fields_of(d),
            key,
        ));
    }
}

/// After a cluster or user was renamed, every context that referred to it refers to the new
/// name, no context refers to the old one, and the other contexts are as they were. So whoever
/// used the old name uses the new one.
pub proof fn rename_updates_references(d: Json, kind: Kind, from: Seq<char>, to: Seq<char>)
    requires
        kind != Kind::Context,
        from != to,
        document::rename_error(d, kind, from, to) is None,
    ensures
        ({
            let e = document::renamed(d, kind, from, to);
            let before = document::list(d, Kind::Context);
            let after = document::list(e, Kind::Context);
            &&& after.len() == before.len()
            &&& forall|j: int|
                0 <= j < before.len() ==> {
                    &&& !document::refers_to(#[trigger] after[j], kind, from)
                    &&& document::refers_to(after[j], kind, to) == (document::refers_to(
                        before[j],
                        kind,
                        from,
                    ) || document::refers_to(before[j], kind, to))
                    &&& document::name_of(after[j]) == document::name_of(before[j])
                    &&& !document::refers_to(before[j], kind, from) ==> after[j] == before[j]
                }
            &&& document::used_by(e, kind, from) == Seq::<Seq<char>>::empty()
            &&& (forall|j: int|
                0 <= j < before.len() ==> !document::refers_to(#[trigger] before[j], kind, to))
                ==> document::used_by(e, kind, to) == document::used_by(d, kind, from)
            &&& document::current_context(e) == document::current_context(d)
        }),
{
    let entries = document::list(d, kind);
    let i = document::entry_index(d, kind, from);
    let changed = entries.update(i, document::with_name(entries[i], to));
    let d1 = document::with_list(d, kind, changed);
    document::with_list_reads(d, kind, changed);
    let before = document::list(d, Kind::Context);
    assert(document::list(d1, Kind::Context) == before);
    let after = document::all_redirected(before, kind, from, to);
    document::with_list_reads(d1, Kind::Context, after);
    assert forall|j: int| 0 <= j < before.len() implies {
        &&& !document::refers_to(#[trigger] after[j], kind, from)
        &&& document::refers_to(after[j], kind, to) == (document::refers_to(before[j], kind, from)
            || document::refers_to(before[j], kind, to))
        &&& document::name_of(after[j]) == document::name_of(before[j])
        &&& !document::refers_to(before[j], kind, from) ==> after[j] == before[j]
    } by {
        lemma_redirected(before[j], kind, from, to);
    }
    lemma_redirected_users(before, kind, from, to);
}

/// A renamed context that was current is current under its new name; else the current context
/// stays.
pub proof fn rename_updates_current_context(d: Json, from: Seq<char>, to: Seq<char>)
    requires
        from != to,
        document::rename_error(d, Kind::Context, from, to) is None,
    ensures
        document::current_context(document::renamed(d, Kind::Context, from, to))
            == if document::current_context(d) == Some(from) {
            Some(to)
        } else {
            document::current_context(d)
        },
{
    let entries = document::list(d, Kind::Context);
    let i = document::entry_index(d, Kind::Context, from);
    let changed = entries.update(i, document::with_name(entries[i], to));
    document::with_list_reads(d, Kind::Context, changed);
    lemma_with_current_keeps_lists(document::with_list(d, Kind::Context, changed), Some(to));
}

// ----- Removing -----

/// A removed entry leaves the others of its list in order and the other lists alone; if no other
/// had its name, the name isn't found any more. A removed current context leaves none current.
pub proof fn removed_entry_is_gone(d: Json, kind: Kind, name: Seq<char>)
    requires
        document::contains(d, kind, name),
    ensures
        ({
            let e = document::removed(d, kind, name);
            let i = document::entry_index(d, kind, name);
            &&& document::list(e, kind) == document::list(d, kind).remove(i)
            &&& forall|k: Kind| k != kind ==> #[trigger] document::list(e, k) == document::list(d, k)
            &&& (forall|j: int|
                0 <= j < document::list(d, kind).len() && j != i ==> document::name_of(
                    #[trigger] document::list(d, kind)[j],
                ) != Some(name)) ==> !document::contains(e, kind, name)
            &&& document::current_context(e) == if kind == Kind::Context
                && document::current_context(d) == Some(name) {
                None
            } else {
                document::current_context(d)
            }
        }),
{
    let entries = document::list(d, kind);
    let i = document::entry_index(d, kind, name);
    document::lemma_name_index(entries, name);
    let rest = entries.remove(i);
    document::with_list_reads(d, kind, rest);
    lemma_with_current_keeps_lists(document::with_list(d, kind, rest), None);
    if forall|j: int|
        0 <= j < entries.len() && j != i ==> document::name_of(#[trigger] entries[j]) != Some(name) {
        assert forall|j: int| 0 <= j < rest.len() implies document::name_of(#[trigger] rest[j])
            != Some(name) by {
            assert(rest[j] == entries[if j < i { j } else { j + 1 }]);
        }
        document::lemma_name_index_is(rest, name, rest.len() as int);
    }
}

// ----- Duplicating -----

/// A duplicate stands right behind its original under a free name, with the same body; the
/// other entries keep their order.
pub proof fn duplicate_stands_behind_its_original(d: Json, kind: Kind, name: Seq<char>)
    requires
        document::contains(d, kind, name),
    ensures
        ({
            let e = document::duplicated(d, kind, name);
            let i = document::entry_index(d, kind, name);
            let new = document::unique_name(d, kind, name + "-copy"@);
            &&& !document::contains(d, kind, new)
            &&& document::list(e, kind).remove(i + 1) == document::list(d, kind)
            &&& document::body(e, kind, new) == document::body(d, kind, name)
            &&& document::body(e, kind, name) == document::body(d, kind, name)
        }),
{
    let entries = document::list(d, kind);
    let i = document::entry_index(d, kind, name);
    let new = document::unique_name(d, kind, name + "-copy"@);
    document::unique_name_is_free(d, kind, name + "-copy"@);
    document::lemma_name_index(entries, name);
    document::lemma_name_index(entries, new);
    document::lemma_keys_differ();
    let copy = document::with_name(entries[i], new);
    let all = entries.insert(i + 1, copy);
    document::with_list_reads(d, kind, all);
    json::put_then_field(document::fields_of(entries[i]), "name"@, Json::Str(new));
    let key = document::body_key(kind);
    assert(key != "name"@);
    assert(json::field(document::fields_of(copy), key) == json::field(
        document::fields_of(entries[i]),
        key,
    ));
    assert(all.remove(i + 1) =~= entries);
    assert forall|j: int| 0 <= j < i + 1 implies document::name_of(#[trigger] all[j]) != Some(new) by {
        assert(all[j] == entries[j]);
        assert(document::name_of(entries[j]) != Some(new));
    }
    document::lemma_name_index_is(all, new, i + 1);
    assert forall|j: int| 0 <= j < i implies document::name_of(#[trigger] all[j]) != Some(name) by {
        assert(all[j] == entries[j]);
    }
    document::lemma_name_index_is(all, name, i);
}

// ----- Users -----

pub proof fn lemma_auth_literals()
    ensures
        crate::fields::CERT_FILE@ == "client-certificate"@,
        crate::fields::CERT_DATA@ == "client-certificate-data"@,
        crate::fields::KEY_FILE@ == "client-key"@,
        crate::fields::KEY_DATA@ == "client-key-data"@,
        "token"@.len() == 5,
        "tokenFile"@.len() == 9,
        "client-certificate"@.len() == 18,
        "client-certificate-data"@.len() == 23,
        "client-key"@.len() == 10,
        "client-key-data"@.len() == 15,
        "exec"@.len() == 4,
        "auth-provider"@.len() == 13,
        "username"@.len() == 8,
        "username"@[0] == 'u',
        "password"@.len() == 8,
        "password"@[0] == 'p',
        "name"@.len() == 4,
        "name"@[0] == 'n',
        "config"@.len() == 6,
{
    reveal_strlit("token");
    reveal_strlit("tokenFile");
    reveal_strlit("client-certificate");
    reveal_strlit("client-certificate-data");
    reveal_strlit("client-key");
    reveal_strlit("client-key-data");
    reveal_strlit("exec");
    reveal_strlit("auth-provider");
    reveal_strlit("username");
    reveal_strlit("password");
    reveal_strlit("name");
    reveal_strlit("config");
}

/// Of the fields that are kept by a mark on their key, exactly those with a marked key are
/// there, with their values; none occurs twice if none did.
proof fn lemma_retained(o: Fields, keep: Seq<bool>, p: spec_fn(Seq<char>) -> bool)
    requires
        keep.len() >= o.len(),
        forall|i: int| 0 <= i < o.len() ==> (#[trigger] keep[i]) == p(o[i].0),
    ensures
        forall|k: Seq<char>|
            #[trigger] json::field(json::retained(o, keep), k) == if p(k) {
                json::field(o, k)
            } else {
                None
            },
        json::distinct_keys(o) ==> json::distinct_keys(json::retained(o, keep)),
        json::fields_well_formed(o) ==> json::fields_well_formed(json::retained(o, keep)),
    decreases o.len(),
{
    let r = json::retained(o, keep);
    if o.len() == 0 {
        assert forall|k: Seq<char>| #[trigger] json::field(r, k) == if p(k) {
            json::field(o, k)
        } else {
            None
        } by {
            json::lemma_key_index(r, k);
            json::lemma_key_index(o, k);
        }
    } else {
        let rest = o.drop_last();
        let last = o.last();
        assert forall|i: int| 0 <= i < rest.len() implies (#[trigger] keep[i]) == p(rest[i].0) by {
            assert(rest[i] == o[i]);
        }
        lemma_retained(rest, keep, p);
        let q = json::retained(rest, keep);
        assert(keep[o.len() - 1] == p(last.0));
        assert forall|k: Seq<char>| #[trigger] json::field(r, k) == if p(k) {
            json::field(o, k)
        } else {
            None
        } by {
            lemma_field_of_push(rest, last, k);
            lemma_field_of_push(q, last, k);
            assert(o =~= rest.push(last));
            assert(json::field(q, k) == if p(k) {
                json::field(rest, k)
            } else {
                None
            });
        }
        if json::distinct_keys(o) {
            assert forall|i: int, j: int| 0 <= i < j < rest.len() implies (#[trigger] rest[i]).0
                != (#[trigger] rest[j]).0 by {
                assert(o[i].0 != o[j].0);
            }
            if p(last.0) {
                lemma_absent_in_prefix(o);
                assert(json::field(q, last.0) == json::field(rest, last.0));
                json::lemma_key_index(q, last.0);
                assert forall|i: int, j: int| 0 <= i < j < r.len() implies (#[trigger] r[i]).0 != (
                #[trigger] r[j]).0 by {
                    if j < q.len() {
                        assert(q[i].0 != q[j].0);
                    }
                }
            }
        }
        if json::fields_well_formed(o) {
            assert forall|i: int| 0 <= i < rest.len() implies json::well_formed(
                (#[trigger] rest[i]).1,
            ) by {
                assert(json::well_formed(o[i].1));
            }
            assert(json::fields_well_formed(rest));
            assert(json::well_formed(o[o.len() - 1].1));
            assert forall|i: int| 0 <= i < r.len() implies json::well_formed(
                (#[trigger] r[i]).1,
            ) by {
                if i < q.len() {
                    assert(json::well_formed(q[i].1));
                }
            }
        }
    }
}

/// With a field more at the end, the others read as before.
proof fn lemma_field_of_push(o: Fields, f: (Seq<char>, Json), k: Seq<char>)
    ensures
        json::field(o.push(f), k) == if json::has_key(o, k) {
            json::field(o, k)
        } else if f.0 == k {
            Some(f.1)
        } else {
            None
        },
{
    let n = o.push(f);
    json::lemma_key_index(o, k);
    let at = json::key_index(o, k);
    if at < o.len() || f.0 == k {
        assert forall|j: int| 0 <= j < at implies (#[trigger] n[j]).0 != k by {
            assert(n[j] == o[j]);
        }
        json::lemma_key_index_is(n, k, at);
    } else {
        assert forall|j: int| 0 <= j < n.len() implies (#[trigger] n[j]).0 != k by {
            if j < o.len() {
                assert(n[j] == o[j]);
            }
        }
        json::lemma_key_index_is(n, k, n.len() as int);
    }
}

/// Where no key occurs twice, the last one doesn't occur before.
proof fn lemma_absent_in_prefix(o: Fields)
    requires
        o.len() > 0,
        json::distinct_keys(o),
    ensures
        !json::has_key(o.drop_last(), o.last().0),
{
    let rest = o.drop_last();
    let key = o.last().0;
    assert forall|j: int| 0 <= j < rest.len() implies (#[trigger] rest[j]).0 != key by {
        assert(o[j].0 != o[o.len() - 1].0);
    }
    json::lemma_key_index_is(rest, key, rest.len() as int);
}

pub proof fn lemma_kept(b: Fields, kind: AuthKind)
    ensures
        forall|k: Seq<char>|
            #[trigger] json::field(credentials::kept(b, kind), k) == if credentials::stays(kind, k) {
                json::field(b, k)
            } else {
                None
            },
        json::distinct_keys(b) ==> json::distinct_keys(credentials::kept(b, kind)),
        json::fields_well_formed(b) ==> json::fields_well_formed(credentials::kept(b, kind)),
{
    lemma_retained(
        b,
        Seq::new(b.len(), |i: int| credentials::stays(kind, b[i].0)),
        |k: Seq<char>| credentials::stays(kind, k),
    );
}

/// Switching a user to a kind keeps every field that isn't a credential, with its value.
pub proof fn switching_keeps_other_fields(b: Fields, kind: AuthKind, key: Seq<char>)
    requires
        !credentials::auth_keys().contains(key),
    ensures
        json::field(credentials::with_auth_kind(b, kind), key) == json::field(b, key),
{
    lemma_kept(b, kind);
    lemma_auth_literals();
    let k = credentials::kept(b, kind);
    let all = credentials::auth_keys();
    assert(all[0] == "token"@ && all[1] == "tokenFile"@ && all[2] == crate::fields::CERT_FILE@);
    assert(all[4] == crate::fields::KEY_FILE@ && all[6] == "exec"@ && all[7] == "auth-provider"@);
    assert(all[8] == "username"@ && all[9] == "password"@);
    assert(json::field(k, key) == json::field(b, key));
    let nothing = Json::Str(""@);
    json::put_then_field(k, "token"@, nothing);
    json::put_then_field(k, "tokenFile"@, nothing);
    json::put_then_field(k, "username"@, nothing);
    json::put_then_field(json::put(k, "username"@, nothing), "password"@, nothing);
    json::put_then_field(k, crate::fields::CERT_FILE@, nothing);
    json::put_then_field(
        json::put(k, crate::fields::CERT_FILE@, nothing),
        crate::fields::KEY_FILE@,
        nothing,
    );
    let s = credentials::started(k, kind);
    if kind == AuthKind::Exec {
        json::put_then_field(k, "exec"@, json::field(s, "exec"@)->Some_0);
        lemma_started_value(k, kind);
    } else if kind == AuthKind::OidcProvider {
        lemma_started_value(k, kind);
    }
}

/// What a kind with an object for its starting point adds.
proof fn lemma_started_value(k: Fields, kind: AuthKind)
    requires
        kind == AuthKind::Exec || kind == AuthKind::OidcProvider,
    ensures
        ({
            let key = if kind == AuthKind::Exec {
                "exec"@
            } else {
                "auth-provider"@
            };
            let s = credentials::started(k, kind);
            &&& json::has_key(s, key)
            &&& kind == AuthKind::OidcProvider ==> credentials::provider_name(
                json::field(s, key)->Some_0,
            ) == Some("oidc"@)
            &&& forall|other: Seq<char>|
                other != key ==> #[trigger] json::field(s, other) == json::field(k, other)
        }),
{
    lemma_auth_literals();
    let nothing = Json::Str(""@);
    let exec = Json::Object(
        seq![
            ("apiVersion"@, Json::Str(crate::users::EXEC_API_VERSION@)),
            ("command"@, nothing),
        ],
    );
    let config = Json::Object(seq![("idp-issuer-url"@, nothing), ("client-id"@, nothing)]);
    let o = seq![("name"@, Json::Str("oidc"@)), ("config"@, config)];
    json::put_then_field(k, "exec"@, exec);
    json::put_then_field(k, "auth-provider"@, Json::Object(o));
    json::lemma_key_index_is(o, "name"@, 0);
}

/// A user that was switched to a kind is of that kind. (A legacy provider can't be switched to.)
pub proof fn switched_user_has_the_kind(b: Fields, kind: AuthKind)
    requires
        kind != AuthKind::OtherProvider,
    ensures
        credentials::auth_kind(credentials::with_auth_kind(b, kind)) == kind,
{
    if credentials::auth_kind(b) != kind {
        lemma_kept(b, kind);
        lemma_auth_literals();
        let k = credentials::kept(b, kind);
        let all = credentials::auth_keys();
        assert(all[0] == "token"@ && all[1] == "tokenFile"@);
        assert(all[2] == crate::fields::CERT_FILE@ && all[3] == crate::fields::CERT_DATA@);
        assert(all[6] == "exec"@ && all[7] == "auth-provider"@);
        assert(all[8] == "username"@ && all[9] == "password"@);
        let own = credentials::kind_keys(kind);
        lemma_foreign_keys_go(b, kind);
        let nothing = Json::Str(""@);
        match kind {
            AuthKind::Exec | AuthKind::OidcProvider => {
                lemma_started_value(k, kind);
                let s = credentials::started(k, kind);
                assert(json::field(s, "exec"@) == json::field(k, "exec"@) || kind
                    == AuthKind::Exec);
            },
            AuthKind::Token => {
                json::put_then_field(k, "token"@, nothing);
            },
            AuthKind::TokenFile => {
                json::put_then_field(k, "tokenFile"@, nothing);
            },
            AuthKind::Basic => {
                json::put_then_field(k, "username"@, nothing);
                json::put_then_field(json::put(k, "username"@, nothing), "password"@, nothing);
            },
            AuthKind::ClientCertificate => {
                json::put_then_field(k, crate::fields::CERT_FILE@, nothing);
                json::put_then_field(
                    json::put(k, crate::fields::CERT_FILE@, nothing),
                    crate::fields::KEY_FILE@,
                    nothing,
                );
            },
            _ => {},
        }
    }
}

/// The credential keys of other kinds don't stay.
proof fn lemma_foreign_keys_go(b: Fields, kind: AuthKind)
    ensures
        ({
            let k = credentials::kept(b, kind);
            &&& kind != AuthKind::Exec ==> !json::has_key(k, "exec"@)
            &&& kind != AuthKind::OidcProvider ==> !json::has_key(k, "auth-provider"@)
            &&& kind != AuthKind::ClientCertificate ==> !json::has_key(
                k,
                crate::fields::CERT_FILE@,
            ) && !json::has_key(k, crate::fields::CERT_DATA@)
            &&& kind != AuthKind::Token ==> !json::has_key(k, "token"@)
            &&& kind != AuthKind::TokenFile ==> !json::has_key(k, "tokenFile"@)
            &&& kind != AuthKind::Basic ==> !json::has_key(k, "username"@) && !json::has_key(
                k,
                "password"@,
            )
        }),
{
    lemma_kept(b, kind);
    lemma_auth_literals();
    let k = credentials::kept(b, kind);
    let all = credentials::auth_keys();
    let own = credentials::kind_keys(kind);
    assert forall|i: int| 0 <= i < all.len() && !own.contains(all[i]) implies !json::has_key(
        k,
        #[trigger] all[i],
    ) by {
        assert(all.contains(all[i]));
        assert(json::field(k, all[i]) is None);
    }
    assert forall|key: Seq<char>| #[trigger] own.contains(key) implies exists|i: int|
        0 <= i < own.len() && own[i] == key by {}
    assert(all[0] == "token"@ && all[1] == "tokenFile"@);
    assert(all[2] == crate::fields::CERT_FILE@ && all[3] == crate::fields::CERT_DATA@);
    assert(all[6] == "exec"@ && all[7] == "auth-provider"@);
    assert(all[8] == "username"@ && all[9] == "password"@);
}

// ----- Secrets -----

/// Keys that were taken out are gone; every other key reads as before.
pub proof fn lemma_without_keys(o: Fields, keys: Seq<Seq<char>>)
    requires
        json::distinct_keys(o),
    ensures
        json::distinct_keys(credentials::without_keys(o, keys)),
        forall|k: Seq<char>|
            keys.contains(k) ==> !(#[trigger] json::has_key(credentials::without_keys(o, keys), k)),
        forall|k: Seq<char>|
            !keys.contains(k) ==> #[trigger] json::field(credentials::without_keys(o, keys), k)
                == json::field(o, k),
        json::fields_well_formed(o) ==> json::fields_well_formed(
            credentials::without_keys(o, keys),
        ),
    decreases keys.len(),
{
    if keys.len() > 0 {
        let before = keys.drop_last();
        lemma_without_keys(o, before);
        let w = credentials::without_keys(o, before);
        let n = credentials::without_keys(o, keys);
        json::without_then_field(w, keys.last());
        if json::fields_well_formed(o) {
            json::without_keeps_well_formed(w, keys.last());
        }
        assert forall|k: Seq<char>| keys.contains(k) implies !(#[trigger] json::has_key(n, k)) by {
            if k != keys.last() {
                let i = choose|i: int| 0 <= i < keys.len() && keys[i] == k;
                assert(before[i] == k);
                assert(!json::has_key(w, k));
                assert(json::field(n, k) == json::field(w, k));
            }
        }
        assert forall|k: Seq<char>| !keys.contains(k) implies #[trigger] json::field(n, k)
            == json::field(o, k) by {
            assert(keys[keys.len() - 1] == keys.last());
            assert(!before.contains(k)) by {
                if before.contains(k) {
                    let i = choose|i: int| 0 <= i < before.len() && before[i] == k;
                    assert(keys[i] == k);
                }
            }
        }
    }
}

proof fn lemma_no_text_paths(o: Fields, keys: Seq<Seq<char>>, prefix: Seq<Seq<char>>)
    requires
        forall|i: int| 0 <= i < keys.len() ==> !credentials::holds_text(o, #[trigger] keys[i]),
    ensures
        credentials::text_paths(o, keys, prefix).len() == 0,
    decreases keys.len(),
{
    if keys.len() > 0 {
        let before = keys.drop_last();
        assert forall|i: int| 0 <= i < before.len() implies !credentials::holds_text(
            o,
            #[trigger] before[i],
        ) by {
            assert(before[i] == keys[i]);
        }
        assert(!credentials::holds_text(o, keys[keys.len() - 1]));
        lemma_no_text_paths(o, before, prefix);
    }
}

pub proof fn lemma_public_vars(env: Seq<Json>)
    ensures
        forall|i: int|
            0 <= i < credentials::public_vars(env).len() ==> !credentials::secret_env(
                credentials::var_name(#[trigger] credentials::public_vars(env)[i]),
            ),
        credentials::secret_vars(credentials::public_vars(env)).len() == 0,
        (forall|i: int| 0 <= i < env.len() ==> json::well_formed(#[trigger] env[i])) ==> (forall|
            i: int,
        |
            0 <= i < credentials::public_vars(env).len() ==> json::well_formed(
                #[trigger] credentials::public_vars(env)[i],
            )),
    decreases env.len(),
{
    if env.len() > 0 {
        let before = env.drop_last();
        lemma_public_vars(before);
        let p = credentials::public_vars(before);
        let r = credentials::public_vars(env);
        if !credentials::secret_env(credentials::var_name(env.last())) {
            assert(r.drop_last() =~= p);
            assert forall|i: int| 0 <= i < r.len() implies !credentials::secret_env(
                credentials::var_name(#[trigger] r[i]),
            ) by {
                if i < p.len() {
                    assert(r[i] == p[i]);
                }
            }
        }
        if forall|i: int| 0 <= i < env.len() ==> json::well_formed(#[trigger] env[i]) {
            assert forall|i: int| 0 <= i < before.len() implies json::well_formed(
                #[trigger] before[i],
            ) by {
                assert(before[i] == env[i]);
            }
            assert(json::well_formed(env[env.len() - 1]));
            assert forall|i: int| 0 <= i < r.len() implies json::well_formed(#[trigger] r[i]) by {
                if i < p.len() {
                    assert(r[i] == p[i]);
                }
            }
        }
    }
}

/// A stripped user body is well-formed and holds no secret.
pub proof fn stripped_user_has_no_secrets(b: Fields)
    requires
        json::fields_well_formed(b),
    ensures
        credentials::secret_paths(credentials::stripped(b)).len() == 0,
        json::fields_well_formed(credentials::stripped(b)),
{
    lemma_auth_literals();
    let keys = credentials::user_secret_keys();
    let pkeys = credentials::provider_secret_keys();
    let b1 = credentials::without_keys(b, keys);
    lemma_without_keys(b, keys);
    let b2 = credentials::without_provider_secrets(b1);
    let p1 = json::field(b1, "auth-provider"@);
    json::lemma_field_well_formed(b1, "auth-provider"@);
    if let Some(c) = credentials::provider_config(b1) {
        let p = p1->Some_0;
        assert(json::well_formed(p));
        json::lemma_field_well_formed(p->Object_0, "config"@);
        assert(json::well_formed(Json::Object(c)));
        assert(json::fields_well_formed(c));
        lemma_without_keys(c, pkeys);
        let config = Json::Object(credentials::without_keys(c, pkeys));
        let new = document::with_field(p, "config"@, config);
        json::put_then_field(p->Object_0, "config"@, config);
        json::put_keeps_well_formed(p->Object_0, "config"@, config);
        json::put_then_field(b1, "auth-provider"@, new);
        json::put_keeps_well_formed(b1, "auth-provider"@, new);
        assert(credentials::provider_config(b2) == Some(credentials::without_keys(c, pkeys)));
        lemma_no_text_paths_of_removed(
            credentials::without_keys(c, pkeys),
            pkeys,
            credentials::provider_prefix(),
        );
    }
    let b3 = credentials::without_env_secrets(b2);
    json::lemma_field_well_formed(b2, "exec"@);
    if let Some(env) = credentials::exec_env(b2) {
        let e = json::field(b2, "exec"@)->Some_0;
        json::lemma_field_well_formed(e->Object_0, "env"@);
        lemma_public_vars(env);
        let vars = Json::Array(credentials::public_vars(env));
        let new = document::with_field(e, "env"@, vars);
        json::put_then_field(e->Object_0, "env"@, vars);
        json::put_keeps_well_formed(e->Object_0, "env"@, vars);
        json::put_then_field(b2, "exec"@, new);
        json::put_keeps_well_formed(b2, "exec"@, new);
    }
    assert(keys[0] == "token"@ && keys[1] == "client-key-data"@ && keys[2] == "password"@);
    assert forall|i: int| 0 <= i < keys.len() implies !json::has_key(b3, #[trigger] keys[i]) by {
        assert(keys.contains(keys[i]));
        assert(!json::has_key(b1, keys[i]));
        assert(keys[i] != "auth-provider"@ && keys[i] != "exec"@);
        assert(json::field(b2, keys[i]) == json::field(b1, keys[i]));
        assert(json::field(b3, keys[i]) == json::field(b2, keys[i]));
    }
    lemma_no_text_paths(b3, keys, seq![]);
    assert("auth-provider"@ != "exec"@);
    assert(json::field(b3, "auth-provider"@) == json::field(b2, "auth-provider"@));
}

proof fn lemma_no_text_paths_of_removed(
    o: Fields,
    keys: Seq<Seq<char>>,
    prefix: Seq<Seq<char>>,
)
    requires
        forall|k: Seq<char>| keys.contains(k) ==> !(#[trigger] json::has_key(o, k)),
    ensures
        credentials::text_paths(o, keys, prefix).len() == 0,
{
    assert forall|i: int| 0 <= i < keys.len() implies !credentials::holds_text(
        o,
        #[trigger] keys[i],
    ) by {
        assert(keys.contains(keys[i]));
        assert(!json::has_key(o, keys[i]));
    }
    lemma_no_text_paths(o, keys, prefix);
}

/// The texts that were masked at paths that part from each other, put back in reverse order,
/// give the value as it was.
pub proof fn masked_secrets_can_be_put_back(
    v: Json,
    at: Seq<Seq<Seq<char>>>,
    placeholder: Seq<char>,
)
    requires
        credentials::apart(at),
    ensures
        credentials::restored(
            credentials::masked(v, at, placeholder),
            credentials::texts_at(v, at),
        ) == v,
    decreases at.len(),
{
    if at.len() > 0 {
        let fewer = at.drop_last();
        let before = credentials::masked(v, fewer, placeholder);
        let taken = credentials::texts_at(v, fewer);
        assert forall|i: int, j: int| 0 <= i < j < fewer.len() implies paths::diverge(
            #[trigger] fewer[i],
            #[trigger] fewer[j],
        ) by {
            assert(fewer[i] == at[i] && fewer[j] == at[j]);
        }
        masked_secrets_can_be_put_back(v, fewer, placeholder);
        assert forall|i: int| 0 <= i < fewer.len() implies paths::diverge(
            #[trigger] fewer[i],
            at.last(),
        ) by {
            assert(fewer[i] == at[i] && at.last() == at[at.len() - 1]);
        }
        credentials::masked_elsewhere(v, fewer, placeholder, at.last());
        if let Some(Json::Str(s)) = paths::deep(before, at.last()) {
            paths::replace_then_restore(before, at.last(), Json::Str(placeholder));
            let all = taken.push((at.last(), s));
            assert(all.drop_last() =~= taken);
        }
    }
}

} // verus!
