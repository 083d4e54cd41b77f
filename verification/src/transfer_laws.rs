//! What holds of contexts that are taken out, brought in and removed with what they use.

use crate::credentials;
use crate::document;
use crate::json::{self, Json};
use crate::laws;
use crate::model::Kind;
use crate::shape_laws;
use crate::transfer;
use vstd::prelude::*;

verus! {

// ----- Appending -----

proof fn lemma_appended(d: Json, kind: Kind, entry: Option<Json>)
    ensures
        document::list(transfer::appended(d, kind, entry), kind) == match entry {
            Some(e) => document::list(d, kind).push(e),
            None => document::list(d, kind),
        },
        forall|k: Kind|
            k != kind ==> #[trigger] document::list(transfer::appended(d, kind, entry), k)
                == document::list(d, k),
        document::current_context(transfer::appended(d, kind, entry)) == document::current_context(
            d,
        ),
        laws::same_elsewhere(d, transfer::appended(d, kind, entry)),
{
    if let Some(e) = entry {
        document::with_list_reads(d, kind, document::list(d, kind).push(e));
        laws::lemma_with_list_elsewhere(d, kind, document::list(d, kind).push(e));
    }
}

// ----- Extracting -----

/// A document with one context holds that context, the cluster and the user it refers to, and
/// nothing else; the context is current.
pub proof fn extracted_document_is_one_context(
    d: Json,
    context: Seq<char>,
    with_credentials: bool,
)
    requires
        document::contains(d, Kind::Context, context),
        context.len() > 0,
    ensures
        ({
            let e = transfer::extracted(d, context, with_credentials)->Some_0;
            &&& transfer::extracted(d, context, with_credentials) is Some
            &&& document::list(e, Kind::Context) == seq![
                document::entry(d, Kind::Context, context)->Some_0,
            ]
            &&& document::list(e, Kind::Cluster) == match transfer::referred(
                d,
                context,
                Kind::Cluster,
            ) {
                Some(c) => seq![c],
                None => seq![],
            }
            &&& document::list(e, Kind::User) == match transfer::referred(d, context, Kind::User) {
                Some(u) => seq![transfer::exported_user(u, with_credentials)],
                None => seq![],
            }
            &&& document::current_context(e) == Some(context)
        }),
{
    let entry = document::entry(d, Kind::Context, context);
    let cluster = transfer::referred(d, context, Kind::Cluster);
    let user = match transfer::referred(d, context, Kind::User) {
        Some(e) => Some(transfer::exported_user(e, with_credentials)),
        None => None,
    };
    let d0 = document::empty_document();
    lemma_empty_lists();
    let d1 = transfer::appended(d0, Kind::Context, entry);
    lemma_appended(d0, Kind::Context, entry);
    let d2 = transfer::appended(d1, Kind::Cluster, cluster);
    lemma_appended(d1, Kind::Cluster, cluster);
    let d3 = transfer::appended(d2, Kind::User, user);
    lemma_appended(d2, Kind::User, user);
    laws::lemma_with_current_keeps_lists(d3, Some(context));
    let e = document::with_current_context(d3, Some(context));
    assert(document::list(e, Kind::Context) == document::list(d3, Kind::Context));
    assert(document::list(e, Kind::Cluster) == document::list(d3, Kind::Cluster));
    assert(document::list(e, Kind::User) == document::list(d3, Kind::User));
    assert(document::list(e, Kind::Context) =~= seq![entry->Some_0]);
    assert(document::list(d3, Kind::Cluster) == document::list(d2, Kind::Cluster));
    assert(document::list(d2, Kind::User) == document::list(d1, Kind::User));
    if let Some(c) = cluster {
        assert(document::list(e, Kind::Cluster) =~= seq![c]);
    }
    if let Some(u) = user {
        assert(document::list(e, Kind::User) =~= seq![u]);
    }
}

pub proof fn lemma_empty_lists()
    ensures
        forall|k: Kind|
            #[trigger] document::list(document::empty_document(), k) == Seq::<Json>::empty(),
{
    reveal_strlit("apiVersion");
    reveal_strlit("kind");
    reveal_strlit("clusters");
    reveal_strlit("contexts");
    reveal_strlit("users");
    assert("clusters"@[1] == 'l' && "contexts"@[1] == 'o');
    assert("apiVersion"@.len() == 10 && "kind"@.len() == 4 && "users"@.len() == 5);
    assert("clusters"@.len() == 8 && "contexts"@.len() == 8);
    let o = document::empty_document()->Object_0;
    json::lemma_key_index_is(o, "clusters"@, 2);
    json::lemma_key_index_is(o, "contexts"@, 3);
    json::lemma_key_index_is(o, "users"@, 4);
}

/// A document taken out without credentials holds no secret.
pub proof fn extracted_without_credentials_has_no_secrets(d: Json, context: Seq<char>)
    requires
        json::well_formed(d),
        document::contains(d, Kind::Context, context),
        context.len() > 0,
    ensures
        ({
            let users = document::list(
                transfer::extracted(d, context, false)->Some_0,
                Kind::User,
            );
            forall|i: int|
                0 <= i < users.len() ==> !transfer::holds_secret(#[trigger] users[i])
        }),
{
    extracted_document_is_one_context(d, context, false);
    if let Some(name) = document::context_reference(d, context, Kind::User) {
        if let Some(u) = document::entry(d, Kind::User, name) {
            shape_laws::lemma_entry_well_formed(d, Kind::User, name);
            shape_laws::lemma_get_well_formed(u, "user"@);
            if let Some(b) = document::body_of(u, Kind::User) {
                assert(json::fields_well_formed(b));
                laws::stripped_user_has_no_secrets(b);
                json::put_then_field(
                    document::fields_of(u),
                    "user"@,
                    Json::Object(credentials::stripped(b)),
                );
            }
        }
    }
}

// ----- Importing -----

/// What bringing in a cluster or user does.
proof fn lemma_with_reference(d: Json, from: Json, kind: Kind, name: Option<Seq<char>>)
    requires
        kind != Kind::Context,
        name matches Some(n) ==> n.len() > 0,
    ensures
        ({
            let (e, new) = transfer::with_reference(d, from, kind, name);
            &&& document::list(d, kind).is_prefix_of(document::list(e, kind))
            &&& forall|k: Kind| k != kind ==> #[trigger] document::list(e, k) == document::list(d, k)
            &&& document::current_context(e) == document::current_context(d)
            &&& laws::same_elsewhere(d, e)
            &&& match name {
                None => true,
                Some(n) => match document::entry(from, kind, n) {
                    None => true,
                    Some(theirs) => {
                        let n2 = new->Some_0;
                        let ours = document::entry(e, kind, n2)->Some_0;
                        &&& new is Some
                        &&& n2.len() > 0
                        &&& document::entry(e, kind, n2) is Some
                        &&& json::equal(ours, theirs) || ours == document::with_name(theirs, n2)
                    },
                },
            }
        }),
{
    let (e, new) = transfer::with_reference(d, from, kind, name);
    assert(document::list(d, kind).take(document::list(d, kind).len() as int) =~= document::list(
        d,
        kind,
    ));
    if let Some(n) = name {
        if let Some(theirs) = document::entry(from, kind, n) {
            let shared = document::entry(d, kind, n) matches Some(mine) && json::equal(
                mine,
                theirs,
            );
            if !shared {
                let free = document::unique_name(d, kind, n);
                document::unique_name_is_free(d, kind, n);
                lemma_unique_name_not_empty(d, kind, n);
                let entries = document::list(d, kind);
                let copy = document::with_name(theirs, free);
                lemma_appended(d, kind, Some(copy));
                let all = entries.push(copy);
                assert(all.take(entries.len() as int) =~= entries);
                json::put_then_field(document::fields_of(theirs), "name"@, Json::Str(free));
                document::lemma_name_index(entries, free);
                assert forall|j: int| 0 <= j < entries.len() implies document::name_of(
                    #[trigger] all[j],
                ) != Some(free) by {
                    assert(all[j] == entries[j]);
                }
                document::lemma_name_index_is(all, free, entries.len() as int);
            }
        }
    }
}

proof fn lemma_unique_name_not_empty(d: Json, kind: Kind, base: Seq<char>)
    ensures
        document::unique_name(d, kind, base).len() > 0,
{
    reveal_strlit("context");
    reveal_strlit("cluster");
    reveal_strlit("user");
    reveal_strlit("-");
    assert(document::body_key(kind).len() > 0);
}

/// If there is such an entry, the context refers to an entry that is equal to it, or to a copy of
/// it with nothing changed but the name.
pub open spec fn brings(e: Json, context: Seq<char>, kind: Kind, theirs: Option<Json>) -> bool {
    match theirs {
        None => true,
        Some(theirs) => match document::context_reference(e, context, kind) {
            None => false,
            Some(name) => match document::entry(e, kind, name) {
                None => false,
                Some(ours) => json::equal(ours, theirs) || ours == document::with_name(theirs, name),
            },
        },
    }
}

/// Importing a context only adds: what the document held stays where it was. The context gets a
/// name that was free, and the cluster and the user it refers to are there under the names it
/// refers to them by: either entries that were equal already, or copies with nothing changed but
/// the name.
pub proof fn imported_context_brings_what_it_uses(d: Json, from: Json, context: Seq<char>)
    requires
        document::contains(from, Kind::Context, context),
    ensures
        ({
            let (e, name) = transfer::imported(d, from, context)->Some_0;
            &&& transfer::imported(d, from, context) is Some
            &&& laws::same_elsewhere(d, e)
            &&& document::current_context(e) == document::current_context(d)
            &&& forall|k: Kind| (#[trigger] document::list(d, k)).is_prefix_of(document::list(e, k))
            &&& !document::contains(d, Kind::Context, name)
            &&& document::contains(e, Kind::Context, name)
            &&& brings(e, name, Kind::Cluster, transfer::referred(from, context, Kind::Cluster))
            &&& brings(e, name, Kind::User, transfer::referred(from, context, Kind::User))
        }),
{
    let entry = document::entry(from, Kind::Context, context)->Some_0;
    let r1 = document::context_reference(from, context, Kind::Cluster);
    let r2 = document::context_reference(from, context, Kind::User);
    let (d1, cluster) = transfer::with_reference(d, from, Kind::Cluster, r1);
    lemma_with_reference(d, from, Kind::Cluster, r1);
    let (d2, user) = transfer::with_reference(d1, from, Kind::User, r2);
    lemma_with_reference(d1, from, Kind::User, r2);
    let name = document::unique_name(d2, Kind::Context, context);
    document::unique_name_is_free(d2, Kind::Context, context);
    let contexts = document::list(d, Kind::Context);
    assert(document::list(d1, Kind::Context) == contexts);
    assert(document::list(d2, Kind::Context) == contexts);
    let new = transfer::pointed(entry, name, cluster, user);
    let e = transfer::appended(d2, Kind::Context, Some(new));
    lemma_appended(d2, Kind::Context, Some(new));
    let all = contexts.push(new);
    assert(all.take(contexts.len() as int) =~= contexts);
    assert forall|k: Kind| (#[trigger] document::list(d, k)).is_prefix_of(document::list(e, k)) by {
        assert(document::list(d1, Kind::User) == document::list(d, Kind::User));
        assert(document::list(d2, Kind::Cluster) == document::list(d1, Kind::Cluster));
        assert(document::list(e, Kind::Cluster) == document::list(d2, Kind::Cluster));
        assert(document::list(e, Kind::User) == document::list(d2, Kind::User));
    }
    document::lemma_keys_differ();
    let e1 = document::with_name(entry, name);
    json::put_then_field(document::fields_of(entry), "name"@, Json::Str(name));
    assert(document::body_key(Kind::Context) == "context"@);
    assert("context"@ != "name"@);
    assert(json::field(document::fields_of(e1), "context"@) == json::field(
        document::fields_of(entry),
        "context"@,
    ));
    lemma_pointed(e1, cluster, user);
    assert(document::name_of(new) == Some(name));
    document::lemma_name_index(contexts, name);
    assert forall|j: int| 0 <= j < contexts.len() implies document::name_of(#[trigger] all[j])
        != Some(name) by {
        assert(all[j] == contexts[j]);
    }
    document::lemma_name_index_is(all, name, contexts.len() as int);
    document::lemma_name_index(document::list(from, Kind::Context), context);
    assert(document::entry(e, Kind::Context, name) == Some(new));
    assert(document::list(e, Kind::Cluster) == document::list(d1, Kind::Cluster));
    assert(document::list(e, Kind::User) == document::list(d2, Kind::User));
}

/// A context entry with its references set has its name, and those references.
proof fn lemma_pointed(e: Json, cluster: Option<Seq<char>>, user: Option<Seq<char>>)
    ensures
        ({
            let p = match json::as_fields(json::get(e, "context"@)) {
                Some(b) => document::with_field(
                    e,
                    "context"@,
                    Json::Object(
                        transfer::put_text(
                            transfer::put_text(b, "cluster"@, cluster),
                            "user"@,
                            user,
                        ),
                    ),
                ),
                None => e,
            };
            &&& document::name_of(p) == document::name_of(e)
            &&& json::as_fields(json::get(e, "context"@)) matches Some(b) ==> {
                &&& document::body_of(p, Kind::Context) matches Some(b2) && (cluster matches Some(c)
                    && c.len() > 0 ==> document::reference(b2, "cluster"@) == cluster) && (
                user matches Some(u) && u.len() > 0 ==> document::reference(b2, "user"@) == user)
            }
        }),
{
    document::lemma_keys_differ();
    assert(document::body_key(Kind::Context) == "context"@);
    assert(document::body_key(Kind::Cluster) == "cluster"@);
    assert(document::body_key(Kind::User) == "user"@);
    assert(document::body_key(Kind::Cluster) != document::body_key(Kind::User));
    assert(document::body_key(Kind::Context) != "name"@);
    if let Some(b) = json::as_fields(json::get(e, "context"@)) {
        let b1 = transfer::put_text(b, "cluster"@, cluster);
        if let Some(s) = cluster {
            json::put_then_field(b, "cluster"@, Json::Str(s));
        }
        let b2 = transfer::put_text(b1, "user"@, user);
        if let Some(s) = user {
            json::put_then_field(b1, "user"@, Json::Str(s));
        }
        assert(json::field(b2, "cluster"@) == json::field(b1, "cluster"@));
        json::put_then_field(document::fields_of(e), "context"@, Json::Object(b2));
        assert(json::field(
            json::put(document::fields_of(e), "context"@, Json::Object(b2)),
            "name"@,
        ) == json::field(document::fields_of(e), "name"@));
    }
}

// ----- Removing with what it used -----

/// If no context is listed as a user, no named context refers to the entry.
proof fn lemma_unused(contexts: Seq<Json>, kind: Kind, name: Seq<char>, j: int)
    requires
        document::users_in(contexts, kind, name).len() == 0,
        0 <= j < contexts.len(),
        document::name_of(contexts[j]) is Some,
    ensures
        !document::refers_to(contexts[j], kind, name),
    decreases contexts.len(),
{
    if j < contexts.len() - 1 {
        assert(contexts.drop_last()[j] == contexts[j]);
        lemma_unused(contexts.drop_last(), kind, name, j);
    }
}

/// Removing one entry keeps the others.
proof fn lemma_removed_keeps_others(entries: Seq<Json>, name: Seq<char>, other: Seq<char>)
    requires
        name != other,
        document::name_index(entries, name) < entries.len(),
        document::name_index(entries, other) < entries.len(),
    ensures
        ({
            let rest = entries.remove(document::name_index(entries, name));
            document::name_index(rest, other) < rest.len()
        }),
{
    document::lemma_name_index(entries, name);
    document::lemma_name_index(entries, other);
    let i = document::name_index(entries, name);
    let j = document::name_index(entries, other);
    let rest = entries.remove(i);
    let at = if j < i {
        j
    } else {
        j - 1
    };
    assert(rest[at] == entries[j]);
    document::lemma_name_index(rest, other);
    if document::name_index(rest, other) == rest.len() {
        assert(document::name_of(rest[at]) != Some(other));
    }
}

/// What a named context refers to stays.
pub open spec fn keeps_references(d: Json, e: Json) -> bool {
    forall|j: int, kind: Kind, name: Seq<char>|
        #![trigger document::refers_to(document::list(e, Kind::Context)[j], kind, name)]
        0 <= j < document::list(e, Kind::Context).len() && kind != Kind::Context && document::name_of(
            document::list(e, Kind::Context)[j],
        ) is Some && document::refers_to(document::list(e, Kind::Context)[j], kind, name)
            && document::contains(d, kind, name) ==> document::contains(e, kind, name)
}

proof fn lemma_without_unused(d: Json, kind: Kind, name: Option<Seq<char>>)
    requires
        kind != Kind::Context,
    ensures
        document::list(transfer::without_unused(d, kind, name), Kind::Context) == document::list(
            d,
            Kind::Context,
        ),
        keeps_references(d, transfer::without_unused(d, kind, name)),
{
    let e = transfer::without_unused(d, kind, name);
    if let Some(n) = name {
        if document::used_by(d, kind, n).len() == 0 && document::contains(d, kind, n) {
            laws::removed_entry_is_gone(d, kind, n);
            let contexts = document::list(d, Kind::Context);
            assert(document::list(e, Kind::Context) == contexts);
            assert forall|j: int, k: Kind, other: Seq<char>|
                #![trigger document::refers_to(document::list(e, Kind::Context)[j], k, other)]
                0 <= j < document::list(e, Kind::Context).len() && k != Kind::Context
                    && document::name_of(document::list(e, Kind::Context)[j]) is Some
                    && document::refers_to(document::list(e, Kind::Context)[j], k, other)
                    && document::contains(d, k, other) implies document::contains(e, k, other) by {
                if k == kind {
                    if other == n {
                        lemma_unused(contexts, kind, n, j);
                    } else {
                        lemma_removed_keeps_others(document::list(d, kind), n, other);
                    }
                } else {
                    assert(document::list(e, k) == document::list(d, k));
                }
            }
        }
    }
}

/// Removing a context with what it used leaves the other contexts what they use: whatever a
/// named context that stays refers to, and was there, is still there.
pub proof fn removing_a_context_keeps_what_others_use(d: Json, context: Seq<char>)
    ensures
        keeps_references(d, transfer::without_context(d, context)),
        document::list(transfer::without_context(d, context), Kind::Context) == document::list(
            document::removed(d, Kind::Context, context),
            Kind::Context,
        ),
{
    let d1 = document::removed(d, Kind::Context, context);
    if document::contains(d, Kind::Context, context) {
        laws::removed_entry_is_gone(d, Kind::Context, context);
    }
    let cluster = document::context_reference(d, context, Kind::Cluster);
    let user = document::context_reference(d, context, Kind::User);
    let d2 = transfer::without_unused(d1, Kind::Cluster, cluster);
    lemma_without_unused(d1, Kind::Cluster, cluster);
    let e = transfer::without_unused(d2, Kind::User, user);
    lemma_without_unused(d2, Kind::User, user);
    assert forall|j: int, k: Kind, name: Seq<char>|
        #![trigger document::refers_to(document::list(e, Kind::Context)[j], k, name)]
        0 <= j < document::list(e, Kind::Context).len() && k != Kind::Context && document::name_of(
            document::list(e, Kind::Context)[j],
        ) is Some && document::refers_to(document::list(e, Kind::Context)[j], k, name)
            && document::contains(d, k, name) implies document::contains(e, k, name) by {
        assert(document::list(d1, k) == document::list(d, k));
        assert(document::contains(d1, k, name));
        assert(document::refers_to(document::list(d2, Kind::Context)[j], k, name));
        assert(document::contains(d2, k, name));
    }
}

} // verus!
