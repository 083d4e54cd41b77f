//! What edits refuse, which names they give, and what a context takes along when it comes or goes.

use crate::document;
use crate::json::{self, Fields, Json};
use crate::laws;
use crate::model::Kind;
use crate::text;
use crate::transfer;
use crate::transfer_laws;
use vstd::prelude::*;

verus! {

// ----- Names -----

/// An entry is found by its name exactly if one of its list has it; of several it is the first.
pub proof fn entries_are_found_by_name(d: Json, kind: Kind, name: Seq<char>)
    ensures
        document::contains(d, kind, name) <==> exists|i: int|
            0 <= i < document::list(d, kind).len() && document::name_of(
                #[trigger] document::list(d, kind)[i],
            ) == Some(name),
        document::entry(d, kind, name) matches Some(e) ==> {
            let i = document::entry_index(d, kind, name);
            &&& 0 <= i < document::list(d, kind).len()
            &&& e == document::list(d, kind)[i]
            &&& document::name_of(e) == Some(name)
            &&& forall|j: int|
                0 <= j < i ==> document::name_of(#[trigger] document::list(d, kind)[j]) != Some(
                    name,
                )
        },
{
    let entries = document::list(d, kind);
    document::lemma_name_index(entries, name);
    if document::contains(d, kind, name) {
        let i = document::entry_index(d, kind, name);
        assert(document::name_of(entries[i]) == Some(name));
    }
}

/// A new name is refused exactly if it is empty, begins or ends with a space, or is taken; a
/// rename also if there is nothing to rename. A rename to the same name changes nothing.
pub proof fn bad_names_are_refused(d: Json, kind: Kind, from: Seq<char>, to: Seq<char>)
    ensures
        document::add_error(d, kind, to) is Some <==> to.len() == 0 || text::trimmed(to) != to
            || document::contains(d, kind, to),
        from != to ==> (document::rename_error(d, kind, from, to) is Some <==> to.len() == 0
            || text::trimmed(to) != to || document::contains(d, kind, to) || !document::contains(
            d,
            kind,
            from,
        )),
        document::rename_error(d, kind, from, from) is None,
        document::renamed(d, kind, from, from) == d,
{
}

/// A name that is made unique is the wanted one, trimmed, if that is free; else the wanted one
/// with the lowest number from two on that is free.
pub proof fn unique_names_have_the_lowest_number(d: Json, kind: Kind, base: Seq<char>)
    requires
        text::trimmed(base).len() > 0,
    ensures
        ({
            let wanted = text::trimmed(base);
            let name = document::unique_name(d, kind, base);
            &&& !document::contains(d, kind, name)
            &&& !document::contains(d, kind, wanted) ==> name == wanted
            &&& document::contains(d, kind, wanted) ==> exists|n: nat|
                n >= 2 && name == #[trigger] document::numbered(wanted, n) && forall|m: nat|
                    2 <= m < n ==> document::contains(
                        d,
                        kind,
                        #[trigger] document::numbered(wanted, m),
                    )
            &&& document::contains(d, kind, wanted) && !document::contains(
                d,
                kind,
                wanted + "-"@ + text::decimal(2),
            ) ==> name == wanted + "-"@ + text::decimal(2)
        }),
{
    let wanted = text::trimmed(base);
    document::unique_name_is_free(d, kind, base);
    if document::contains(d, kind, wanted) {
        document::lemma_first_free_exists(d, kind, wanted, 2);
        let n = choose|n: nat| document::first_free(d, kind, wanted, n);
        assert(document::first_free(d, kind, wanted, n));
        assert(document::unique_name(d, kind, base) == document::numbered(wanted, n));
        if !document::contains(d, kind, document::numbered(wanted, 2)) {
            if n > 2 {
                assert(document::contains(d, kind, document::numbered(wanted, 2)));
            }
        }
    }
}

// ----- What uses what -----

proof fn lemma_users_in(contexts: Seq<Json>, kind: Kind, name: Seq<char>, x: Seq<char>)
    ensures
        document::users_in(contexts, kind, name).contains(x) <==> exists|j: int|
            0 <= j < contexts.len() && document::name_of(#[trigger] contexts[j]) == Some(x)
                && document::refers_to(contexts[j], kind, name),
    decreases contexts.len(),
{
    if contexts.len() > 0 {
        let before = contexts.drop_last();
        lemma_users_in(before, kind, name, x);
        let found = document::users_in(before, kind, name);
        let all = document::users_in(contexts, kind, name);
        if all.contains(x) {
            let i = choose|i: int| 0 <= i < all.len() && all[i] == x;
            if i < found.len() {
                assert(found[i] == x);
                let j = choose|j: int|
                    0 <= j < before.len() && document::name_of(#[trigger] before[j]) == Some(x)
                        && document::refers_to(before[j], kind, name);
                assert(contexts[j] == before[j]);
            } else {
                assert(document::name_of(contexts[contexts.len() - 1]) == Some(x));
            }
        }
        if exists|j: int|
            0 <= j < contexts.len() && document::name_of(#[trigger] contexts[j]) == Some(x)
                && document::refers_to(contexts[j], kind, name) {
            let j = choose|j: int|
                0 <= j < contexts.len() && document::name_of(#[trigger] contexts[j]) == Some(x)
                    && document::refers_to(contexts[j], kind, name);
            if j < before.len() {
                assert(before[j] == contexts[j]);
                let i = choose|i: int| 0 <= i < found.len() && found[i] == x;
                assert(all[i] == x);
            } else {
                assert(all[all.len() - 1] == x);
            }
        }
    }
}

/// A cluster or user is used by exactly the contexts that refer to it.
pub proof fn contexts_use_what_they_refer_to(d: Json, kind: Kind, name: Seq<char>, x: Seq<char>)
    requires
        kind != Kind::Context,
    ensures
        document::used_by(d, kind, name).contains(x) <==> exists|j: int|
            0 <= j < document::list(d, Kind::Context).len() && document::name_of(
                #[trigger] document::list(d, Kind::Context)[j],
            ) == Some(x) && document::refers_to(document::list(d, Kind::Context)[j], kind, name),
{
    lemma_users_in(document::list(d, Kind::Context), kind, name, x);
}

proof fn lemma_unused(d: Json, kind: Kind, name: Seq<char>)
    requires
        kind != Kind::Context,
        forall|j: int|
            0 <= j < document::list(d, Kind::Context).len() ==> !document::refers_to(
                #[trigger] document::list(d, Kind::Context)[j],
                kind,
                name,
            ),
    ensures
        document::used_by(d, kind, name).len() == 0,
{
    let users = document::used_by(d, kind, name);
    if users.len() > 0 {
        let x = users[0];
        assert(users.contains(x));
        lemma_users_in(document::list(d, Kind::Context), kind, name, x);
    }
}

/// A context that is removed takes along the cluster and the user that no other context refers to.
pub proof fn removing_a_context_takes_what_nobody_uses(
    d: Json,
    context: Seq<char>,
    cluster: Seq<char>,
    user: Seq<char>,
)
    requires
        document::contains(d, Kind::Context, context),
        document::context_reference(d, context, Kind::Cluster) == Some(cluster),
        document::context_reference(d, context, Kind::User) == Some(user),
        document::contains(d, Kind::Cluster, cluster),
        document::contains(d, Kind::User, user),
        forall|j: int|
            0 <= j < document::list(d, Kind::Context).len() && j != document::entry_index(
                d,
                Kind::Context,
                context,
            ) ==> !document::refers_to(
                #[trigger] document::list(d, Kind::Context)[j],
                Kind::Cluster,
                cluster,
            ) && !document::refers_to(document::list(d, Kind::Context)[j], Kind::User, user),
    ensures
        ({
            let e = transfer::without_context(d, context);
            &&& document::list(e, Kind::Context) == document::list(d, Kind::Context).remove(
                document::entry_index(d, Kind::Context, context),
            )
            &&& document::list(e, Kind::Cluster) == document::list(d, Kind::Cluster).remove(
                document::entry_index(d, Kind::Cluster, cluster),
            )
            &&& document::list(e, Kind::User) == document::list(d, Kind::User).remove(
                document::entry_index(d, Kind::User, user),
            )
        }),
{
    let i = document::entry_index(d, Kind::Context, context);
    let contexts = document::list(d, Kind::Context);
    let d1 = document::removed(d, Kind::Context, context);
    laws::removed_entry_is_gone(d, Kind::Context, context);
    let left = document::list(d1, Kind::Context);
    assert(left == contexts.remove(i));
    document::lemma_name_index(contexts, context);
    assert forall|j: int| 0 <= j < left.len() implies !document::refers_to(
        #[trigger] left[j],
        Kind::Cluster,
        cluster,
    ) && !document::refers_to(left[j], Kind::User, user) by {
        if j < i {
            assert(left[j] == contexts[j]);
        } else {
            assert(left[j] == contexts[j + 1]);
        }
    }
    lemma_unused(d1, Kind::Cluster, cluster);
    assert(document::list(d1, Kind::Cluster) == document::list(d, Kind::Cluster));
    assert(document::contains(d1, Kind::Cluster, cluster));
    let d2 = document::removed(d1, Kind::Cluster, cluster);
    laws::removed_entry_is_gone(d1, Kind::Cluster, cluster);
    assert(document::list(d2, Kind::Context) == left);
    lemma_unused(d2, Kind::User, user);
    assert(document::list(d1, Kind::User) == document::list(d, Kind::User));
    assert(document::list(d2, Kind::User) == document::list(d1, Kind::User));
    assert(document::contains(d2, Kind::User, user));
    laws::removed_entry_is_gone(d2, Kind::User, user);
}

/// A context whose cluster and user are there already, the same under the same names, brings
/// nothing but itself.
pub proof fn equal_entries_are_shared(
    d: Json,
    from: Json,
    context: Seq<char>,
    cluster: Seq<char>,
    user: Seq<char>,
)
    requires
        document::contains(from, Kind::Context, context),
        document::context_reference(from, context, Kind::Cluster) == Some(cluster),
        document::context_reference(from, context, Kind::User) == Some(user),
        document::entry(from, Kind::Cluster, cluster) is Some,
        document::entry(from, Kind::User, user) is Some,
        document::entry(d, Kind::Cluster, cluster) is Some,
        document::entry(d, Kind::User, user) is Some,
        json::equal(
            document::entry(d, Kind::Cluster, cluster)->Some_0,
            document::entry(from, Kind::Cluster, cluster)->Some_0,
        ),
        json::equal(
            document::entry(d, Kind::User, user)->Some_0,
            document::entry(from, Kind::User, user)->Some_0,
        ),
    ensures
        ({
            let (e, name) = transfer::imported(d, from, context)->Some_0;
            &&& transfer::imported(d, from, context) is Some
            &&& document::list(e, Kind::Cluster) == document::list(d, Kind::Cluster)
            &&& document::list(e, Kind::User) == document::list(d, Kind::User)
            &&& document::list(e, Kind::Context).len() == document::list(d, Kind::Context).len()
                + 1
            &&& document::context_reference(e, name, Kind::Cluster) == Some(cluster)
            &&& document::context_reference(e, name, Kind::User) == Some(user)
        }),
{
    let (e, name) = transfer::imported(d, from, context)->Some_0;
    let entry = document::entry(from, Kind::Context, context)->Some_0;
    let pointed = transfer::pointed(entry, name, Some(cluster), Some(user));
    assert(e == transfer::appended(d, Kind::Context, Some(pointed)));
    let entries = document::list(d, Kind::Context);
    document::with_list_reads(d, Kind::Context, entries.push(pointed));
    transfer_laws::imported_context_brings_what_it_uses(d, from, context);
    assert(document::list(e, Kind::Context) == entries.push(pointed));
    lemma_pointed(entry, name, cluster, user);
    document::lemma_name_index(entries, name);
    assert forall|j: int| 0 <= j < entries.len() implies document::name_of(
        #[trigger] entries.push(pointed)[j],
    ) != Some(name) by {
        assert(entries.push(pointed)[j] == entries[j]);
    }
    document::lemma_name_index_is(entries.push(pointed), name, entries.len() as int);
}

proof fn lemma_pointed(entry: Json, name: Seq<char>, cluster: Seq<char>, user: Seq<char>)
    requires
        document::body_of(entry, Kind::Context) is Some,
        cluster.len() > 0,
        user.len() > 0,
    ensures
        ({
            let p = transfer::pointed(entry, name, Some(cluster), Some(user));
            let b = document::body_of(p, Kind::Context);
            &&& document::name_of(p) == Some(name)
            &&& b is Some
            &&& json::field(b->Some_0, "cluster"@) == Some(Json::Str(cluster))
            &&& json::field(b->Some_0, "user"@) == Some(Json::Str(user))
        }),
{
    reveal_strlit("name");
    reveal_strlit("context");
    reveal_strlit("cluster");
    reveal_strlit("user");
    assert("name"@.len() == 4 && "context"@.len() == 7 && "cluster"@.len() == 7);
    assert("user"@.len() == 4 && "context"@[1] == 'o' && "cluster"@[1] == 'l');
    let e = document::with_name(entry, name);
    json::put_then_field(document::fields_of(entry), "name"@, Json::Str(name));
    let b = json::as_fields(json::get(e, "context"@))->Some_0;
    assert(json::get(e, "context"@) == json::get(entry, "context"@));
    let b1 = json::put(b, "cluster"@, Json::Str(cluster));
    let b2 = json::put(b1, "user"@, Json::Str(user));
    json::put_then_field(b, "cluster"@, Json::Str(cluster));
    json::put_then_field(b1, "user"@, Json::Str(user));
    json::put_then_field(document::fields_of(e), "context"@, Json::Object(b2));
}

/// An entry that is there under the same name with another body is left alone: what comes gets a
/// name of its own, and the context refers to it by that.
pub proof fn different_entries_are_kept_apart(d: Json, from: Json, kind: Kind, name: Seq<char>)
    requires
        document::entry(from, kind, name) is Some,
        document::entry(d, kind, name) is Some,
        !json::equal(
            document::entry(d, kind, name)->Some_0,
            document::entry(from, kind, name)->Some_0,
        ),
    ensures
        ({
            let (e, new) = transfer::with_reference(d, from, kind, Some(name));
            &&& new is Some
            &&& new != Some(name)
            &&& !document::contains(d, kind, new->Some_0)
            &&& document::list(e, kind).len() == document::list(d, kind).len() + 1
            &&& document::name_of(document::list(e, kind).last()) == new
            &&& document::body_of(document::list(e, kind).last(), kind) == document::body(
                from,
                kind,
                name,
            )
        }),
{
    let theirs = document::entry(from, kind, name)->Some_0;
    let new = document::unique_name(d, kind, name);
    document::unique_name_is_free(d, kind, name);
    let copy = document::with_name(theirs, new);
    document::with_list_reads(d, kind, document::list(d, kind).push(copy));
    json::put_then_field(document::fields_of(theirs), "name"@, Json::Str(new));
    reveal_strlit("name");
    reveal_strlit("context");
    reveal_strlit("cluster");
    reveal_strlit("user");
    assert("name"@.len() == 4 && "context"@.len() == 7 && "cluster"@.len() == 7);
    assert("user"@[0] == 'u' && "name"@[0] == 'n');
    assert("name"@ != document::body_key(kind));
}

// ----- Values -----

/// Values are equal if they are the same, whatever the order of an object's keys: a different text,
/// number or kind of value, or a missing or different field, makes them different.
pub proof fn different_values_are_not_equal(a: Json, b: Json, x: Fields, y: Fields, key: Seq<char>)
    ensures
        a is Str && b is Str ==> (json::equal(a, b) <==> a->Str_0 == b->Str_0),
        a is Number && b is Number ==> (json::equal(a, b) <==> a->Number_0 == b->Number_0),
        a is Bool && b is Bool ==> (json::equal(a, b) <==> a->Bool_0 == b->Bool_0),
        a is Str && !(b is Str) ==> !json::equal(a, b),
        a is Object && !(b is Object) ==> !json::equal(a, b),
        a is Array && b is Array && a->Array_0.len() != b->Array_0.len() ==> !json::equal(a, b),
        json::equal(Json::Object(x), Json::Object(y)) ==> x.len() == y.len(),
        json::equal(Json::Object(x), Json::Object(y)) && json::has_key(x, key) ==> json::has_key(
            y,
            key,
        ) && json::equal(json::field(x, key)->Some_0, json::field(y, key)->Some_0),
{
    if json::equal(Json::Object(x), Json::Object(y)) && json::has_key(x, key) {
        json::lemma_key_index(x, key);
        json::lemma_key_index(y, key);
        let i = json::key_index(x, key);
        assert(x[i].0 == key);
    }
}

/// A new document is a kubeconfig without entries.
pub proof fn new_documents_are_empty_kubeconfigs()
    ensures
        json::text_at(document::empty_document(), "apiVersion"@) == Some("v1"@),
        json::text_at(document::empty_document(), "kind"@) == Some("Config"@),
        forall|k: Kind|
            #[trigger] document::list(document::empty_document(), k) == Seq::<Json>::empty(),
        document::current_context(document::empty_document()) is None,
{
    transfer_laws::lemma_empty_lists();
    let o = document::empty_document()->Object_0;
    reveal_strlit("apiVersion");
    reveal_strlit("kind");
    reveal_strlit("clusters");
    reveal_strlit("contexts");
    reveal_strlit("users");
    reveal_strlit("preferences");
    reveal_strlit("current-context");
    assert("apiVersion"@.len() == 10 && "kind"@.len() == 4 && "clusters"@.len() == 8);
    assert("contexts"@.len() == 8 && "users"@.len() == 5 && "preferences"@.len() == 11);
    assert("current-context"@.len() == 15);
    json::lemma_key_index_is(o, "apiVersion"@, 0);
    json::lemma_key_index_is(o, "kind"@, 1);
    json::lemma_key_index_is(o, "current-context"@, 6);
}

// ----- Taking contexts out -----

/// A context is taken out with exactly the cluster and the user that it refers to, as they stand.
pub proof fn extracts_hold_what_the_context_refers_to(
    d: Json,
    context: Seq<char>,
    cluster: Seq<char>,
    user: Seq<char>,
)
    requires
        document::contains(d, Kind::Context, context),
        context.len() > 0,
        document::context_reference(d, context, Kind::Cluster) == Some(cluster),
        document::context_reference(d, context, Kind::User) == Some(user),
        document::entry(d, Kind::Cluster, cluster) is Some,
        document::entry(d, Kind::User, user) is Some,
    ensures
        ({
            let e = transfer::extracted(d, context, true)->Some_0;
            let bare = transfer::extracted(d, context, false)->Some_0;
            &&& transfer::extracted(d, context, true) is Some
            &&& document::list(e, Kind::Context) == seq![
                document::entry(d, Kind::Context, context)->Some_0,
            ]
            &&& document::list(e, Kind::Cluster) == seq![
                document::entry(d, Kind::Cluster, cluster)->Some_0,
            ]
            &&& document::list(e, Kind::User) == seq![
                document::entry(d, Kind::User, user)->Some_0,
            ]
            &&& document::current_context(e) == Some(context)
            &&& document::list(bare, Kind::Cluster) == document::list(e, Kind::Cluster)
            &&& document::list(bare, Kind::Context) == document::list(e, Kind::Context)
            &&& document::list(bare, Kind::User).len() == 1
            &&& document::name_of(document::list(bare, Kind::User)[0]) == Some(user)
        }),
{
    transfer_laws::extracted_document_is_one_context(d, context, true);
    transfer_laws::extracted_document_is_one_context(d, context, false);
    let u = document::entry(d, Kind::User, user)->Some_0;
    document::lemma_name_index(document::list(d, Kind::User), user);
    assert(document::name_of(u) == Some(user));
    if let Some(b) = document::body_of(u, Kind::User) {
        reveal_strlit("name");
        reveal_strlit("user");
        assert("user"@[0] == 'u' && "name"@[0] == 'n');
        json::put_then_field(
            document::fields_of(u),
            "user"@,
            Json::Object(crate::credentials::stripped(b)),
        );
    }
}

/// A list that is `null` is read as an empty one; lists with entries stay.
pub proof fn null_lists_are_empty(d: Json, kind: Kind)
    ensures
        document::list(transfer::with_lists(d), kind) == document::list(d, kind),
        json::get(d, document::list_key(kind)) == Some(Json::Null) ==> json::get(
            transfer::with_lists(d),
            document::list_key(kind),
        ) == Some(Json::Array(seq![])),
{
    document::lemma_keys_differ();
    let a = transfer::without_null(d, Kind::Context);
    let b = transfer::without_null(a, Kind::Cluster);
    lemma_without_null(d, Kind::Context);
    lemma_without_null(a, Kind::Cluster);
    lemma_without_null(b, Kind::User);
}

proof fn lemma_without_null(d: Json, kind: Kind)
    ensures
        forall|k: Kind|
            #[trigger] document::list(transfer::without_null(d, kind), k) == document::list(d, k),
        forall|k: Kind|
            k != kind ==> json::get(
                transfer::without_null(d, kind),
                #[trigger] document::list_key(k),
            ) == json::get(d, document::list_key(k)),
        json::get(d, document::list_key(kind)) == Some(Json::Null) ==> json::get(
            transfer::without_null(d, kind),
            document::list_key(kind),
        ) == Some(Json::Array(seq![])),
{
    document::lemma_keys_differ();
    if json::get(d, document::list_key(kind)) == Some(Json::Null) {
        document::with_list_reads(d, kind, seq![]);
        json::put_then_field(
            document::fields_of(d),
            document::list_key(kind),
            Json::Array(seq![]),
        );
        assert forall|k: Kind|
            #[trigger] document::list(transfer::without_null(d, kind), k) == document::list(
                d,
                k,
            ) by {
            if k == kind {
                assert(document::list(d, k) =~= seq![]);
            }
        }
    }
}

proof fn lemma_reference_elsewhere(d: Json, from: Json, kind: Kind, name: Option<Seq<char>>)
    requires
        kind != Kind::Context,
    ensures
        document::list(transfer::with_reference(d, from, kind, name).0, Kind::Context)
            == document::list(d, Kind::Context),
{
    if let Some(n) = name {
        if let Some(theirs) = document::entry(from, kind, n) {
            let copy = document::with_name(theirs, document::unique_name(d, kind, n));
            document::with_list_reads(d, kind, document::list(d, kind).push(copy));
        }
    }
}

/// Importing a context adds one context.
pub proof fn imports_add_one_context(d: Json, from: Json, context: Seq<char>)
    requires
        document::contains(from, Kind::Context, context),
    ensures
        document::list(
            transfer::imported(d, from, context)->Some_0.0,
            Kind::Context,
        ).len() == document::list(d, Kind::Context).len() + 1,
{
    let a = document::context_reference(from, context, Kind::Cluster);
    let b = document::context_reference(from, context, Kind::User);
    let (d1, cluster) = transfer::with_reference(d, from, Kind::Cluster, a);
    let (d2, user) = transfer::with_reference(d1, from, Kind::User, b);
    lemma_reference_elsewhere(d, from, Kind::Cluster, a);
    lemma_reference_elsewhere(d1, from, Kind::User, b);
    let name = document::unique_name(d2, Kind::Context, context);
    let entry = document::entry(from, Kind::Context, context)->Some_0;
    document::with_list_reads(
        d2,
        Kind::Context,
        document::list(d2, Kind::Context).push(transfer::pointed(entry, name, cluster, user)),
    );
}

} // verus!
