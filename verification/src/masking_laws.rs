//! Laws of masking a document: it shows no secret, what was taken out is what stood there, and it
//! can be put back.

use crate::credentials;
use crate::document;
use crate::json::{self, Fields, Json};
use crate::laws;
use crate::model::Kind;
use crate::paths;
use crate::transfer::{self, Taken};
use vstd::prelude::*;

verus! {

// ----- What a masked document shows -----

/// Masking keeps an object an object.
proof fn lemma_masked_object(o: Fields, at: Seq<Seq<Seq<char>>>, placeholder: Seq<char>)
    requires
        forall|i: int| 0 <= i < at.len() ==> (#[trigger] at[i]).len() > 0,
    ensures
        credentials::masked(Json::Object(o), at, placeholder) is Object,
    decreases at.len(),
{
    if at.len() > 0 {
        let fewer = at.drop_last();
        assert forall|i: int| 0 <= i < fewer.len() implies (#[trigger] fewer[i]).len() > 0 by {
            assert(fewer[i] == at[i]);
        }
        lemma_masked_object(o, fewer, placeholder);
        assert(at[at.len() - 1].len() > 0);
    }
}

/// What stands at the paths of masked texts, and what stands elsewhere.
proof fn lemma_masked_at(v: Json, at: Seq<Seq<Seq<char>>>, placeholder: Seq<char>, k: int)
    requires
        credentials::apart(at),
        0 <= k < at.len(),
    ensures
        paths::deep(credentials::masked(v, at, placeholder), at[k]) == match paths::deep(v, at[k]) {
            Some(Json::Str(_)) => Some(Json::Str(placeholder)),
            other => other,
        },
    decreases at.len(),
{
    let fewer = at.drop_last();
    let before = credentials::masked(v, fewer, placeholder);
    let last = at.len() - 1;
    assert forall|i: int, j: int| 0 <= i < j < fewer.len() implies paths::diverge(
        #[trigger] fewer[i],
        #[trigger] fewer[j],
    ) by {
        assert(fewer[i] == at[i] && fewer[j] == at[j]);
    }
    if k < last {
        lemma_masked_at(v, fewer, placeholder, k);
        assert(fewer[k] == at[k]);
        assert(paths::diverge(at[k], at[last]));
        paths::diverge_both_ways(at[k], at[last]);
        paths::replace_elsewhere(before, at[last], Json::Str(placeholder), at[k]);
    } else {
        assert forall|i: int| 0 <= i < fewer.len() implies paths::diverge(
            #[trigger] fewer[i],
            at[last],
        ) by {
            assert(fewer[i] == at[i]);
        }
        credentials::masked_elsewhere(v, fewer, placeholder, at[last]);
        if paths::deep(before, at[last]) is Some {
            paths::replace_then_restore(before, at[last], Json::Str(placeholder));
        }
    }
}

/// The user entry at a place of a document.
pub open spec fn user_at(d: Json, place: int) -> Json {
    document::list(d, Kind::User)[place]
}

/// The user entries of a masked document stand where they stood, each with its secrets masked.
proof fn lemma_masked_list(d: Json, placeholder: Seq<char>, place: int)
    requires
        0 <= place < document::list(d, Kind::User).len(),
    ensures
        document::list(transfer::with_masked_users(d, placeholder), Kind::User).len()
            == document::list(d, Kind::User).len(),
        user_at(transfer::with_masked_users(d, placeholder), place) == transfer::masked_user(
            user_at(d, place),
            placeholder,
        ),
{
    let users = document::list(d, Kind::User);
    document::with_list_reads(
        d,
        Kind::User,
        Seq::new(users.len(), |i: int| transfer::masked_user(users[i], placeholder)),
    );
}

/// The body of a masked user entry is its body, masked.
proof fn lemma_masked_body(entry: Json, b: Fields, placeholder: Seq<char>)
    requires
        document::body_of(entry, Kind::User) == Some(b),
    ensures
        ({
            let shown = credentials::masked(
                Json::Object(b),
                credentials::secret_paths(b),
                placeholder,
            );
            let after = transfer::masked_user(entry, placeholder);
            &&& shown is Object
            &&& document::body_of(after, Kind::User) == Some(shown->Object_0)
            &&& forall|key: Seq<char>|
                key != document::body_key(Kind::User) ==> #[trigger] json::get(after, key)
                    == json::get(entry, key)
        }),
{
    credentials::lemma_secret_paths_not_empty(b);
    lemma_masked_object(b, credentials::secret_paths(b), placeholder);
    let shown = credentials::masked(Json::Object(b), credentials::secret_paths(b), placeholder);
    json::put_then_field(document::fields_of(entry), document::body_key(Kind::User), shown);
}

/// A masked document shows no secret: of every user of the list, named or not, wherever a text
/// stood at the path of a secret, there is the placeholder.
pub proof fn masked_documents_show_no_secret(
    d: Json,
    placeholder: Seq<char>,
    place: int,
    b: Fields,
    k: int,
)
    requires
        0 <= place < document::list(d, Kind::User).len(),
        document::body_of(user_at(d, place), Kind::User) == Some(b),
        0 <= k < credentials::secret_paths(b).len(),
        paths::deep(Json::Object(b), credentials::secret_paths(b)[k]) matches Some(Json::Str(_)),
    ensures
        ({
            let after = transfer::with_masked_users(d, placeholder);
            let shown = document::body_of(user_at(after, place), Kind::User);
            &&& shown is Some
            &&& paths::deep(Json::Object(shown->Some_0), credentials::secret_paths(b)[k]) == Some(
                Json::Str(placeholder),
            )
        }),
{
    lemma_masked_list(d, placeholder, place);
    lemma_masked_body(user_at(d, place), b, placeholder);
    credentials::lemma_secret_paths_apart(b);
    lemma_masked_at(Json::Object(b), credentials::secret_paths(b), placeholder, k);
}

/// Masking changes nothing but secrets: the other lists and the document's other fields stay,
/// and so do the fields of every user entry but its body, and in the body whatever stands at a
/// path that parts from those of the secrets.
pub proof fn masking_changes_secrets_only(
    d: Json,
    placeholder: Seq<char>,
    place: int,
    path: Seq<Seq<char>>,
)
    requires
        0 <= place < document::list(d, Kind::User).len(),
    ensures
        ({
            let after = transfer::with_masked_users(d, placeholder);
            let old_user = user_at(d, place);
            let new_user = user_at(after, place);
            &&& forall|key: Seq<char>|
                key != document::list_key(Kind::User) ==> #[trigger] json::get(after, key)
                    == json::get(d, key)
            &&& document::list(after, Kind::User).len() == document::list(d, Kind::User).len()
            &&& forall|key: Seq<char>|
                key != document::body_key(Kind::User) ==> #[trigger] json::get(new_user, key)
                    == json::get(old_user, key)
            &&& match document::body_of(old_user, Kind::User) {
                None => new_user == old_user,
                Some(b) => document::body_of(new_user, Kind::User) is Some && ((forall|k: int|
                    0 <= k < credentials::secret_paths(b).len() ==> paths::diverge(
                        #[trigger] credentials::secret_paths(b)[k],
                        path,
                    )) ==> paths::deep(
                    Json::Object(document::body_of(new_user, Kind::User)->Some_0),
                    path,
                ) == paths::deep(Json::Object(b), path)),
            }
        }),
{
    let users = document::list(d, Kind::User);
    let entries = Seq::new(users.len(), |i: int| transfer::masked_user(users[i], placeholder));
    json::put_then_field(
        document::fields_of(d),
        document::list_key(Kind::User),
        Json::Array(entries),
    );
    lemma_masked_list(d, placeholder, place);
    if let Some(b) = document::body_of(user_at(d, place), Kind::User) {
        lemma_masked_body(user_at(d, place), b, placeholder);
        let at = credentials::secret_paths(b);
        if forall|k: int| 0 <= k < at.len() ==> paths::diverge(#[trigger] at[k], path) {
            credentials::masked_elsewhere(Json::Object(b), at, placeholder, path);
        }
    }
}

// ----- What was taken out -----

/// Each text found at paths is what stands at one of them.
proof fn lemma_texts_at(v: Json, at: Seq<Seq<Seq<char>>>, j: int)
    requires
        0 <= j < credentials::texts_at(v, at).len(),
    ensures
        ({
            let (path, s) = credentials::texts_at(v, at)[j];
            at.contains(path) && paths::deep(v, path) == Some(Json::Str(s))
        }),
    decreases at.len(),
{
    if at.len() > 0 {
        let fewer = at.drop_last();
        let before = credentials::texts_at(v, fewer);
        if j < before.len() {
            lemma_texts_at(v, fewer, j);
            let i = choose|i: int| 0 <= i < fewer.len() && fewer[i] == before[j].0;
            assert(at[i] == before[j].0);
        } else {
            assert(at[at.len() - 1] == credentials::texts_at(v, at)[j].0);
        }
    }
}

/// Each text at the paths is found.
proof fn lemma_texts_found(v: Json, at: Seq<Seq<Seq<char>>>, k: int, s: Seq<char>)
    requires
        0 <= k < at.len(),
        paths::deep(v, at[k]) == Some(Json::Str(s)),
    ensures
        credentials::texts_at(v, at).contains((at[k], s)),
    decreases at.len(),
{
    let fewer = at.drop_last();
    let before = credentials::texts_at(v, fewer);
    let all = credentials::texts_at(v, at);
    if k < fewer.len() {
        lemma_texts_found(v, fewer, k, s);
        let j = choose|j: int| 0 <= j < before.len() && before[j] == (at[k], s);
        assert(all[j] == (at[k], s));
    } else {
        assert(all[all.len() - 1] == (at[k], s));
    }
}

/// Paths that part aren't the same.
proof fn lemma_diverging_paths_differ(p: Seq<Seq<char>>)
    ensures
        !paths::diverge(p, p),
    decreases p.len(),
{
    if p.len() > 0 {
        lemma_diverging_paths_differ(p.drop_first());
    }
}

/// No text is found twice at paths that part from each other.
proof fn lemma_texts_once(v: Json, at: Seq<Seq<Seq<char>>>, i: int, j: int)
    requires
        credentials::apart(at),
        0 <= i < j < credentials::texts_at(v, at).len(),
    ensures
        credentials::texts_at(v, at)[i].0 != credentials::texts_at(v, at)[j].0,
    decreases at.len(),
{
    if at.len() > 0 {
        let fewer = at.drop_last();
        let before = credentials::texts_at(v, fewer);
        assert forall|a: int, b: int| 0 <= a < b < fewer.len() implies paths::diverge(
            #[trigger] fewer[a],
            #[trigger] fewer[b],
        ) by {
            assert(fewer[a] == at[a] && fewer[b] == at[b]);
        }
        if j < before.len() {
            lemma_texts_once(v, fewer, i, j);
        } else {
            lemma_texts_at(v, fewer, i);
            let a = choose|a: int| 0 <= a < fewer.len() && fewer[a] == before[i].0;
            assert(paths::diverge(at[a], at[at.len() - 1]));
            lemma_diverging_paths_differ(at[a]);
        }
    }
}

/// Where in the list of what was taken the items of a user begin.
spec fn first_of(users: Seq<Json>, place: int) -> int {
    transfer::taken_from_users(users.take(place)).len() as int
}

/// What was taken from the user at a place stands in one piece.
proof fn lemma_taken_slice(users: Seq<Json>, place: int, j: int)
    requires
        0 <= place < users.len(),
        0 <= j < transfer::taken_from_user(users[place], place).len(),
    ensures
        first_of(users, place) + j < transfer::taken_from_users(users).len(),
        transfer::taken_from_users(users)[first_of(users, place) + j]
            == transfer::taken_from_user(users[place], place)[j],
    decreases users.len(),
{
    let fewer = users.drop_last();
    if place < fewer.len() {
        lemma_taken_slice(fewer, place, j);
        assert(fewer.take(place) =~= users.take(place));
    } else {
        assert(users.take(place) =~= fewer);
    }
}

/// Everything that was taken was taken from some user.
proof fn lemma_taken_from_whom(users: Seq<Json>, n: int) -> (r: (int, int))
    requires
        0 <= n < transfer::taken_from_users(users).len(),
    ensures
        0 <= r.0 < users.len(),
        0 <= r.1 < transfer::taken_from_user(users[r.0], r.0).len(),
        n == first_of(users, r.0) + r.1,
    decreases users.len(),
{
    let fewer = users.drop_last();
    let before = transfer::taken_from_users(fewer);
    if n < before.len() {
        let r = lemma_taken_from_whom(fewer, n);
        assert(fewer.take(r.0) =~= users.take(r.0));
        r
    } else {
        let place = users.len() - 1;
        assert(users.take(place) =~= fewer);
        (place, n - before.len())
    }
}

/// Each item that masking returns is a secret that stood in the document, and where it stood
/// there is now the placeholder.
pub proof fn what_masking_takes_stood_there(d: Json, placeholder: Seq<char>, n: int)
    requires
        0 <= n < transfer::taken_from_users(document::list(d, Kind::User)).len(),
    ensures
        ({
            let (name, path, s, place) = transfer::taken_from_users(
                document::list(d, Kind::User),
            )[n];
            let body = document::body_of(user_at(d, place), Kind::User);
            let after = transfer::with_masked_users(d, placeholder);
            let shown = document::body_of(user_at(after, place), Kind::User);
            &&& 0 <= place < document::list(d, Kind::User).len()
            &&& name == transfer::name_or_nothing(user_at(d, place))
            &&& body is Some
            &&& credentials::secret_paths(body->Some_0).contains(path)
            &&& paths::deep(Json::Object(body->Some_0), path) == Some(Json::Str(s))
            &&& shown is Some
            &&& paths::deep(Json::Object(shown->Some_0), path) == Some(Json::Str(placeholder))
        }),
{
    let users = document::list(d, Kind::User);
    let (place, j) = lemma_taken_from_whom(users, n);
    lemma_taken_slice(users, place, j);
    let b = document::body_of(users[place], Kind::User)->Some_0;
    let at = credentials::secret_paths(b);
    lemma_texts_at(Json::Object(b), at, j);
    let path = credentials::texts_at(Json::Object(b), at)[j].0;
    let k = choose|k: int| 0 <= k < at.len() && at[k] == path;
    masked_documents_show_no_secret(d, placeholder, place, b, k);
}

/// Masking returns every text that stands at the path of a secret.
pub proof fn masking_takes_every_secret(d: Json, place: int, b: Fields, k: int, s: Seq<char>)
    requires
        0 <= place < document::list(d, Kind::User).len(),
        document::body_of(user_at(d, place), Kind::User) == Some(b),
        0 <= k < credentials::secret_paths(b).len(),
        paths::deep(Json::Object(b), credentials::secret_paths(b)[k]) == Some(Json::Str(s)),
    ensures
        transfer::taken_from_users(document::list(d, Kind::User)).contains(
            (
                transfer::name_or_nothing(user_at(d, place)),
                credentials::secret_paths(b)[k],
                s,
                place,
            ),
        ),
{
    let users = document::list(d, Kind::User);
    let at = credentials::secret_paths(b);
    lemma_texts_found(Json::Object(b), at, k, s);
    let found = credentials::texts_at(Json::Object(b), at);
    let j = choose|j: int| 0 <= j < found.len() && found[j] == (at[k], s);
    lemma_taken_slice(users, place, j);
    assert(transfer::taken_from_users(users)[first_of(users, place) + j] == (
        transfer::name_or_nothing(users[place]),
        at[k],
        s,
        place,
    ));
}

/// Masking returns each secret once: no two items are of the same path of the same user.
pub proof fn masking_takes_each_secret_once(d: Json, m: int, n: int)
    requires
        0 <= m < n < transfer::taken_from_users(document::list(d, Kind::User)).len(),
    ensures
        ({
            let all = transfer::taken_from_users(document::list(d, Kind::User));
            all[m].3 != all[n].3 || all[m].1 != all[n].1
        }),
{
    let users = document::list(d, Kind::User);
    let (p, i) = lemma_taken_from_whom(users, m);
    let (q, j) = lemma_taken_from_whom(users, n);
    lemma_taken_slice(users, p, i);
    lemma_taken_slice(users, q, j);
    if p == q {
        let b = document::body_of(users[p], Kind::User)->Some_0;
        credentials::lemma_secret_paths_apart(b);
        lemma_texts_once(Json::Object(b), credentials::secret_paths(b), i, j);
    }
}

// ----- The way back -----

/// A user entry with a text put back in its body.
pub open spec fn with_text(entry: Json, path: Seq<Seq<char>>, s: Seq<char>) -> Json {
    match document::body_of(entry, Kind::User) {
        Some(b) => document::with_field(
            entry,
            document::body_key(Kind::User),
            paths::with_deep(Json::Object(b), path, Json::Str(s)),
        ),
        None => entry,
    }
}

/// User entries with secrets put back where they stood, the last one first.
pub open spec fn put_back_in(users: Seq<Json>, taken: Seq<Taken>) -> Seq<Json>
    decreases taken.len(),
{
    if taken.len() == 0 {
        users
    } else {
        let (_, path, s, place) = taken.last();
        put_back_in(users.update(place, with_text(users[place], path, s)), taken.drop_last())
    }
}

/// The document with secrets put back where they stood, the last one first.
pub open spec fn put_back(d: Json, taken: Seq<Taken>) -> Json {
    if document::list(d, Kind::User).len() == 0 {
        d
    } else {
        document::with_list(d, Kind::User, put_back_in(document::list(d, Kind::User), taken))
    }
}

/// What is put back of two lists: first the second one.
proof fn lemma_put_back_both(users: Seq<Json>, a: Seq<Taken>, b: Seq<Taken>)
    ensures
        put_back_in(users, a + b) == put_back_in(put_back_in(users, b), a),
    decreases b.len(),
{
    if b.len() > 0 {
        assert((a + b).drop_last() =~= a + b.drop_last());
        let (_, path, s, place) = b.last();
        lemma_put_back_both(
            users.update(place, with_text(users[place], path, s)),
            a,
            b.drop_last(),
        );
    } else {
        assert(a + b =~= a);
    }
}

/// Putting back the secrets of one user is putting them back in the user's body.
proof fn lemma_put_back_user(
    users: Seq<Json>,
    place: int,
    body: Fields,
    name: Seq<char>,
    taken: Seq<(Seq<Seq<char>>, Seq<char>)>,
)
    requires
        0 <= place < users.len(),
        forall|i: int| 0 <= i < taken.len() ==> (#[trigger] taken[i]).0.len() > 0,
    ensures
        put_back_in(
            users.update(
                place,
                document::with_field(
                    users[place],
                    document::body_key(Kind::User),
                    Json::Object(body),
                ),
            ),
            Seq::new(taken.len(), |i: int| (name, taken[i].0, taken[i].1, place)),
        ) == users.update(
            place,
            document::with_field(
                users[place],
                document::body_key(Kind::User),
                credentials::restored(Json::Object(body), taken),
            ),
        ),
    decreases taken.len(),
{
    let key = document::body_key(Kind::User);
    let all = Seq::new(taken.len(), |i: int| (name, taken[i].0, taken[i].1, place));
    if taken.len() > 0 {
        let fields = document::fields_of(users[place]);
        let now = document::with_field(users[place], key, Json::Object(body));
        let (path, s) = taken.last();
        assert(taken[taken.len() - 1].0.len() > 0);
        let next = paths::with_deep(Json::Object(body), path, Json::Str(s));
        assert(next is Object);
        json::put_then_field(fields, key, Json::Object(body));
        json::put_twice(fields, key, Json::Object(body), next);
        assert(with_text(now, path, s) == document::with_field(users[place], key, next));
        assert(users.update(place, now).update(place, with_text(now, path, s)) =~= users.update(
            place,
            document::with_field(users[place], key, next),
        ));
        let rest = taken.drop_last();
        assert forall|i: int| 0 <= i < rest.len() implies (#[trigger] rest[i]).0.len() > 0 by {
            assert(rest[i] == taken[i]);
        }
        lemma_put_back_user(users, place, next->Object_0, name, rest);
        assert(all.drop_last() =~= Seq::new(
            rest.len(),
            |i: int| (name, rest[i].0, rest[i].1, place),
        ));
    }
}

/// Putting back what masking took out of the user at a place gives the entry as it was.
proof fn lemma_user_put_back(
    users: Seq<Json>,
    place: int,
    entry: Json,
    placeholder: Seq<char>,
)
    requires
        0 <= place < users.len(),
        users[place] == transfer::masked_user(entry, placeholder),
    ensures
        put_back_in(users, transfer::taken_from_user(entry, place)) == users.update(place, entry),
{
    match document::body_of(entry, Kind::User) {
        None => {
            assert(users.update(place, entry) =~= users);
        },
        Some(b) => {
            let key = document::body_key(Kind::User);
            let at = credentials::secret_paths(b);
            let v = Json::Object(b);
            let taken = credentials::texts_at(v, at);
            let shown = credentials::masked(v, at, placeholder);
            lemma_masked_body(entry, b, placeholder);
            credentials::lemma_secret_paths_not_empty(b);
            credentials::lemma_secret_paths_apart(b);
            assert forall|i: int| 0 <= i < taken.len() implies (#[trigger] taken[i]).0.len() > 0 by {
                lemma_texts_at(v, at, i);
                let k = choose|k: int| 0 <= k < at.len() && at[k] == taken[i].0;
                assert(at[k].len() > 0);
            }
            let before = users.update(place, entry);
            lemma_put_back_user(
                before,
                place,
                shown->Object_0,
                transfer::name_or_nothing(entry),
                taken,
            );
            assert(before.update(place, document::with_field(entry, key, shown)) =~= users);
            laws::masked_secrets_can_be_put_back(v, at, placeholder);
            json::put_same(document::fields_of(entry), key, v);
            assert(before.update(place, entry) =~= before);
        },
    }
}

/// Putting back what masking took out of the first users gives them as they were.
proof fn lemma_users_put_back(
    now: Seq<Json>,
    users: Seq<Json>,
    placeholder: Seq<char>,
)
    requires
        users.len() <= now.len(),
        forall|i: int|
            0 <= i < users.len() ==> (#[trigger] now[i]) == transfer::masked_user(
                users[i],
                placeholder,
            ),
    ensures
        put_back_in(now, transfer::taken_from_users(users)) == users + now.skip(
            users.len() as int,
        ),
    decreases users.len(),
{
    if users.len() == 0 {
        assert(users + now.skip(0) =~= now);
    } else {
        let fewer = users.drop_last();
        let place = users.len() - 1;
        lemma_put_back_both(
            now,
            transfer::taken_from_users(fewer),
            transfer::taken_from_user(users.last(), place),
        );
        lemma_user_put_back(now, place, users.last(), placeholder);
        let next = now.update(place, users.last());
        assert forall|i: int| 0 <= i < fewer.len() implies (#[trigger] next[i])
            == transfer::masked_user(fewer[i], placeholder) by {
            assert(next[i] == now[i] && fewer[i] == users[i]);
        }
        lemma_users_put_back(next, fewer, placeholder);
        assert(fewer + next.skip(place) =~= users + now.skip(users.len() as int));
    }
}

/// What masking took out of a document, put back where it stood, gives the document as it was.
pub proof fn masked_documents_can_be_restored(d: Json, placeholder: Seq<char>)
    ensures
        put_back(
            transfer::with_masked_users(d, placeholder),
            transfer::taken_from_users(document::list(d, Kind::User)),
        ) == d,
{
    let users = document::list(d, Kind::User);
    if users.len() > 0 {
        let entries = Seq::new(users.len(), |i: int| transfer::masked_user(users[i], placeholder));
        document::with_list_reads(d, Kind::User, entries);
        lemma_users_put_back(entries, users, placeholder);
        assert(users + entries.skip(users.len() as int) =~= users);
        let key = document::list_key(Kind::User);
        json::put_twice(document::fields_of(d), key, Json::Array(entries), Json::Array(users));
        json::put_same(document::fields_of(d), key, Json::Array(users));
    }
}

} // verus!
