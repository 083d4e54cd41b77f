//! Laws of the problems of a document: no message depends on what a secret is.

use crate::certs::Moment;
use crate::credentials;
use crate::document;
use crate::fields;
use crate::issues;
use crate::json::{self, Fields, Json};
use crate::model::Kind;
use crate::paths;
use crate::users::AuthKind;
use crate::validate::Facts;
use vstd::prelude::*;

verus! {

/// A user body with another token.
pub open spec fn with_token(b: Fields, token: Seq<char>) -> Fields {
    json::put(b, "token"@, Json::Str(token))
}

/// A user entry with another token.
pub open spec fn entry_with_token(entry: Json, token: Seq<char>) -> Json {
    match document::body_of(entry, Kind::User) {
        Some(b) => document::with_field(
            entry,
            document::body_key(Kind::User),
            Json::Object(with_token(b, token)),
        ),
        None => entry,
    }
}

/// A document with another token in the user entry at a place.
pub open spec fn document_with_token(d: Json, place: int, token: Seq<char>) -> Json {
    let users = document::list(d, Kind::User);
    document::with_list(d, Kind::User, users.update(place, entry_with_token(users[place], token)))
}

/// When a token expired, if it did.
pub open spec fn expired_at(facts: Facts, token: Seq<char>, now: Moment) -> Option<Moment> {
    match issues::expiry_of(facts.expiries@, token) {
        Some(at) if at.nanoseconds() < now.nanoseconds() => Some(at),
        _ => None,
    }
}

proof fn lemma_other_keys()
    ensures
        "exec"@ != "token"@,
        "auth-provider"@ != "token"@,
        "tokenFile"@ != "token"@,
        "username"@ != "token"@,
        "password"@ != "token"@,
        fields::CERT_FILE@ != "token"@,
        fields::CERT_DATA@ != "token"@,
        fields::KEY_FILE@ != "token"@,
        fields::KEY_DATA@ != "token"@,
{
    reveal_strlit("token");
    reveal_strlit("exec");
    reveal_strlit("auth-provider");
    reveal_strlit("tokenFile");
    reveal_strlit("username");
    reveal_strlit("password");
    reveal_strlit("client-certificate");
    reveal_strlit("client-certificate-data");
    reveal_strlit("client-key");
    reveal_strlit("client-key-data");
    assert("token"@.len() == 5);
}

/// What stands at a path depends on the field under its first key.
proof fn lemma_same_text(a: Fields, b: Fields, path: Seq<Seq<char>>)
    requires
        path.len() > 0,
        json::field(a, path[0]) == json::field(b, path[0]),
    ensures
        paths::text(a, path) == paths::text(b, path),
{
}

/// The problems of a user don't tell its token.
proof fn lemma_user_issues(
    name: Seq<char>,
    b: Fields,
    old_token: Seq<char>,
    token: Seq<char>,
    facts: Facts,
    now: Moment,
)
    requires
        json::field(b, "token"@) == Some(Json::Str(old_token)),
        old_token.len() > 0,
        token.len() > 0,
        expired_at(facts, old_token, now) == expired_at(facts, token, now),
    ensures
        issues::user_issues(name, with_token(b, token), facts, now) == issues::user_issues(
            name,
            b,
            facts,
            now,
        ),
{
    let c = with_token(b, token);
    lemma_other_keys();
    json::put_then_field(b, "token"@, Json::Str(token));
    assert(json::field(c, "exec"@) == json::field(b, "exec"@));
    assert(json::field(c, "auth-provider"@) == json::field(b, "auth-provider"@));
    assert(json::field(c, "tokenFile"@) == json::field(b, "tokenFile"@));
    assert(json::has_key(c, "exec"@) == json::has_key(b, "exec"@));
    assert(json::has_key(c, "auth-provider"@) == json::has_key(b, "auth-provider"@));
    assert(json::has_key(c, "tokenFile"@) == json::has_key(b, "tokenFile"@));
    assert(json::has_key(c, "username"@) == json::has_key(b, "username"@));
    assert(json::has_key(c, "password"@) == json::has_key(b, "password"@));
    assert(json::has_key(c, fields::CERT_FILE@) == json::has_key(b, fields::CERT_FILE@));
    assert(json::has_key(c, fields::CERT_DATA@) == json::has_key(b, fields::CERT_DATA@));
    assert(credentials::auth_kind(c) == credentials::auth_kind(b));
    match credentials::auth_kind(b) {
        AuthKind::ClientCertificate => {
            lemma_same_text(c, b, seq![fields::CERT_FILE@]);
            lemma_same_text(c, b, seq![fields::CERT_DATA@]);
            lemma_same_text(c, b, seq![fields::KEY_FILE@]);
            lemma_same_text(c, b, seq![fields::KEY_DATA@]);
        },
        AuthKind::Token => {
            assert(paths::text(c, seq!["token"@]) == token);
            assert(paths::text(b, seq!["token"@]) == old_token);
        },
        AuthKind::TokenFile => {
            lemma_same_text(c, b, seq!["tokenFile"@]);
        },
        AuthKind::Exec => {
            lemma_same_text(c, b, seq!["exec"@, "command"@]);
            lemma_same_text(c, b, seq!["exec"@, "apiVersion"@]);
        },
        AuthKind::OidcProvider => {
            lemma_same_text(c, b, seq!["auth-provider"@, "config"@, "idp-issuer-url"@]);
            lemma_same_text(c, b, seq!["auth-provider"@, "config"@, "client-id"@]);
        },
        _ => {},
    }
}

/// Lists whose entries have the same names, and bodies with the same problems.
spec fn alike(x: Seq<Json>, y: Seq<Json>, facts: Facts, now: Moment) -> bool {
    &&& x.len() == y.len()
    &&& forall|i: int|
        0 <= i < x.len() ==> document::name_of(#[trigger] x[i]) == document::name_of(y[i])
    &&& forall|i: int, name: Seq<char>|
        0 <= i < x.len() ==> issues::user_issues(
            name,
            issues::body_or_empty(document::body_of(#[trigger] x[i], Kind::User)),
            facts,
            now,
        ) == #[trigger] issues::user_issues(
            name,
            issues::body_or_empty(document::body_of(y[i], Kind::User)),
            facts,
            now,
        )
}

proof fn lemma_alike(x: Seq<Json>, y: Seq<Json>, facts: Facts, now: Moment)
    requires
        alike(x, y, facts, now),
    ensures
        document::names_in(x) == document::names_in(y),
        issues::unnamed(x) == issues::unnamed(y),
        issues::all_user_issues(document::bodies_in(x, Kind::User), facts, now)
            == issues::all_user_issues(document::bodies_in(y, Kind::User), facts, now),
    decreases x.len(),
{
    if x.len() > 0 {
        let a = x.drop_last();
        let b = y.drop_last();
        let last = x.len() - 1;
        assert forall|i: int| 0 <= i < a.len() implies document::name_of(#[trigger] a[i])
            == document::name_of(b[i]) by {
            assert(a[i] == x[i] && b[i] == y[i]);
        }
        assert forall|i: int, name: Seq<char>| 0 <= i < a.len() implies issues::user_issues(
            name,
            issues::body_or_empty(document::body_of(#[trigger] a[i], Kind::User)),
            facts,
            now,
        ) == #[trigger] issues::user_issues(
            name,
            issues::body_or_empty(document::body_of(b[i], Kind::User)),
            facts,
            now,
        ) by {
            assert(a[i] == x[i] && b[i] == y[i]);
        }
        lemma_alike(a, b, facts, now);
        assert(document::name_of(x[last]) == document::name_of(y[last]));
        if let Some(name) = document::name_of(x[last]) {
            let p = document::bodies_in(x, Kind::User);
            let q = document::bodies_in(y, Kind::User);
            assert(p.drop_last() =~= document::bodies_in(a, Kind::User));
            assert(q.drop_last() =~= document::bodies_in(b, Kind::User));
            assert(issues::user_issues(
                name,
                issues::body_or_empty(document::body_of(x[last], Kind::User)),
                facts,
                now,
            ) == issues::user_issues(
                name,
                issues::body_or_empty(document::body_of(y[last], Kind::User)),
                facts,
                now,
            ));
        }
    }
}

/// The first entry of a name stands at the same place in lists with the same names.
proof fn lemma_same_index(x: Seq<Json>, y: Seq<Json>, name: Seq<char>)
    requires
        x.len() == y.len(),
        forall|i: int|
            0 <= i < x.len() ==> document::name_of(#[trigger] x[i]) == document::name_of(y[i]),
    ensures
        document::name_index(x, name) == document::name_index(y, name),
    decreases x.len(),
{
    if x.len() > 0 {
        let a = x.drop_first();
        let b = y.drop_first();
        assert(document::name_of(x[0]) == document::name_of(y[0]));
        assert forall|i: int| 0 <= i < a.len() implies document::name_of(#[trigger] a[i])
            == document::name_of(b[i]) by {
            assert(a[i] == x[i + 1] && b[i] == y[i + 1]);
        }
        lemma_same_index(a, b, name);
    }
}

proof fn lemma_context_issues(d: Json, e: Json, names: Seq<Seq<char>>)
    requires
        document::list(d, Kind::Context) == document::list(e, Kind::Context),
        document::list(d, Kind::Cluster) == document::list(e, Kind::Cluster),
        forall|name: Seq<char>|
            document::contains(d, Kind::User, name) == #[trigger] document::contains(
                e,
                Kind::User,
                name,
            ),
    ensures
        issues::all_context_issues(d, names) == issues::all_context_issues(e, names),
    decreases names.len(),
{
    if names.len() > 0 {
        lemma_context_issues(d, e, names.drop_last());
        let body = document::body(e, Kind::Context, names.last());
        assert(document::body(d, Kind::Context, names.last()) == body);
        let user = issues::body_field(body, "user"@);
        let cluster = issues::body_field(body, "cluster"@);
        assert(document::contains(d, Kind::User, user) == document::contains(e, Kind::User, user));
        assert(document::contains(d, Kind::Cluster, cluster) == document::contains(
            e,
            Kind::Cluster,
            cluster,
        ));
    }
}

/// Messages don't tell a token: two documents that differ only in one user's token have the same
/// problems, whatever the tokens are, as long as both or neither expired, and at the same moment.
pub proof fn messages_do_not_tell_the_token(
    d: Json,
    place: int,
    b: Fields,
    old_token: Seq<char>,
    token: Seq<char>,
    facts: Facts,
    now: Moment,
)
    requires
        0 <= place < document::list(d, Kind::User).len(),
        document::body_of(document::list(d, Kind::User)[place], Kind::User) == Some(b),
        json::field(b, "token"@) == Some(Json::Str(old_token)),
        old_token.len() > 0,
        token.len() > 0,
        expired_at(facts, old_token, now) == expired_at(facts, token, now),
    ensures
        issues::issues(document_with_token(d, place, token), facts, now) == issues::issues(
            d,
            facts,
            now,
        ),
{
    let e = document_with_token(d, place, token);
    let x = document::list(d, Kind::User);
    let y = x.update(place, entry_with_token(x[place], token));
    let key = document::body_key(Kind::User);
    document::with_list_reads(d, Kind::User, y);
    document::lemma_keys_differ();
    json::put_then_field(
        document::fields_of(x[place]),
        key,
        Json::Object(with_token(b, token)),
    );
    assert("name"@ != key);
    assert(json::get(y[place], "name"@) == json::get(x[place], "name"@));
    assert(document::body_of(y[place], Kind::User) == Some(with_token(b, token)));
    assert forall|i: int, name: Seq<char>| 0 <= i < x.len() implies issues::user_issues(
        name,
        issues::body_or_empty(document::body_of(#[trigger] x[i], Kind::User)),
        facts,
        now,
    ) == #[trigger] issues::user_issues(
        name,
        issues::body_or_empty(document::body_of(y[i], Kind::User)),
        facts,
        now,
    ) by {
        if i == place {
            lemma_user_issues(name, b, old_token, token, facts, now);
        }
    }
    assert forall|i: int| 0 <= i < x.len() implies document::name_of(#[trigger] x[i])
        == document::name_of(y[i]) by {}
    lemma_alike(x, y, facts, now);
    assert forall|name: Seq<char>| document::contains(d, Kind::User, name)
        == #[trigger] document::contains(e, Kind::User, name) by {
        lemma_same_index(x, y, name);
    }
    assert(document::list(e, Kind::Context) == document::list(d, Kind::Context));
    assert(document::list(e, Kind::Cluster) == document::list(d, Kind::Cluster));
    lemma_context_issues(d, e, document::names(d, Kind::Context));
    assert(issues::current_issues(e) == issues::current_issues(d));
    assert(issues::list_issues(e, Kind::Context) == issues::list_issues(d, Kind::Context));
    assert(issues::list_issues(e, Kind::Cluster) == issues::list_issues(d, Kind::Cluster));
    assert(issues::list_issues(e, Kind::User) == issues::list_issues(d, Kind::User));
}

} // verus!
