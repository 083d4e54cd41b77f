//! What the problems of a document are for: each fault that an entry can have is reported on that
//! entry and that field, and an entry without faults has no problem.

use crate::certs::{self, Moment};
use crate::credentials;
use crate::document;
use crate::issues::{self, Issue};
use crate::json::{self, Fields, Json};
use crate::laws;
use crate::model::{EntryRef, Kind};
use crate::outside;
use crate::paths;
use crate::pem;
use crate::text;
use crate::tls;
use crate::users::AuthKind;
use crate::validate::{self, Facts, IoError, SegView, Severity};
use vstd::prelude::*;

verus! {

/// The list of a kind has, at a place, an entry with this name and this body.
pub open spec fn stands_at(
    d: Json,
    kind: Kind,
    place: int,
    name: Seq<char>,
    b: Fields,
) -> bool {
    &&& 0 <= place < document::list(d, kind).len()
    &&& document::name_of(document::list(d, kind)[place]) == Some(name)
    &&& document::body_of(document::list(d, kind)[place], kind) == Some(b)
}

/// One of the problems is of this severity, and on this field of this entry.
pub open spec fn reported(
    found: Seq<Issue>,
    severity: Severity,
    kind: Kind,
    name: Seq<char>,
    field: Seq<char>,
) -> bool {
    exists|i: int|
        0 <= i < found.len() && (#[trigger] found[i]).severity == severity && found[i].entry
            == Some((kind, name)) && found[i].field == Some(field)
}

/// A body has nothing, or an empty text, under a key.
pub open spec fn empty_at(b: Fields, key: Seq<char>) -> bool {
    json::field(b, key) is None || json::field(b, key) == Some(Json::Str(seq![]))
}

/// A file was read: the first that was asked for under its path gave this text.
pub open spec fn was_read(facts: Facts, path: Seq<char>, s: Seq<char>) -> bool {
    exists|i: int|
        0 <= i < facts.files@.len() && (#[trigger] facts.files@[i]).0@ == path && facts.files@[i].1
            is Ok && facts.files@[i].1->Ok_0@ == s && forall|j: int|
            0 <= j < i ==> (#[trigger] facts.files@[j]).0@ != path
}

/// A certificate or key of a body is this text: it is inline, or, with nothing inline, it was
/// read from the file. The field is the one it was given in.
pub open spec fn given_as(
    b: Fields,
    file_key: Seq<char>,
    data_key: Seq<char>,
    facts: Facts,
    field: Seq<char>,
    s: Seq<char>,
) -> bool {
    ||| {
        &&& json::field(b, data_key) matches Some(Json::Str(data)) && data.len() > 0
            && pem::data_text(data) == Ok::<Seq<char>, Seq<char>>(s)
        &&& field == data_key
    }
    ||| {
        &&& empty_at(b, data_key)
        &&& json::field(b, file_key) matches Some(Json::Str(path)) && path.len() > 0 && was_read(
            facts,
            path,
            s,
        )
        &&& field == file_key
    }
}

/// A certificate's last second lies before a moment.
pub open spec fn ended_before(not_after: i64, now: Moment) -> bool {
    not_after * 1_000_000_000 < now.second * 1_000_000_000 + now.nanosecond
}

/// There are fewer than thirty whole days from a moment to a certificate's last second.
pub open spec fn ends_within_thirty_days(not_after: i64, now: Moment) -> bool {
    not_after - now.second < 30 * 86_400
}

/// A user signs in with a certificate: it has one, and neither a plugin nor a login provider.
pub open spec fn uses_certificate(b: Fields) -> bool {
    &&& !json::has_key(b, "exec"@)
    &&& !json::has_key(b, "auth-provider"@)
    &&& json::has_key(b, "client-certificate"@) || json::has_key(b, "client-certificate-data"@)
}

/// A user signs in with a token.
pub open spec fn uses_token(b: Fields) -> bool {
    &&& !json::has_key(b, "exec"@)
    &&& !json::has_key(b, "auth-provider"@)
    &&& !json::has_key(b, "client-certificate"@)
    &&& !json::has_key(b, "client-certificate-data"@)
    &&& json::has_key(b, "token"@)
}

/// A user signs in with a token that is read from a file.
pub open spec fn uses_token_file(b: Fields) -> bool {
    &&& !json::has_key(b, "exec"@)
    &&& !json::has_key(b, "auth-provider"@)
    &&& !json::has_key(b, "client-certificate"@)
    &&& !json::has_key(b, "client-certificate-data"@)
    &&& !json::has_key(b, "token"@)
    &&& json::has_key(b, "tokenFile"@)
}

// ----- Where problems are found -----

proof fn lemma_in_sum(a: Seq<Issue>, b: Seq<Issue>, x: Issue)
    requires
        a.contains(x) || b.contains(x),
    ensures
        (a + b).contains(x),
{
    if a.contains(x) {
        let i = choose|i: int| 0 <= i < a.len() && a[i] == x;
        assert((a + b)[i] == x);
    } else {
        let i = choose|i: int| 0 <= i < b.len() && b[i] == x;
        assert((a + b)[a.len() + i] == x);
    }
}

proof fn lemma_among_bodies(entries: Seq<Json>, kind: Kind, place: int, name: Seq<char>)
    requires
        0 <= place < entries.len(),
        document::name_of(entries[place]) == Some(name),
    ensures
        document::bodies_in(entries, kind).contains(
            (name, document::body_of(entries[place], kind)),
        ),
    decreases entries.len(),
{
    let before = entries.drop_last();
    let all = document::bodies_in(entries, kind);
    if place < before.len() {
        assert(before[place] == entries[place]);
        lemma_among_bodies(before, kind, place, name);
        let found = document::bodies_in(before, kind);
        let x = (name, document::body_of(entries[place], kind));
        let i = choose|i: int| 0 <= i < found.len() && found[i] == x;
        assert(all[i] == x);
    } else {
        assert(all[all.len() - 1] == (name, document::body_of(entries[place], kind)));
    }
}

proof fn lemma_among_names(entries: Seq<Json>, place: int, name: Seq<char>)
    requires
        0 <= place < entries.len(),
        document::name_of(entries[place]) == Some(name),
    ensures
        document::names_in(entries).contains(name),
    decreases entries.len(),
{
    let before = entries.drop_last();
    let all = document::names_in(entries);
    if place < before.len() {
        assert(before[place] == entries[place]);
        lemma_among_names(before, place, name);
        let found = document::names_in(before);
        let i = choose|i: int| 0 <= i < found.len() && found[i] == name;
        assert(all[i] == name);
    } else {
        assert(all[all.len() - 1] == name);
    }
}

proof fn lemma_of_all_users(
    bodies: Seq<(Seq<char>, Option<Fields>)>,
    m: int,
    facts: Facts,
    now: Moment,
    x: Issue,
)
    requires
        0 <= m < bodies.len(),
        issues::user_issues(bodies[m].0, issues::body_or_empty(bodies[m].1), facts, now).contains(
            x,
        ),
    ensures
        issues::all_user_issues(bodies, facts, now).contains(x),
    decreases bodies.len(),
{
    let before = bodies.drop_last();
    if m < before.len() {
        assert(before[m] == bodies[m]);
        lemma_of_all_users(before, m, facts, now, x);
    }
    lemma_in_sum(
        issues::all_user_issues(before, facts, now),
        issues::user_issues(
            bodies.last().0,
            issues::body_or_empty(bodies.last().1),
            facts,
            now,
        ),
        x,
    );
}

proof fn lemma_of_all_clusters(
    bodies: Seq<(Seq<char>, Option<Fields>)>,
    m: int,
    facts: Facts,
    now: Moment,
    x: Issue,
)
    requires
        0 <= m < bodies.len(),
        issues::cluster_issues(
            bodies[m].0,
            issues::body_or_empty(bodies[m].1),
            facts,
            now,
        ).contains(x),
    ensures
        issues::all_cluster_issues(bodies, facts, now).contains(x),
    decreases bodies.len(),
{
    let before = bodies.drop_last();
    if m < before.len() {
        assert(before[m] == bodies[m]);
        lemma_of_all_clusters(before, m, facts, now, x);
    }
    lemma_in_sum(
        issues::all_cluster_issues(before, facts, now),
        issues::cluster_issues(
            bodies.last().0,
            issues::body_or_empty(bodies.last().1),
            facts,
            now,
        ),
        x,
    );
}

proof fn lemma_of_all_contexts(d: Json, names: Seq<Seq<char>>, m: int, x: Issue)
    requires
        0 <= m < names.len(),
        issues::context_issues(d, names[m]).contains(x),
    ensures
        issues::all_context_issues(d, names).contains(x),
    decreases names.len(),
{
    let before = names.drop_last();
    if m < before.len() {
        assert(before[m] == names[m]);
        lemma_of_all_contexts(d, before, m, x);
    }
    lemma_in_sum(
        issues::all_context_issues(d, before),
        issues::context_issues(d, names.last()),
        x,
    );
}

/// The parts that the problems of a document are made of.
proof fn lemma_parts(d: Json, facts: Facts, now: Moment, x: Issue)
    requires
        ({
            ||| issues::list_issues(d, Kind::Context).contains(x)
            ||| issues::list_issues(d, Kind::Cluster).contains(x)
            ||| issues::list_issues(d, Kind::User).contains(x)
            ||| issues::current_issues(d).contains(x)
            ||| issues::all_context_issues(d, document::names(d, Kind::Context)).contains(x)
            ||| issues::all_cluster_issues(
                document::bodies_in(document::list(d, Kind::Cluster), Kind::Cluster),
                facts,
                now,
            ).contains(x)
            ||| issues::all_user_issues(
                document::bodies_in(document::list(d, Kind::User), Kind::User),
                facts,
                now,
            ).contains(x)
        }),
    ensures
        issues::issues(d, facts, now).contains(x),
{
    let a = issues::list_issues(d, Kind::Context);
    let b = issues::list_issues(d, Kind::Cluster);
    let c = issues::list_issues(d, Kind::User);
    let e = issues::current_issues(d);
    let f = issues::all_context_issues(d, document::names(d, Kind::Context));
    let g = issues::all_cluster_issues(
        document::bodies_in(document::list(d, Kind::Cluster), Kind::Cluster),
        facts,
        now,
    );
    let h = issues::all_user_issues(
        document::bodies_in(document::list(d, Kind::User), Kind::User),
        facts,
        now,
    );
    if a.contains(x) || b.contains(x) {
        lemma_in_sum(a, b, x);
    }
    if (a + b).contains(x) || c.contains(x) {
        lemma_in_sum(a + b, c, x);
    }
    if (a + b + c).contains(x) || e.contains(x) {
        lemma_in_sum(a + b + c, e, x);
    }
    if (a + b + c + e).contains(x) || f.contains(x) {
        lemma_in_sum(a + b + c + e, f, x);
    }
    if (a + b + c + e + f).contains(x) || g.contains(x) {
        lemma_in_sum(a + b + c + e + f, g, x);
    }
    lemma_in_sum(a + b + c + e + f + g, h, x);
}

/// What is wrong with an entry is a problem of the document.
pub proof fn problems_of_an_entry_are_reported(
    d: Json,
    kind: Kind,
    place: int,
    name: Seq<char>,
    b: Fields,
    facts: Facts,
    now: Moment,
    x: Issue,
)
    requires
        stands_at(d, kind, place, name, b),
        match kind {
            Kind::Context => issues::context_issues(d, name).contains(x),
            Kind::Cluster => issues::cluster_issues(name, b, facts, now).contains(x),
            Kind::User => issues::user_issues(name, b, facts, now).contains(x),
        },
    ensures
        issues::issues(d, facts, now).contains(x),
{
    let entries = document::list(d, kind);
    if kind == Kind::Context {
        lemma_among_names(entries, place, name);
        let names = document::names_in(entries);
        let m = choose|m: int| 0 <= m < names.len() && names[m] == name;
        lemma_of_all_contexts(d, names, m, x);
    } else {
        lemma_among_bodies(entries, kind, place, name);
        let bodies = document::bodies_in(entries, kind);
        let m = choose|m: int| 0 <= m < bodies.len() && bodies[m] == (name, Some(b));
        if kind == Kind::Cluster {
            lemma_of_all_clusters(bodies, m, facts, now, x);
        } else {
            lemma_of_all_users(bodies, m, facts, now, x);
        }
    }
    lemma_parts(d, facts, now, x);
}

proof fn lemma_reported(found: Seq<Issue>, x: Issue, kind: Kind, name: Seq<char>, field: Seq<char>)
    requires
        found.contains(x),
        x.entry == Some((kind, name)),
        x.field == Some(field),
    ensures
        reported(found, x.severity, kind, name, field),
{
    let i = choose|i: int| 0 <= i < found.len() && found[i] == x;
    assert(found[i].severity == x.severity);
}

// ----- What a body holds -----

proof fn lemma_text(b: Fields, key: Seq<char>)
    ensures
        paths::text(b, seq![key]) == match json::field(b, key) {
            Some(Json::Str(s)) => s,
            Some(v) => paths::scalar_text(Some(v)),
            None => seq![],
        },
{
    assert(paths::at(b, seq![key]) == json::field(b, key));
}

proof fn lemma_contents(files: Seq<(String, Result<String, IoError>)>, path: Seq<char>, i: int)
    requires
        0 <= i < files.len(),
        files[i].0@ == path,
        forall|j: int| 0 <= j < i ==> (#[trigger] files[j]).0@ != path,
    ensures
        issues::contents(files, path) == match files[i].1 {
            Ok(s) => Ok(s@),
            Err(e) => Err(issues::io_text(e)),
        },
    decreases files.len(),
{
    if i > 0 {
        assert(files[0].0@ != path);
        let rest = files.drop_first();
        assert(rest[i - 1] == files[i]);
        assert forall|j: int| 0 <= j < i - 1 implies (#[trigger] rest[j]).0@ != path by {
            assert(rest[j] == files[j + 1]);
        }
        lemma_contents(rest, path, i - 1);
    }
}

proof fn lemma_given(
    b: Fields,
    file_key: Seq<char>,
    data_key: Seq<char>,
    facts: Facts,
    field: Seq<char>,
    s: Seq<char>,
)
    requires
        given_as(b, file_key, data_key, facts, field, s),
    ensures
        issues::loaded(b, file_key, data_key, facts.files@) == Ok::<
            Option<Seq<char>>,
            Seq<char>,
        >(Some(s)),
        issues::pem_key(b, file_key, data_key) == field,
{
    lemma_text(b, data_key);
    lemma_text(b, file_key);
    if empty_at(b, data_key) {
        let path = json::field(b, file_key)->Some_0->Str_0;
        let i = choose|i: int|
            0 <= i < facts.files@.len() && (#[trigger] facts.files@[i]).0@ == path
                && facts.files@[i].1 is Ok && facts.files@[i].1->Ok_0@ == s && forall|j: int|
                0 <= j < i ==> (#[trigger] facts.files@[j]).0@ != path;
        lemma_contents(facts.files@, path, i);
    }
}

proof fn lemma_kinds(b: Fields)
    ensures
        uses_certificate(b) ==> credentials::auth_kind(b) == AuthKind::ClientCertificate,
        uses_token(b) ==> credentials::auth_kind(b) == AuthKind::Token,
        uses_token_file(b) ==> credentials::auth_kind(b) == AuthKind::TokenFile,
        crate::fields::CERT_FILE@ == "client-certificate"@,
        crate::fields::CERT_DATA@ == "client-certificate-data"@,
        crate::fields::KEY_FILE@ == "client-key"@,
        crate::fields::KEY_DATA@ == "client-key-data"@,
        crate::fields::CA_FILE@ == "certificate-authority"@,
        crate::fields::CA_DATA@ == "certificate-authority-data"@,
{
    laws::lemma_auth_literals();
}

proof fn lemma_days(not_after: i64, now: Moment)
    ensures
        (not_after - now.second) / 86_400 < 30 <==> not_after - now.second < 30 * 86_400,
{
}

// ----- Certificates -----

/// An expired client certificate is an error, and one that ends within thirty days a warning, on
/// the user and the field that the certificate was given in. It is the first certificate that
/// counts.
pub proof fn ended_client_certificates_are_reported(
    d: Json,
    place: int,
    name: Seq<char>,
    b: Fields,
    facts: Facts,
    now: Moment,
    field: Seq<char>,
    s: Seq<char>,
    found: Seq<certs::Cert>,
)
    requires
        stands_at(d, Kind::User, place, name, b),
        uses_certificate(b),
        given_as(b, "client-certificate"@, "client-certificate-data"@, facts, field, s),
        certs::certs_in(s) == Ok::<Seq<certs::Cert>, Seq<char>>(found),
        found.len() > 0,
    ensures
        ended_before(found[0].not_after, now) ==> reported(
            issues::issues(d, facts, now),
            Severity::Error,
            Kind::User,
            name,
            field,
        ),
        !ended_before(found[0].not_after, now) && ends_within_thirty_days(
            found[0].not_after,
            now,
        ) ==> reported(
            issues::issues(d, facts, now),
            Severity::Warning,
            Kind::User,
            name,
            field,
        ),
{
    lemma_kinds(b);
    lemma_given(b, "client-certificate"@, "client-certificate-data"@, facts, field, s);
    lemma_days(found[0].not_after, now);
    let of_cert = issues::client_cert_issues(name, b, facts, now);
    if ended_before(found[0].not_after, now) || ends_within_thirty_days(found[0].not_after, now) {
        let x = of_cert[0];
        assert(of_cert.contains(x));
        lemma_in_sum(of_cert, issues::client_key_issues(name, b, facts), x);
        problems_of_an_entry_are_reported(d, Kind::User, place, name, b, facts, now, x);
        lemma_reported(issues::issues(d, facts, now), x, Kind::User, name, field);
    }
}

/// A user has no problem if its client certificate can be read and doesn't end within thirty
/// days, and its key holds a private key.
pub proof fn good_client_certificates_are_no_problem(
    name: Seq<char>,
    b: Fields,
    facts: Facts,
    now: Moment,
    field: Seq<char>,
    s: Seq<char>,
    found: Seq<certs::Cert>,
    key_field: Seq<char>,
    key: Seq<char>,
)
    requires
        uses_certificate(b),
        given_as(b, "client-certificate"@, "client-certificate-data"@, facts, field, s),
        certs::certs_in(s) == Ok::<Seq<certs::Cert>, Seq<char>>(found),
        found.len() > 0,
        !ended_before(found[0].not_after, now),
        !ends_within_thirty_days(found[0].not_after, now),
        given_as(b, "client-key"@, "client-key-data"@, facts, key_field, key),
        issues::holds_key(key),
    ensures
        issues::user_issues(name, b, facts, now).len() == 0,
{
    lemma_kinds(b);
    lemma_given(b, "client-certificate"@, "client-certificate-data"@, facts, field, s);
    lemma_given(b, "client-key"@, "client-key-data"@, facts, key_field, key);
    lemma_days(found[0].not_after, now);
}

/// A client certificate that can't be read is an error on its field.
pub proof fn unreadable_client_certificates_are_reported(
    d: Json,
    place: int,
    name: Seq<char>,
    b: Fields,
    facts: Facts,
    now: Moment,
    field: Seq<char>,
    s: Seq<char>,
)
    requires
        stands_at(d, Kind::User, place, name, b),
        uses_certificate(b),
        given_as(b, "client-certificate"@, "client-certificate-data"@, facts, field, s),
        certs::certs_in(s) is Err,
    ensures
        reported(issues::issues(d, facts, now), Severity::Error, Kind::User, name, field),
{
    lemma_kinds(b);
    lemma_given(b, "client-certificate"@, "client-certificate-data"@, facts, field, s);
    let of_cert = issues::client_cert_issues(name, b, facts, now);
    let x = of_cert[0];
    assert(of_cert.contains(x));
    lemma_in_sum(of_cert, issues::client_key_issues(name, b, facts), x);
    problems_of_an_entry_are_reported(d, Kind::User, place, name, b, facts, now, x);
    lemma_reported(issues::issues(d, facts, now), x, Kind::User, name, field);
}

/// A user with a certificate and no key, or with a key that holds no private key, is an error on
/// the key's field.
pub proof fn missing_client_keys_are_reported(
    d: Json,
    place: int,
    name: Seq<char>,
    b: Fields,
    facts: Facts,
    now: Moment,
    field: Seq<char>,
    key: Seq<char>,
)
    requires
        stands_at(d, Kind::User, place, name, b),
        uses_certificate(b),
        (empty_at(b, "client-key"@) && empty_at(b, "client-key-data"@) && field
            == "client-key-data"@) || (given_as(
            b,
            "client-key"@,
            "client-key-data"@,
            facts,
            field,
            key,
        ) && !issues::holds_key(key)),
    ensures
        reported(issues::issues(d, facts, now), Severity::Error, Kind::User, name, field),
{
    lemma_kinds(b);
    lemma_text(b, "client-key"@);
    lemma_text(b, "client-key-data"@);
    if !(empty_at(b, "client-key"@) && empty_at(b, "client-key-data"@)) {
        lemma_given(b, "client-key"@, "client-key-data"@, facts, field, key);
    }
    let of_key = issues::client_key_issues(name, b, facts);
    let x = of_key[0];
    assert(of_key.contains(x));
    lemma_in_sum(issues::client_cert_issues(name, b, facts, now), of_key, x);
    problems_of_an_entry_are_reported(d, Kind::User, place, name, b, facts, now, x);
    lemma_reported(issues::issues(d, facts, now), x, Kind::User, name, field);
}

proof fn lemma_ca_issues(
    found: Seq<certs::Cert>,
    name: Seq<char>,
    field: Seq<char>,
    now: Moment,
    k: int,
    x: Issue,
)
    requires
        0 <= k < found.len(),
        issues::expiry_issues("CA"@, found[k], Kind::Cluster, name, field, true, now).contains(x),
    ensures
        issues::ca_issues(found, name, field, now).contains(x),
    decreases found.len(),
{
    let before = found.drop_last();
    if k < before.len() {
        assert(before[k] == found[k]);
        lemma_ca_issues(before, name, field, now, k, x);
    }
    lemma_in_sum(
        issues::ca_issues(before, name, field, now),
        issues::expiry_issues("CA"@, found.last(), Kind::Cluster, name, field, true, now),
        x,
    );
}

/// Every certificate of a cluster's CA is reported: as an error if it is expired, as a warning if
/// it ends within thirty days, and else as information.
pub proof fn ca_certificates_are_reported(
    d: Json,
    place: int,
    name: Seq<char>,
    b: Fields,
    facts: Facts,
    now: Moment,
    field: Seq<char>,
    s: Seq<char>,
    found: Seq<certs::Cert>,
    k: int,
)
    requires
        stands_at(d, Kind::Cluster, place, name, b),
        given_as(
            b,
            "certificate-authority"@,
            "certificate-authority-data"@,
            facts,
            field,
            s,
        ),
        certs::certs_in(s) == Ok::<Seq<certs::Cert>, Seq<char>>(found),
        0 <= k < found.len(),
    ensures
        reported(
            issues::issues(d, facts, now),
            if ended_before(found[k].not_after, now) {
                Severity::Error
            } else if ends_within_thirty_days(found[k].not_after, now) {
                Severity::Warning
            } else {
                Severity::Info
            },
            Kind::Cluster,
            name,
            field,
        ),
{
    lemma_kinds(b);
    lemma_given(b, "certificate-authority"@, "certificate-authority-data"@, facts, field, s);
    lemma_days(found[k].not_after, now);
    let of_cert = issues::expiry_issues("CA"@, found[k], Kind::Cluster, name, field, true, now);
    let x = of_cert[0];
    assert(of_cert.contains(x));
    lemma_ca_issues(found, name, field, now, k, x);
    lemma_in_sum(
        issues::server_issues(name, b) + issues::insecure_issues(name, b),
        issues::ca_issues(found, name, field, now),
        x,
    );
    problems_of_an_entry_are_reported(d, Kind::Cluster, place, name, b, facts, now, x);
    lemma_reported(issues::issues(d, facts, now), x, Kind::Cluster, name, field);
}

/// A CA that can't be read is an error on its field.
pub proof fn unreadable_cas_are_reported(
    d: Json,
    place: int,
    name: Seq<char>,
    b: Fields,
    facts: Facts,
    now: Moment,
    field: Seq<char>,
    s: Seq<char>,
)
    requires
        stands_at(d, Kind::Cluster, place, name, b),
        given_as(
            b,
            "certificate-authority"@,
            "certificate-authority-data"@,
            facts,
            field,
            s,
        ),
        certs::certs_in(s) is Err,
    ensures
        reported(issues::issues(d, facts, now), Severity::Error, Kind::Cluster, name, field),
{
    lemma_kinds(b);
    lemma_given(b, "certificate-authority"@, "certificate-authority-data"@, facts, field, s);
    let x = issues::entry_issue(
        Severity::Error,
        Kind::Cluster,
        name,
        field,
        "CA: "@ + certs::certs_in(s)->Err_0,
    );
    assert(seq![x].contains(x)) by {
        assert(seq![x][0] == x);
    }
    lemma_in_sum(issues::server_issues(name, b) + issues::insecure_issues(name, b), seq![x], x);
    problems_of_an_entry_are_reported(d, Kind::Cluster, place, name, b, facts, now, x);
    lemma_reported(issues::issues(d, facts, now), x, Kind::Cluster, name, field);
}

// ----- Clusters -----

/// A cluster without a server is an error, one whose server isn't a URL with a host too, and one
/// with a server over plain HTTP a warning, on the server's field; a server over HTTPS is fine.
pub proof fn servers_are_checked(
    d: Json,
    place: int,
    name: Seq<char>,
    b: Fields,
    facts: Facts,
    now: Moment,
)
    requires
        stands_at(d, Kind::Cluster, place, name, b),
    ensures
        empty_at(b, "server"@) ==> reported(
            issues::issues(d, facts, now),
            Severity::Error,
            Kind::Cluster,
            name,
            "server"@,
        ),
        json::field(b, "server"@) matches Some(Json::Str(server)) ==> server.len() > 0 ==> match (
        outside::url_parts(text::trimmed(server))) {
            Err(_) => reported(
                issues::issues(d, facts, now),
                Severity::Error,
                Kind::Cluster,
                name,
                "server"@,
            ),
            Ok((scheme, host, _, _)) => if host is None || (scheme != "https"@ && scheme
                != "http"@) {
                reported(
                    issues::issues(d, facts, now),
                    Severity::Error,
                    Kind::Cluster,
                    name,
                    "server"@,
                )
            } else if scheme == "http"@ {
                reported(
                    issues::issues(d, facts, now),
                    Severity::Warning,
                    Kind::Cluster,
                    name,
                    "server"@,
                )
            } else {
                issues::server_issues(name, b).len() == 0
            },
        },
{
    lemma_text(b, "server"@);
    reveal_strlit("http");
    reveal_strlit("https");
    assert("http"@.len() == 4 && "https"@.len() == 5);
    let of_server = issues::server_issues(name, b);
    if of_server.len() > 0 {
        let x = of_server[0];
        assert(of_server.contains(x));
        lemma_in_sum(of_server, issues::insecure_issues(name, b), x);
        let rest = issues::cluster_issues(name, b, facts, now).skip(
            (of_server + issues::insecure_issues(name, b)).len() as int,
        );
        assert(issues::cluster_issues(name, b, facts, now) =~= of_server
            + issues::insecure_issues(name, b) + rest);
        lemma_in_sum(of_server + issues::insecure_issues(name, b), rest, x);
        problems_of_an_entry_are_reported(d, Kind::Cluster, place, name, b, facts, now, x);
        lemma_reported(issues::issues(d, facts, now), x, Kind::Cluster, name, "server"@);
    }
}

/// Skipping TLS verification is a warning, and an error together with a CA; without it there is
/// no such problem.
pub proof fn skipped_verification_is_reported(
    d: Json,
    place: int,
    name: Seq<char>,
    b: Fields,
    facts: Facts,
    now: Moment,
)
    requires
        stands_at(d, Kind::Cluster, place, name, b),
    ensures
        json::field(b, "insecure-skip-tls-verify"@) == Some(Json::Bool(true)) ==> reported(
            issues::issues(d, facts, now),
            if empty_at(b, "certificate-authority"@) && empty_at(b, "certificate-authority-data"@) {
                Severity::Warning
            } else if (json::field(b, "certificate-authority"@) matches Some(Json::Str(s)) && s.len()
                > 0) || (json::field(b, "certificate-authority-data"@) matches Some(Json::Str(s))
                && s.len() > 0) {
                Severity::Error
            } else {
                issues::insecure_issues(name, b)[0].severity
            },
            Kind::Cluster,
            name,
            "insecure-skip-tls-verify"@,
        ),
        json::field(b, "insecure-skip-tls-verify"@) is None ==> issues::insecure_issues(
            name,
            b,
        ).len() == 0,
{
    lemma_kinds(b);
    lemma_text(b, "certificate-authority"@);
    lemma_text(b, "certificate-authority-data"@);
    let key = "insecure-skip-tls-verify"@;
    assert(paths::at(b, seq![key]) == json::field(b, key));
    let of_flag = issues::insecure_issues(name, b);
    if json::field(b, key) == Some(Json::Bool(true)) {
        let x = of_flag[0];
        assert(of_flag.contains(x));
        let first = issues::server_issues(name, b);
        lemma_in_sum(first, of_flag, x);
        let rest = issues::cluster_issues(name, b, facts, now).skip(
            (first + of_flag).len() as int,
        );
        assert(issues::cluster_issues(name, b, facts, now) =~= first + of_flag + rest);
        lemma_in_sum(first + of_flag, rest, x);
        problems_of_an_entry_are_reported(d, Kind::Cluster, place, name, b, facts, now, x);
        lemma_reported(issues::issues(d, facts, now), x, Kind::Cluster, name, key);
    }
}

// ----- Tokens, plugins and providers -----

/// An empty token is an error; an expired one a warning; one whose end is unknown or ahead is no
/// problem. The end is what the facts say first of that token.
pub proof fn tokens_are_checked(
    d: Json,
    place: int,
    name: Seq<char>,
    b: Fields,
    facts: Facts,
    now: Moment,
    token: Seq<char>,
)
    requires
        stands_at(d, Kind::User, place, name, b),
        uses_token(b),
        json::field(b, "token"@) == Some(Json::Str(token)),
    ensures
        token.len() == 0 ==> reported(
            issues::issues(d, facts, now),
            Severity::Error,
            Kind::User,
            name,
            "token"@,
        ),
        forall|i: int|
            0 <= i < facts.expiries@.len() && token.len() > 0 && (#[trigger] facts.expiries@[i]).0@
                == token && (forall|j: int|
                0 <= j < i ==> (#[trigger] facts.expiries@[j]).0@ != token) ==> {
                let end = facts.expiries@[i].1;
                if end.second * 1_000_000_000 + end.nanosecond < now.second * 1_000_000_000
                    + now.nanosecond {
                    reported(
                        issues::issues(d, facts, now),
                        Severity::Warning,
                        Kind::User,
                        name,
                        "token"@,
                    )
                } else {
                    issues::user_issues(name, b, facts, now).len() == 0
                }
            },
        token.len() > 0 && (forall|j: int|
            0 <= j < facts.expiries@.len() ==> (#[trigger] facts.expiries@[j]).0@ != token)
            ==> issues::user_issues(name, b, facts, now).len() == 0,
{
    lemma_kinds(b);
    lemma_text(b, "token"@);
    let mine = issues::user_issues(name, b, facts, now);
    if mine.len() > 0 {
        let x = mine[0];
        assert(mine.contains(x));
        problems_of_an_entry_are_reported(d, Kind::User, place, name, b, facts, now, x);
        lemma_reported(issues::issues(d, facts, now), x, Kind::User, name, "token"@);
    }
    assert forall|i: int|
        0 <= i < facts.expiries@.len() && token.len() > 0 && (#[trigger] facts.expiries@[i]).0@
            == token && (forall|j: int|
            0 <= j < i ==> (#[trigger] facts.expiries@[j]).0@ != token) implies {
        let end = facts.expiries@[i].1;
        if end.second * 1_000_000_000 + end.nanosecond < now.second * 1_000_000_000
            + now.nanosecond {
            reported(
                issues::issues(d, facts, now),
                Severity::Warning,
                Kind::User,
                name,
                "token"@,
            )
        } else {
            issues::user_issues(name, b, facts, now).len() == 0
        }
    } by {
        lemma_expiry(facts.expiries@, token, i);
    }
    if forall|j: int| 0 <= j < facts.expiries@.len() ==> (#[trigger] facts.expiries@[j]).0@
        != token {
        lemma_no_expiry(facts.expiries@, token);
    }
}

proof fn lemma_expiry(tokens: Seq<(String, Moment)>, token: Seq<char>, i: int)
    requires
        0 <= i < tokens.len(),
        tokens[i].0@ == token,
        forall|j: int| 0 <= j < i ==> (#[trigger] tokens[j]).0@ != token,
    ensures
        issues::expiry_of(tokens, token) == Some(tokens[i].1),
    decreases tokens.len(),
{
    if i > 0 {
        assert(tokens[0].0@ != token);
        let rest = tokens.drop_first();
        assert(rest[i - 1] == tokens[i]);
        assert forall|j: int| 0 <= j < i - 1 implies (#[trigger] rest[j]).0@ != token by {
            assert(rest[j] == tokens[j + 1]);
        }
        lemma_expiry(rest, token, i - 1);
    }
}

proof fn lemma_no_expiry(tokens: Seq<(String, Moment)>, token: Seq<char>)
    requires
        forall|j: int| 0 <= j < tokens.len() ==> (#[trigger] tokens[j]).0@ != token,
    ensures
        issues::expiry_of(tokens, token) is None,
    decreases tokens.len(),
{
    if tokens.len() > 0 {
        assert(tokens[0].0@ != token);
        let rest = tokens.drop_first();
        assert forall|j: int| 0 <= j < rest.len() implies (#[trigger] rest[j]).0@ != token by {
            assert(rest[j] == tokens[j + 1]);
        }
        lemma_no_expiry(rest, token);
    }
}

proof fn lemma_reachable(files: Seq<(String, Result<(), IoError>)>, path: Seq<char>, i: int)
    requires
        0 <= i < files.len(),
        files[i].0@ == path,
        forall|j: int| 0 <= j < i ==> (#[trigger] files[j]).0@ != path,
    ensures
        issues::unreachable(files, path) is Some <==> files[i].1 is Err,
    decreases files.len(),
{
    if i > 0 {
        assert(files[0].0@ != path);
        let rest = files.drop_first();
        assert(rest[i - 1] == files[i]);
        assert forall|j: int| 0 <= j < i - 1 implies (#[trigger] rest[j]).0@ != path by {
            assert(rest[j] == files[j + 1]);
        }
        lemma_reachable(rest, path, i - 1);
    }
}

/// A user with a token file has a problem, an error on that field, exactly if no file is given or
/// the file can't be read.
pub proof fn token_files_are_checked(
    d: Json,
    place: int,
    name: Seq<char>,
    b: Fields,
    facts: Facts,
    now: Moment,
    path: Seq<char>,
    i: int,
)
    requires
        stands_at(d, Kind::User, place, name, b),
        uses_token_file(b),
        json::field(b, "tokenFile"@) == Some(Json::Str(path)),
        path.len() > 0 ==> 0 <= i < facts.token_files@.len() && facts.token_files@[i].0@ == path
            && forall|j: int| 0 <= j < i ==> (#[trigger] facts.token_files@[j]).0@ != path,
    ensures
        path.len() == 0 || facts.token_files@[i].1 is Err ==> reported(
            issues::issues(d, facts, now),
            Severity::Error,
            Kind::User,
            name,
            "tokenFile"@,
        ),
        path.len() > 0 && facts.token_files@[i].1 is Ok ==> issues::user_issues(
            name,
            b,
            facts,
            now,
        ).len() == 0,
{
    lemma_kinds(b);
    lemma_text(b, "tokenFile"@);
    if path.len() > 0 {
        lemma_reachable(facts.token_files@, path, i);
    }
    let mine = issues::user_issues(name, b, facts, now);
    if mine.len() > 0 {
        let x = mine[0];
        assert(mine.contains(x));
        problems_of_an_entry_are_reported(d, Kind::User, place, name, b, facts, now, x);
        lemma_reported(issues::issues(d, facts, now), x, Kind::User, name, "tokenFile"@);
    }
}

proof fn lemma_text_in(b: Fields, key: Seq<char>, inner: Fields, second: Seq<char>)
    requires
        json::field(b, key) == Some(Json::Object(inner)),
    ensures
        paths::text(b, seq![key, second]) == match json::field(inner, second) {
            Some(Json::Str(s)) => s,
            Some(v) => paths::scalar_text(Some(v)),
            None => seq![],
        },
{
    reveal_with_fuel(paths::at, 3);
    assert(seq![key, second].drop_first() =~= seq![second]);
    assert(paths::at(inner, seq![second]) == json::field(inner, second));
}

/// A plugin without a command, or without an API version, is an error on that field; one whose
/// command isn't found, or whose API version kubectl no longer knows, a warning; a plugin whose
/// command is found, with another API version, is no problem.
pub proof fn plugins_are_checked(
    d: Json,
    place: int,
    name: Seq<char>,
    b: Fields,
    exec: Fields,
    facts: Facts,
    now: Moment,
)
    requires
        stands_at(d, Kind::User, place, name, b),
        json::field(b, "exec"@) == Some(Json::Object(exec)),
    ensures
        empty_at(exec, "command"@) ==> reported(
            issues::issues(d, facts, now),
            Severity::Error,
            Kind::User,
            name,
            "exec.command"@,
        ),
        json::field(exec, "command"@) matches Some(Json::Str(c)) && c.len() > 0 && !text::texts(
            facts.commands@,
        ).contains(c) ==> reported(
            issues::issues(d, facts, now),
            Severity::Warning,
            Kind::User,
            name,
            "exec.command"@,
        ),
        empty_at(exec, "apiVersion"@) ==> reported(
            issues::issues(d, facts, now),
            Severity::Error,
            Kind::User,
            name,
            "exec.apiVersion"@,
        ),
        json::field(exec, "apiVersion"@) matches Some(Json::Str(v)) && "v1alpha1"@.is_suffix_of(v)
            ==> reported(
            issues::issues(d, facts, now),
            Severity::Warning,
            Kind::User,
            name,
            "exec.apiVersion"@,
        ),
        json::field(exec, "command"@) matches Some(Json::Str(c)) && c.len() > 0 && text::texts(
            facts.commands@,
        ).contains(c) && (json::field(exec, "apiVersion"@) matches Some(Json::Str(v)) && v.len() > 0
            && !"v1alpha1"@.is_suffix_of(v)) ==> issues::user_issues(name, b, facts, now).len()
            == 0,
{
    assert(json::has_key(b, "exec"@));
    assert(credentials::auth_kind(b) == AuthKind::Exec);
    lemma_text_in(b, "exec"@, exec, "command"@);
    lemma_text_in(b, "exec"@, exec, "apiVersion"@);
    reveal_strlit("v1alpha1");
    let mine = issues::user_issues(name, b, facts, now);
    if mine.len() > 0 {
        let x = mine[0];
        assert(mine.contains(x));
        problems_of_an_entry_are_reported(d, Kind::User, place, name, b, facts, now, x);
        lemma_reported(issues::issues(d, facts, now), x, Kind::User, name, x.field->Some_0);
        let y = mine[mine.len() - 1];
        assert(mine.contains(y));
        problems_of_an_entry_are_reported(d, Kind::User, place, name, b, facts, now, y);
        lemma_reported(issues::issues(d, facts, now), y, Kind::User, name, y.field->Some_0);
    }
}

/// A login provider for OIDC needs an issuer and a client: each that is missing is an error on
/// its field. Other login providers, and names with passwords, are warned of.
pub proof fn providers_are_checked(
    d: Json,
    place: int,
    name: Seq<char>,
    b: Fields,
    facts: Facts,
    now: Moment,
)
    requires
        stands_at(d, Kind::User, place, name, b),
        !json::has_key(b, "exec"@),
    ensures
        json::has_key(b, "auth-provider"@) && json::text_at(
            json::field(b, "auth-provider"@)->Some_0,
            "name"@,
        ) == Some("oidc"@) ==> {
            &&& paths::text(b, seq!["auth-provider"@, "config"@, "idp-issuer-url"@]).len() == 0
                ==> reported(
                issues::issues(d, facts, now),
                Severity::Error,
                Kind::User,
                name,
                "auth-provider.config.idp-issuer-url"@,
            )
            &&& paths::text(b, seq!["auth-provider"@, "config"@, "client-id"@]).len() == 0
                ==> reported(
                issues::issues(d, facts, now),
                Severity::Error,
                Kind::User,
                name,
                "auth-provider.config.client-id"@,
            )
        },
        json::has_key(b, "auth-provider"@) && json::text_at(
            json::field(b, "auth-provider"@)->Some_0,
            "name"@,
        ) != Some("oidc"@) ==> reported(
            issues::issues(d, facts, now),
            Severity::Warning,
            Kind::User,
            name,
            "auth-provider"@,
        ),
        !json::has_key(b, "auth-provider"@) && !json::has_key(b, "client-certificate"@)
            && !json::has_key(b, "client-certificate-data"@) && !json::has_key(b, "token"@)
            && !json::has_key(b, "tokenFile"@) && (json::has_key(b, "username"@) || json::has_key(
            b,
            "password"@,
        )) ==> reported(
            issues::issues(d, facts, now),
            Severity::Warning,
            Kind::User,
            name,
            "username"@,
        ),
{
    lemma_kinds(b);
    let mine = issues::user_issues(name, b, facts, now);
    let kind = credentials::auth_kind(b);
    if mine.len() > 0 && (kind == AuthKind::OidcProvider || kind == AuthKind::OtherProvider || kind
        == AuthKind::Basic) {
        let x = mine[0];
        assert(mine.contains(x));
        problems_of_an_entry_are_reported(d, Kind::User, place, name, b, facts, now, x);
        lemma_reported(issues::issues(d, facts, now), x, Kind::User, name, x.field->Some_0);
        let y = mine[mine.len() - 1];
        assert(mine.contains(y));
        problems_of_an_entry_are_reported(d, Kind::User, place, name, b, facts, now, y);
        lemma_reported(issues::issues(d, facts, now), y, Kind::User, name, y.field->Some_0);
    }
}

// ----- Contexts -----

/// A context that names no cluster, or a cluster or user that the document hasn't, is an error on
/// that field; the first context of a name counts.
pub proof fn broken_references_are_reported(
    d: Json,
    place: int,
    name: Seq<char>,
    b: Fields,
    facts: Facts,
    now: Moment,
)
    requires
        stands_at(d, Kind::Context, place, name, b),
        document::entry_index(d, Kind::Context, name) == place,
    ensures
        empty_at(b, "cluster"@) ==> reported(
            issues::issues(d, facts, now),
            Severity::Error,
            Kind::Context,
            name,
            "cluster"@,
        ),
        json::field(b, "cluster"@) matches Some(Json::Str(c)) && c.len() > 0
            && !document::contains(d, Kind::Cluster, c) ==> reported(
            issues::issues(d, facts, now),
            Severity::Error,
            Kind::Context,
            name,
            "cluster"@,
        ),
        json::field(b, "user"@) matches Some(Json::Str(u)) && u.len() > 0 && !document::contains(
            d,
            Kind::User,
            u,
        ) ==> reported(
            issues::issues(d, facts, now),
            Severity::Error,
            Kind::Context,
            name,
            "user"@,
        ),
        json::field(b, "namespace"@) matches Some(Json::Str(n)) && (n.len() > 63 || (n.len() > 0
            && (n[0] == '-' || n[n.len() - 1] == '-' || exists|i: int|
            0 <= i < n.len() && !('a' <= #[trigger] n[i] <= 'z') && !('0' <= n[i] <= '9') && n[i]
                != '-'))) ==> reported(
            issues::issues(d, facts, now),
            Severity::Warning,
            Kind::Context,
            name,
            "namespace"@,
        ),
{
    assert(document::body(d, Kind::Context, name) == Some(b));
    lemma_text(b, "cluster"@);
    lemma_text(b, "user"@);
    lemma_text(b, "namespace"@);
    let mine = issues::context_issues(d, name);
    assert forall|k: int| 0 <= k < mine.len() implies issues::issues(d, facts, now).contains(
        #[trigger] mine[k],
    ) by {
        assert(mine.contains(mine[k]));
        problems_of_an_entry_are_reported(d, Kind::Context, place, name, b, facts, now, mine[k]);
    }
    if mine.len() > 0 {
        lemma_reported(
            issues::issues(d, facts, now),
            mine[0],
            Kind::Context,
            name,
            mine[0].field->Some_0,
        );
        lemma_reported(
            issues::issues(d, facts, now),
            mine[mine.len() - 1],
            Kind::Context,
            name,
            mine[mine.len() - 1].field->Some_0,
        );
    }
    if mine.len() == 3 {
        lemma_reported(issues::issues(d, facts, now), mine[1], Kind::Context, name, "user"@);
    }
    if let Some(Json::Str(n)) = json::field(b, "namespace"@) {
        if exists|i: int|
            0 <= i < n.len() && !('a' <= #[trigger] n[i] <= 'z') && !('0' <= n[i] <= '9') && n[i]
                != '-' {
            let i = choose|i: int|
                0 <= i < n.len() && !('a' <= #[trigger] n[i] <= 'z') && !('0' <= n[i] <= '9')
                    && n[i] != '-';
            assert(!issues::label_char(n[i]));
        }
    }
}

/// A context whose cluster and user the document has, and whose namespace is a label of DNS, is no
/// problem.
pub proof fn whole_contexts_are_no_problem(d: Json, name: Seq<char>, b: Fields)
    requires
        document::body(d, Kind::Context, name) == Some(b),
        json::field(b, "cluster"@) matches Some(Json::Str(c)) && c.len() > 0
            && document::contains(d, Kind::Cluster, c),
        empty_at(b, "user"@) || (json::field(b, "user"@) matches Some(Json::Str(u))
            && document::contains(d, Kind::User, u)),
        empty_at(b, "namespace"@) || (json::field(b, "namespace"@) matches Some(Json::Str(n)) && 0
            < n.len() <= 63 && n[0] != '-' && n[n.len() - 1] != '-' && forall|i: int|
            0 <= i < n.len() ==> 'a' <= #[trigger] n[i] <= 'z' || '0' <= n[i] <= '9' || n[i] == '-'),
    ensures
        issues::context_issues(d, name).len() == 0,
{
    lemma_text(b, "cluster"@);
    lemma_text(b, "user"@);
    lemma_text(b, "namespace"@);
}

/// A current context that the document hasn't is warned of; one that it has, or none, isn't.
pub proof fn missing_current_contexts_are_reported(d: Json, facts: Facts, now: Moment)
    ensures
        json::text_at(d, "current-context"@) matches Some(c) && c.len() > 0 && !document::contains(
            d,
            Kind::Context,
            c,
        ) ==> exists|i: int|
            0 <= i < issues::issues(d, facts, now).len() && (#[trigger] issues::issues(
                d,
                facts,
                now,
            )[i]).severity == Severity::Warning && issues::issues(d, facts, now)[i].field == Some(
                "current-context"@,
            ),
        json::text_at(d, "current-context"@) matches Some(c) && document::contains(
            d,
            Kind::Context,
            c,
        ) ==> issues::current_issues(d).len() == 0,
        json::text_at(d, "current-context"@) is None ==> issues::current_issues(d).len() == 0,
{
    let mine = issues::current_issues(d);
    if mine.len() > 0 {
        let x = mine[0];
        assert(mine.contains(x));
        lemma_parts(d, facts, now, x);
        let all = issues::issues(d, facts, now);
        let i = choose|i: int| 0 <= i < all.len() && all[i] == x;
        assert(all[i].severity == Severity::Warning);
    }
}

// ----- Names -----

proof fn lemma_twice(entries: Seq<Json>, i: int, j: int, name: Seq<char>)
    requires
        0 <= i < j < entries.len(),
        document::name_of(entries[i]) == Some(name),
        document::name_of(entries[j]) == Some(name),
    ensures
        document::occurrences(document::names_in(entries), name) >= 2,
    decreases entries.len(),
{
    let before = entries.drop_last();
    let names = document::names_in(before);
    if j < before.len() {
        lemma_twice(before, i, j, name);
    } else {
        lemma_once(before, i, name);
    }
    if let Some(last) = document::name_of(entries.last()) {
        assert(names.push(last).drop_last() =~= names);
    }
}

proof fn lemma_once(entries: Seq<Json>, i: int, name: Seq<char>)
    requires
        0 <= i < entries.len(),
        document::name_of(entries[i]) == Some(name),
    ensures
        document::occurrences(document::names_in(entries), name) >= 1,
    decreases entries.len(),
{
    let before = entries.drop_last();
    let names = document::names_in(before);
    if i < before.len() {
        lemma_once(before, i, name);
    }
    if let Some(last) = document::name_of(entries.last()) {
        assert(names.push(last).drop_last() =~= names);
    }
}

proof fn lemma_inserted(a: Seq<Seq<char>>, x: Seq<char>) -> (r: Seq<Seq<char>>)
    requires
        text::ascending(a),
        !a.contains(x),
    ensures
        text::ascending(r),
        r.len() == a.len() + 1,
        forall|n: Seq<char>| #[trigger] r.contains(n) <==> a.contains(n) || n == x,
    decreases a.len(),
{
    if a.len() == 0 {
        let r = seq![x];
        assert(r[0] == x);
        r
    } else {
        let before = a.drop_last();
        let last = a.last();
        text::lemma_precedes_total(last, x);
        assert(a[a.len() - 1] == last);
        if text::precedes(last, x) {
            let r = a.push(x);
            assert forall|i: int, j: int| 0 <= i < j < r.len() implies text::precedes(
                #[trigger] r[i],
                #[trigger] r[j],
            ) by {
                if j == a.len() && i < a.len() - 1 {
                    assert(text::precedes(a[i], a[a.len() - 1]));
                    text::lemma_precedes_transitive(a[i], last, x);
                }
            }
            assert forall|n: Seq<char>| #[trigger] r.contains(n) <==> a.contains(n) || n == x by {
                if a.contains(n) {
                    let i = choose|i: int| 0 <= i < a.len() && a[i] == n;
                    assert(r[i] == n);
                }
                assert(r[a.len() as int] == x);
            }
            r
        } else {
            assert forall|i: int, j: int| 0 <= i < j < before.len() implies text::precedes(
                #[trigger] before[i],
                #[trigger] before[j],
            ) by {
                assert(before[i] == a[i] && before[j] == a[j]);
            }
            if before.contains(x) {
                let i = choose|i: int| 0 <= i < before.len() && before[i] == x;
                assert(a[i] == x);
            }
            let p = lemma_inserted(before, x);
            let r = p.push(last);
            assert forall|i: int, j: int| 0 <= i < j < r.len() implies text::precedes(
                #[trigger] r[i],
                #[trigger] r[j],
            ) by {
                if j == p.len() {
                    assert(p.contains(p[i]));
                    if p[i] != x {
                        let k = choose|k: int| 0 <= k < before.len() && before[k] == p[i];
                        assert(text::precedes(a[k], a[a.len() - 1]));
                    }
                }
            }
            assert forall|n: Seq<char>| #[trigger] r.contains(n) <==> a.contains(n) || n == x by {
                if a.contains(n) {
                    let i = choose|i: int| 0 <= i < a.len() && a[i] == n;
                    if i < before.len() {
                        assert(before[i] == n);
                        assert(p.contains(n));
                    }
                }
                if p.contains(n) {
                    let i = choose|i: int| 0 <= i < p.len() && p[i] == n;
                    assert(r[i] == n);
                    if before.contains(n) {
                        let k = choose|k: int| 0 <= k < before.len() && before[k] == n;
                        assert(a[k] == n);
                    }
                }
                assert(r[p.len() as int] == last);
                assert(p.contains(x));
                if r.contains(n) {
                    let i = choose|i: int| 0 <= i < r.len() && r[i] == n;
                    if i < p.len() {
                        assert(p[i] == n);
                        assert(p.contains(n));
                    }
                }
            }
            r
        }
    }
}

proof fn lemma_duplicates_exist(names: Seq<Seq<char>>) -> (twice: Seq<Seq<char>>)
    ensures
        issues::are_duplicates(twice, names),
    decreases names.len(),
{
    if names.len() == 0 {
        Seq::empty()
    } else {
        let before = names.drop_last();
        let p = lemma_duplicates_exist(before);
        if document::occurrences(before, names.last()) == 1 {
            assert(!p.contains(names.last()));
            lemma_inserted(p, names.last())
        } else {
            p
        }
    }
}

/// A name that two entries of a kind have is an error on that entry.
pub proof fn names_given_twice_are_reported(
    d: Json,
    kind: Kind,
    i: int,
    j: int,
    name: Seq<char>,
    facts: Facts,
    now: Moment,
)
    requires
        0 <= i < j < document::list(d, kind).len(),
        document::name_of(document::list(d, kind)[i]) == Some(name),
        document::name_of(document::list(d, kind)[j]) == Some(name),
    ensures
        exists|k: int|
            0 <= k < issues::issues(d, facts, now).len() && (#[trigger] issues::issues(
                d,
                facts,
                now,
            )[k]).severity == Severity::Error && issues::issues(d, facts, now)[k].entry == Some(
                (kind, name),
            ) && issues::issues(d, facts, now)[k].field is None,
{
    let names = document::names(d, kind);
    lemma_twice(document::list(d, kind), i, j, name);
    let some = lemma_duplicates_exist(names);
    assert(issues::are_duplicates(some, names));
    let twice = issues::duplicates_among(names);
    assert(issues::are_duplicates(twice, names));
    assert(twice.contains(name));
    let m = choose|m: int| 0 <= m < twice.len() && twice[m] == name;
    let mine = issues::list_issues(d, kind);
    let x = mine[m];
    assert(mine.contains(x));
    lemma_parts(d, facts, now, x);
    let all = issues::issues(d, facts, now);
    let k = choose|k: int| 0 <= k < all.len() && all[k] == x;
    assert(all[k].severity == Severity::Error);
}

proof fn lemma_unnamed(entries: Seq<Json>, i: int)
    requires
        0 <= i < entries.len(),
        document::name_of(entries[i]) is None || document::name_of(entries[i]) == Some(
            Seq::<char>::empty(),
        ),
    ensures
        issues::unnamed(entries) > 0,
    decreases entries.len(),
{
    let before = entries.drop_last();
    if i < before.len() {
        lemma_unnamed(before, i);
    }
}

/// An entry without a name is an error on its list.
pub proof fn entries_without_names_are_reported(
    d: Json,
    kind: Kind,
    i: int,
    facts: Facts,
    now: Moment,
)
    requires
        0 <= i < document::list(d, kind).len(),
        document::name_of(document::list(d, kind)[i]) is None || document::name_of(
            document::list(d, kind)[i],
        ) == Some(Seq::<char>::empty()),
    ensures
        exists|k: int|
            0 <= k < issues::issues(d, facts, now).len() && (#[trigger] issues::issues(
                d,
                facts,
                now,
            )[k]).severity == Severity::Error && issues::issues(d, facts, now)[k].entry is None
                && issues::issues(d, facts, now)[k].field == Some(document::list_key(kind)),
{
    lemma_unnamed(document::list(d, kind), i);
    let mine = issues::list_issues(d, kind);
    let x = mine[mine.len() - 1];
    assert(mine.contains(x));
    lemma_parts(d, facts, now, x);
    let all = issues::issues(d, facts, now);
    let k = choose|k: int| 0 <= k < all.len() && all[k] == x;
    assert(all[k].severity == Severity::Error);
}

// ----- Finding problems again -----

proof fn lemma_with_severity(
    v: Seq<Issue>,
    entry: EntryRef,
    severity: Severity,
    x: Issue,
)
    ensures
        validate::with_severity(v, entry, severity).contains(x) <==> v.contains(x) && x.severity
            == severity && x.entry == Some((entry.kind, entry.name@)),
    decreases v.len(),
{
    if v.len() > 0 {
        let before = v.drop_last();
        lemma_with_severity(before, entry, severity, x);
        let found = validate::with_severity(before, entry, severity);
        let all = validate::with_severity(v, entry, severity);
        if all.contains(x) {
            let i = choose|i: int| 0 <= i < all.len() && all[i] == x;
            if i < found.len() {
                assert(found[i] == x);
                let j = choose|j: int| 0 <= j < before.len() && before[j] == x;
                assert(v[j] == x);
            } else {
                assert(v[v.len() - 1] == x);
            }
        }
        if v.contains(x) && x.severity == severity && x.entry == Some((entry.kind, entry.name@)) {
            let i = choose|i: int| 0 <= i < v.len() && v[i] == x;
            if i < before.len() {
                assert(before[i] == x);
                let j = choose|j: int| 0 <= j < found.len() && found[j] == x;
                assert(all[j] == x);
            } else {
                assert(all[all.len() - 1] == x);
            }
        }
    }
}

/// The problems of an entry of a severity are exactly those on that entry with that severity.
pub proof fn problems_are_found_by_entry(
    v: Seq<Issue>,
    entry: EntryRef,
    severity: Severity,
    x: Issue,
)
    ensures
        validate::with_severity(v, entry, severity).contains(x) <==> v.contains(x) && x.severity
            == severity && x.entry == Some((entry.kind, entry.name@)),
        v.contains(x) && x.severity == severity && x.entry == Some((entry.kind, entry.name@))
            ==> validate::has_severity(v, entry, severity),
{
    lemma_with_severity(v, entry, severity, x);
    if v.contains(x) && x.severity == severity && x.entry == Some((entry.kind, entry.name@)) {
        let i = choose|i: int| 0 <= i < v.len() && v[i] == x;
        assert(validate::is_of(v[i], entry));
    }
}

/// A problem leads to the entry it is on, by the entry's place in its list, and to its field.
pub proof fn problems_lead_to_their_entry(d: Json, p: Issue, kind: Kind, name: Seq<char>)
    requires
        p.entry == Some((kind, name)),
        document::contains(d, kind, name),
    ensures
        ({
            let path = validate::issue_path(d, p);
            &&& path.len() >= 3
            &&& path[0] == SegView::Key(
                match kind {
                    Kind::Context => "contexts"@,
                    Kind::Cluster => "clusters"@,
                    Kind::User => "users"@,
                },
            )
            &&& path[1] == SegView::Index(document::entry_index(d, kind, name))
            &&& p.field is None ==> path.len() == 3 && path[2] == SegView::Key("name"@)
            &&& p.field matches Some(f) ==> path[2] == SegView::Key(
                match kind {
                    Kind::Context => "context"@,
                    Kind::Cluster => "cluster"@,
                    Kind::User => "user"@,
                },
            ) && path.len() == 3 + text::pieces(f, '.').len() && forall|i: int|
                0 <= i < text::pieces(f, '.').len() ==> #[trigger] path[3 + i] == SegView::Key(
                    text::pieces(f, '.')[i],
                )
        }),
{
}

/// What is said of a certificate's end: the day it ended, or the day it ends and how many whole
/// days are left.
pub proof fn ends_are_told_by_their_day(
    what: Seq<char>,
    cert: certs::Cert,
    kind: Kind,
    name: Seq<char>,
    field: Seq<char>,
    shown: bool,
    now: Moment,
    days: int,
)
    ensures
        ({
            let found = issues::expiry_issues(what, cert, kind, name, field, shown, now);
            &&& ended_before(cert.not_after, now) ==> found.len() == 1 && found[0].message
                == "the "@ + what + " expired on "@ + outside::date_at(cert.not_after)
            &&& !ended_before(cert.not_after, now) && days < 30 && days * 86_400 <= cert.not_after
                - now.second < (days + 1) * 86_400 ==> found.len() == 1 && found[0].message
                == "the "@ + what + " expires on "@ + outside::date_at(cert.not_after) + " (in "@
                + text::signed_decimal(days) + " days)"@
            &&& !ended_before(cert.not_after, now) && !ends_within_thirty_days(
                cert.not_after,
                now,
            ) && !shown ==> found.len() == 0
        }),
{
    lemma_days(cert.not_after, now);
}

} // verus!
