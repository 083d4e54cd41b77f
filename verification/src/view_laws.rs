//! What is shown before something is trusted or run, and what is shown of a connection.

use crate::certs::{Cert, Moment};
use crate::clusters_view::{self, ConnectionFacts, ConnectionState, ContextItem, ShownCa};
use crate::consent;
use crate::credential_laws;
use crate::credentials;
use crate::dialogs;
use crate::document;
use crate::editor_view::Tone;
use crate::exec;
use crate::form_view::{self, Listed};
use crate::issues::Issue;
use crate::json::{Fields, Json};
use crate::model::{EntryRef, Kind};
use crate::outside;
use crate::paths;
use crate::state;
use crate::text;
use crate::tls::CaOrigin;
use crate::validate::Severity;
use vstd::prelude::*;

verus! {

// ----- Plugins -----

/// Before a plugin runs, the user is shown its command, all its arguments and where the command
/// was found.
pub proof fn consent_shows_the_whole_command(
    contexts: Seq<Seq<char>>,
    p: exec::Plugin,
    found: Option<Seq<char>>,
    several: bool,
)
    ensures
        ({
            let card = dialogs::consent_card_of(contexts, p, found, several);
            &&& card.command == p.command
            &&& p.args.len() > 0 ==> card.args == text::joined(p.args, " "@)
            &&& card.api_version == p.api_version
            &&& p.interactive_mode.len() > 0 ==> card.interactive == p.interactive_mode
            &&& found matches Some(path) ==> path.is_suffix_of(card.resolved)
            &&& several ==> card.contexts == Some("for "@ + text::joined(contexts, ", "@))
        }),
{
    if let Some(path) = found {
        let shown = "Resolved with your login shell PATH: "@ + path;
        assert(shown.subrange(shown.len() - path.len(), shown.len() as int) =~= path);
    }
}

/// A variable is shown with its value, unless its name has a word for a secret in it: such a value
/// isn't shown.
pub proof fn secret_variables_are_hidden(name: Seq<char>, value: Seq<char>)
    ensures
        credential_laws::is_secret_name(name) ==> dialogs::var_shown(name, value) == name
            + "=••••"@,
        !credential_laws::is_secret_name(name) ==> dialogs::var_shown(name, value) == name + "="@
            + value,
{
    credential_laws::lemma_secret_names(name);
}

proof fn lemma_new_plugins(
    d: Json,
    base: Option<Json>,
    users: Seq<Seq<char>>,
    i: int,
    p: exec::Plugin,
)
    requires
        0 <= i < users.len(),
        state::plugin_of_user(d, users[i]) == Some(p),
    ensures
        (match base {
            Some(b) => state::plugin_of_user(b, users[i]) != Some(p),
            None => true,
        }) ==> dialogs::new_plugins(d, base, users).contains((users[i], p)),
    decreases users.len(),
{
    let before = users.drop_last();
    let found = dialogs::new_plugins(d, base, before);
    let all = dialogs::new_plugins(d, base, users);
    if i < before.len() {
        assert(before[i] == users[i]);
        lemma_new_plugins(d, base, before, i, p);
        if found.contains((users[i], p)) {
            let k = choose|k: int| 0 <= k < found.len() && found[k] == (users[i], p);
            assert(all[k] == (users[i], p));
        }
    } else {
        assert(all.len() > 0 ==> all[all.len() - 1] == all.last());
    }
}

/// Whoever saves a document is told of every plugin that the file didn't have before: a new one,
/// and one with anything changed.
pub proof fn new_plugins_are_announced(
    d: Json,
    base: Option<Json>,
    users: Seq<Seq<char>>,
    i: int,
    p: exec::Plugin,
)
    requires
        0 <= i < users.len(),
        state::plugin_of_user(d, users[i]) == Some(p),
        base matches Some(b) ==> state::plugin_of_user(b, users[i]) != Some(p),
    ensures
        dialogs::new_plugins(d, base, users).contains((users[i], p)),
        dialogs::exec_notice(dialogs::new_plugins(d, base, users)) is Some,
{
    lemma_new_plugins(d, base, users, i, p);
}

/// A plugin of a context runs without a question only if the saved file has the same one for the
/// same user, to the last argument.
pub proof fn only_saved_plugins_run_unasked(
    d: Json,
    saved: Option<Json>,
    context: Seq<char>,
    user: Seq<char>,
    block: Json,
    p: exec::Plugin,
)
    requires
        credentials::exec_block(d, context) == Some((user, block)),
        exec::plugin_of(block) == Some(p),
    ensures
        state::unsaved_plugin(d, saved, context) is None <==> saved is Some
            && state::plugin_of_user(saved->Some_0, user) == Some(p),
        state::unsaved_plugin(d, saved, context) matches Some(q) ==> q == p,
        document::body(d, Kind::User, user) is Some ==> state::plugin_of_user(d, user) == Some(p),
{
}

// ----- CAs -----

/// Before a CA is trusted, the user is shown whom it is for, who signed it, where it comes from
/// and its fingerprints: the whole SHA-256 of it and of its key.
pub proof fn trust_shows_the_fingerprints(
    cert: Cert,
    origin: CaOrigin,
    from: Seq<char>,
    to: Seq<char>,
)
    ensures
        ({
            let card = dialogs::ca_card_of(cert, origin, from, to);
            &&& card.subject == cert.subject
            &&& cert.issuer.is_prefix_of(card.issuer)
            &&& card.public_key == "sha256:"@ + text::hex(cert.spki_sha256)
            &&& card.sha256.1 == crate::certs::colon_hex_text(cert.sha256).skip(
                (crate::certs::colon_hex_text(cert.sha256).len() / 2 + 1) as int,
            )
            &&& origin == CaOrigin::ClusterInfo <==> card.source
                == "kube-public/cluster-info (anonymous)"@
        }),
{
    let issuer = dialogs::ca_card_of(cert, origin, from, to).issuer;
    assert(issuer.subrange(0, cert.issuer.len() as int) =~= cert.issuer);
    reveal_strlit("kube-public/cluster-info (anonymous)");
    reveal_strlit("the server's certificate chain");
    assert("kube-public/cluster-info (anonymous)"@[0] == 'k');
    assert("the server's certificate chain"@[0] == 't');
}

// ----- Connections -----

/// A cached token is shown as expired exactly from its last second on.
pub proof fn ended_tokens_are_shown_as_expired(at: Moment, now: Moment, n: nat)
    ensures
        at.second <= now.second ==> clusters_view::expiry_text(at, now) == "expired"@,
        at.second > now.second ==> "cached · expires in "@.is_prefix_of(
            clusters_view::expiry_text(at, now),
        ),
        0 < n < 120 && at.second - now.second == n ==> clusters_view::expiry_text(at, now)
            == "cached · expires in "@ + text::decimal(n) + "s"@,
        2 <= n < 120 && n * 60 <= at.second - now.second < (n + 1) * 60
            ==> clusters_view::expiry_text(at, now) == "cached · expires in "@ + text::decimal(n)
            + "m"@,
        2 <= n && n * 3600 <= at.second - now.second < (n + 1) * 3600 ==> clusters_view::expiry_text(
            at,
            now,
        ) == "cached · expires in "@ + text::decimal(n) + "h"@,
{
    let secs = at.second - now.second;
    if secs > 0 {
        let all = clusters_view::expiry_text(at, now);
        let head = "cached · expires in "@;
        assert(all.subrange(0, head.len() as int) =~= head);
    }
}

/// That TLS isn't verified is said whatever CA there is.
pub proof fn disabled_verification_is_shown(f: ConnectionFacts)
    ensures
        f.insecure ==> clusters_view::ca_text(f) == "TLS verification disabled"@,
        !f.insecure && f.ca is System ==> clusters_view::ca_text(f) == "system trust store"@,
        !f.insecure && f.ca is Inline ==> clusters_view::ca_text(f) == "inline certificate"@,
        f.ca matches ShownCa::File(path) ==> !f.insecure ==> clusters_view::ca_text(f) == path@,
{
}

/// What keeps a cluster from being connected is shown as it was said.
pub proof fn connection_errors_are_shown(f: ConnectionFacts, s: ConnectionState)
    ensures
        s matches ConnectionState::Unreachable { message, .. } ==> clusters_view::connection_error(
            f,
            s,
        ) == Some((message@, None::<Seq<char>>)),
        s matches ConnectionState::Forbidden(message) ==> clusters_view::connection_error(f, s)
            == Some((message@, None::<Seq<char>>)),
        s matches ConnectionState::AuthRequired { message, detail, .. }
            ==> clusters_view::connection_error(f, s) == Some((message@, text::text_of(detail))),
        s is Connected && f.error is None ==> clusters_view::connection_error(f, s) is None,
        s matches ConnectionState::AuthRequired { sign_in, .. } ==> sign_in
            ==> clusters_view::offers_sign_in(f, s),
        s is Connected ==> !clusters_view::offers_sign_in(f, s),
{
}

/// A context is listed if it has the filter in its name, its display name or its server, in
/// whatever case, and always without a filter.
pub proof fn contexts_are_found_by_name_and_server(c: ContextItem, filter: Seq<char>)
    ensures
        outside::lowercase(filter).len() == 0 ==> clusters_view::shown_under(c, filter),
        text::contains_text(outside::lowercase(c.name@), outside::lowercase(filter))
            ==> clusters_view::shown_under(c, filter),
        text::contains_text(outside::lowercase(c.display_name@), outside::lowercase(filter))
            ==> clusters_view::shown_under(c, filter),
        c.server matches Some(s) ==> text::contains_text(
            outside::lowercase(s@),
            outside::lowercase(filter),
        ) ==> clusters_view::shown_under(c, filter),
{
}

// ----- Forms -----

/// The client secret and the tokens of a login provider aren't shown among its settings; the
/// others are.
pub proof fn provider_credentials_are_not_shown(config: Fields, key: Seq<char>)
    ensures
        key == "client-secret"@ || key == "id-token"@ || key == "refresh-token"@ || key
            == "access-token"@ ==> form_view::parameter(config, key) == key + ": ••••"@,
        key != "client-secret"@ && key != "id-token"@ && key != "refresh-token"@ && key
            != "access-token"@ ==> form_view::parameter(config, key) == key + ": "@ + paths::text(
            config,
            seq![key],
        ),
{
    credential_laws::lemma_provider_secret_keys();
    assert(credentials::provider_secret_keys().contains(key)
        <==> credential_laws::is_provider_secret(key));
}

/// A certificate is shown in red once it has ended, in yellow for its last thirty days, and with
/// its whole fingerprint.
pub proof fn ended_certificates_are_red(cert: Cert, date: Seq<char>, now: Moment)
    ensures
        ({
            let card = form_view::card_of(cert, date, now);
            let ended = cert.not_after * 1_000_000_000 < now.second * 1_000_000_000
                + now.nanosecond;
            &&& card.tone == if ended {
                Tone::Red
            } else if cert.not_after - now.second < 30 * 86_400 {
                Tone::Yellow
            } else {
                Tone::Plain
            }
            &&& ended ==> card.valid == "expired "@ + date
            &&& card.subject == cert.subject
            &&& card.fingerprint == crate::certs::colon_hex_text(cert.sha256)
        }),
{
}

/// A token that has ended is said to have expired, another to expire.
pub proof fn ended_tokens_are_said_to_have_expired(at: Moment, minute: Seq<char>, now: Moment)
    ensures
        form_view::expiry_hint(Some(at), minute, now) == Some(
            if at.second * 1_000_000_000 + at.nanosecond < now.second * 1_000_000_000
                + now.nanosecond {
                "expired "@ + minute
            } else {
                "expires "@ + minute
            },
        ),
        form_view::expiry_hint(None, minute, now) is None,
{
}

proof fn lemma_in_sum(a: Seq<Listed>, b: Seq<Listed>, x: Listed)
    requires
        a.contains(x) || b.contains(x),
    ensures
        (a + b).contains(x),
{
    if a.contains(x) {
        let i = choose|i: int| 0 <= i < a.len() && a[i] == x;
        assert((a + b)[i] == x);
    } else {
        let i = choose|i: int| 0 <= i < b.len() && b[i] == x;
        assert((a + b)[a.len() + i] == x);
    }
}

proof fn lemma_listed(
    problems: Seq<Issue>,
    entry: (Kind, Seq<char>),
    owner: Option<Seq<char>>,
    i: int,
)
    requires
        0 <= i < problems.len(),
        problems[i].entry == Some(entry),
    ensures
        form_view::listed(problems, entry, problems[i].severity, owner).contains(
            (problems[i].severity, owner, problems[i].message),
        ),
    decreases problems.len(),
{
    let before = problems.drop_last();
    let severity = problems[i].severity;
    let all = form_view::listed(problems, entry, severity, owner);
    let x = (severity, owner, problems[i].message);
    if i < before.len() {
        assert(before[i] == problems[i]);
        lemma_listed(before, entry, owner, i);
        let found = form_view::listed(before, entry, severity, owner);
        let k = choose|k: int| 0 <= k < found.len() && found[k] == x;
        assert(all[k] == x);
    } else {
        assert(all[all.len() - 1] == x);
    }
}

/// An entry lists its own problems, and a context those of the cluster and the user it refers to
/// as well.
pub proof fn contexts_list_the_problems_of_what_they_use(
    d: Json,
    problems: Seq<Issue>,
    entry: EntryRef,
    i: int,
    kind: Kind,
    name: Seq<char>,
)
    requires
        0 <= i < problems.len(),
        problems[i].entry == Some((kind, name)),
    ensures
        kind == entry.kind && name == entry.name@ ==> form_view::problem_list(
            d,
            problems,
            entry,
        ).contains((problems[i].severity, None, problems[i].message)),
        entry.kind == Kind::Context && kind != Kind::Context && document::context_reference(
            d,
            entry.name@,
            kind,
        ) == Some(name) ==> form_view::problem_list(d, problems, entry).contains(
            (
                problems[i].severity,
                Some(form_view::owner_text(kind, name)),
                problems[i].message,
            ),
        ),
{
    let severity = problems[i].severity;
    let errors = form_view::concerns(d, problems, entry, Severity::Error);
    let warnings = form_view::concerns(d, problems, entry, Severity::Warning);
    let notes = form_view::concerns(d, problems, entry, Severity::Info);
    let mine = form_view::concerns(d, problems, entry, severity);
    let own = form_view::listed(problems, (entry.kind, entry.name@), severity, None);
    let of_cluster = form_view::of_used(d, problems, entry.name@, Kind::Cluster, severity);
    let of_user = form_view::of_used(d, problems, entry.name@, Kind::User, severity);
    if kind == entry.kind && name == entry.name@ {
        let x = (severity, None::<Seq<char>>, problems[i].message);
        lemma_listed(problems, (kind, name), None, i);
        if entry.kind == Kind::Context {
            lemma_in_sum(own, of_cluster, x);
            lemma_in_sum(own + of_cluster, of_user, x);
        }
        lemma_in_list(errors, warnings, notes, severity, mine, x);
    }
    if entry.kind == Kind::Context && kind != Kind::Context && document::context_reference(
        d,
        entry.name@,
        kind,
    ) == Some(name) {
        let owner = Some(form_view::owner_text(kind, name));
        let x = (severity, owner, problems[i].message);
        lemma_listed(problems, (kind, name), owner, i);
        if kind == Kind::Cluster {
            lemma_in_sum(own, of_cluster, x);
        }
        lemma_in_sum(own + of_cluster, of_user, x);
        lemma_in_list(errors, warnings, notes, severity, mine, x);
    }
}

proof fn lemma_in_list(
    errors: Seq<Listed>,
    warnings: Seq<Listed>,
    notes: Seq<Listed>,
    severity: Severity,
    mine: Seq<Listed>,
    x: Listed,
)
    requires
        mine.contains(x),
        mine == match severity {
            Severity::Error => errors,
            Severity::Warning => warnings,
            Severity::Info => notes,
        },
    ensures
        (errors + warnings + notes).contains(x),
{
    if severity != Severity::Info {
        lemma_in_sum(errors, warnings, x);
    }
    lemma_in_sum(errors + warnings, notes, x);
}

// ----- Consent -----

/// What the user agreed to is known by a hash of the whole plugin: what is hashed is different for
/// plugins that differ in anything.
pub proof fn agreement_is_for_the_whole_plugin(p: exec::Plugin, q: exec::Plugin)
    ensures
        consent::id_of(p) == consent::big_endian(
            outside::sha256(
                vstd::utf8::encode_utf8(consent::framed_all(consent::parts(p))),
            ).take(8),
        ),
        p.command != q.command || p.args != q.args || p.env != q.env
            ==> consent::framed_all(consent::parts(p)) != consent::framed_all(consent::parts(q)),
{
    if consent::framed_all(consent::parts(p)) == consent::framed_all(consent::parts(q)) {
        consent::the_whole_plugin_is_hashed(p, q);
    }
}

/// A fingerprint is shown in two halves that make up the whole.
pub proof fn halves_make_up_the_fingerprint(s: Seq<char>)
    requires
        s.len() >= 3,
        s[s.len() as int / 2] == ':',
        s[s.len() as int / 2 - 1] != ':',
    ensures
        dialogs::halves(s).0.push(':') + dialogs::halves(s).1 == s,
{
    let at = (s.len() / 2 + 1) as int;
    let first = s.take(at);
    reveal_with_fuel(text::without_trailing, 3);
    assert(first.last() == ':');
    assert(first.drop_last().last() != ':');
    assert(dialogs::halves(s).0 == first.drop_last());
    assert(first.drop_last().push(':') + s.skip(at) =~= s);
}

} // verus!
