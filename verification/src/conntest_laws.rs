//! What each step of a connection test decides, from what was found to what the report says.

use crate::certs::{self, Cert, Moment};
use crate::conntest::{
    self, Answer, Attempt, AuthMethod, CaSource, ConnectError, ContextInfo, Failure, Lookup, Outcome,
    Plugin, Question,
};
use crate::document;
use crate::json::{self, Fields, Json};
use crate::model::Kind;
use crate::outside;
use crate::pem;
use crate::report::{self, Found, Remedy, ReportState, Status, StepKind};
use crate::test_run::{self, ClientOutcome, TlsOutcome};
use crate::text;
use crate::tls::{self, TlsError};
use vstd::prelude::*;

verus! {

/// A context's user has this body.
pub open spec fn signs_in_as(d: Json, info: ContextInfo, b: Fields) -> bool {
    info.user is Some && document::body(d, Kind::User, info.user->Some_0@) == Some(b)
}

/// A context's cluster has this body.
pub open spec fn connects_to(d: Json, info: ContextInfo, b: Fields) -> bool {
    document::body(d, Kind::Cluster, info.cluster@) == Some(b)
}

// ----- Credentials -----

/// The client certificate of a user is this text: inline, or, with no text inline, as read from
/// the file.
pub open spec fn client_certificate_is(b: Fields, answer: Answer, s: Seq<char>) -> bool {
    match json::field(b, "client-certificate-data"@) {
        Some(Json::Str(data)) => pem::data_text(data) == Ok::<Seq<char>, Seq<char>>(s),
        _ => answer is Contents && answer->Contents_0 is Some && answer->Contents_0->Some_0@ == s,
    }
}

/// A client certificate that can be read passes the credentials step exactly if it hasn't ended
/// yet; an ended one fails it, with an error that tells the day. The first certificate counts.
pub proof fn client_certificates_pass_until_they_end(
    d: Json,
    info: ContextInfo,
    allow_exec: bool,
    answer: Answer,
    now: Moment,
    b: Fields,
    s: Seq<char>,
    found: Seq<Cert>,
)
    requires
        info.auth is ClientCertificate,
        signs_in_as(d, info, b),
        client_certificate_is(b, answer, s),
        certs::certs_in(s) == Ok::<Seq<Cert>, Seq<char>>(found),
        found.len() > 0,
    ensures
        conntest::judged(d, info, allow_exec, answer, now) is Err <==> found[0].not_after
            * 1_000_000_000 < now.second * 1_000_000_000 + now.nanosecond,
        0 <= now.nanosecond && found[0].not_after < now.second ==> conntest::judged(
            d,
            info,
            allow_exec,
            answer,
            now,
        ) is Err,
        now.nanosecond <= 0 && found[0].not_after >= now.second ==> conntest::judged(
            d,
            info,
            allow_exec,
            answer,
            now,
        ) is Ok,
        conntest::judged(d, info, allow_exec, answer, now) matches Ok((status, _)) ==> status
            == Status::Passed,
        conntest::judged(d, info, allow_exec, answer, now) matches Err(e) ==> e.error == Some(
            "the client certificate expired on "@ + outside::date_at(found[0].not_after),
        ),
{
}

/// A client certificate that can't be read fails the credentials step.
pub proof fn unreadable_client_certificates_fail(
    d: Json,
    info: ContextInfo,
    allow_exec: bool,
    answer: Answer,
    now: Moment,
    b: Fields,
)
    requires
        info.auth is ClientCertificate,
        signs_in_as(d, info, b),
        forall|s: Seq<char>| #[trigger]
            client_certificate_is(b, answer, s) ==> certs::certs_in(s) is Err,
    ensures
        conntest::judged(d, info, allow_exec, answer, now) is Err,
        conntest::judged(d, info, allow_exec, answer, now)->Err_0.error is Some,
{
    if let Some(s) = conntest::client_pem(
        Some(b),
        match answer {
            Answer::Contents(c) => text::text_of(c),
            _ => None,
        },
    ) {
        assert(client_certificate_is(b, answer, s));
    }
}

/// A token never fails the credentials step, since the server decides: it is warned of exactly if
/// it has ended.
pub proof fn ended_tokens_are_warned_of(
    d: Json,
    info: ContextInfo,
    allow_exec: bool,
    end: Option<Moment>,
    now: Moment,
)
    requires
        info.auth is Token,
    ensures
        ({
            let judged = conntest::judged(d, info, allow_exec, Answer::Expiry(end), now);
            let ended = end is Some && end->Some_0.second * 1_000_000_000 + end->Some_0.nanosecond
                < now.second * 1_000_000_000 + now.nanosecond;
            &&& judged is Ok
            &&& judged->Ok_0.0 == if ended {
                Status::Warn
            } else {
                Status::Passed
            }
        }),
{
}

/// A token file fails the credentials step exactly if it can't be read.
pub proof fn unreadable_token_files_fail(
    d: Json,
    info: ContextInfo,
    allow_exec: bool,
    exists_: Result<(), String>,
    now: Moment,
)
    requires
        info.auth is TokenFile,
    ensures
        ({
            let judged = conntest::judged(d, info, allow_exec, Answer::Exists(exists_), now);
            &&& judged is Err <==> exists_ is Err
            &&& judged is Ok ==> judged->Ok_0.0 == Status::Passed
            &&& judged is Err ==> judged->Err_0.error is Some
        }),
{
}

/// A plugin passes the credentials step exactly if the user has one, running it was allowed and
/// it gave a token or a certificate. What it printed when it failed stays with the failure.
pub proof fn plugins_pass_with_credentials(
    d: Json,
    info: ContextInfo,
    allow_exec: bool,
    outcome: Plugin,
    now: Moment,
    b: Fields,
)
    requires
        info.auth is Exec,
        signs_in_as(d, info, b),
    ensures
        ({
            let judged = conntest::judged(d, info, allow_exec, Answer::Plugin(outcome), now);
            let has_plugin = json::field(b, "exec"@) matches Some(Json::Object(_));
            &&& judged is Ok <==> has_plugin && allow_exec && (outcome is Token || outcome
                is ClientCertificate)
            &&& judged is Ok ==> judged->Ok_0.0 == Status::Passed
            &&& judged is Err ==> judged->Err_0.error is Some
            &&& has_plugin && allow_exec && outcome is Failed ==> judged->Err_0.stderr
                == text::text_of(outcome->stderr)
        }),
{
}

/// A plugin that wasn't found comes with the install hint of its user, if there is one; another
/// failure is told as it is, without a hint.
pub proof fn missing_plugins_come_with_a_hint(
    d: Json,
    info: ContextInfo,
    outcome: Plugin,
    now: Moment,
    b: Fields,
    exec: Fields,
    hint: Seq<char>,
)
    requires
        info.auth is Exec,
        signs_in_as(d, info, b),
        json::field(b, "exec"@) == Some(Json::Object(exec)),
        json::field(exec, "installHint"@) == Some(Json::Str(hint)),
        outcome is Failed,
    ensures
        ({
            let failed = conntest::judged(d, info, true, Answer::Plugin(outcome), now)->Err_0;
            if text::contains_text(outcome->message@, "was not found"@) {
                failed.fix == Some(Remedy::InstallHint(text::trimmed(hint)))
            } else {
                failed.fix is None && failed.error == Some(outcome->message@)
            }
        }),
{
}

/// Ways of signing in that need no answer: names with passwords and legacy providers are warned
/// of, the others pass.
pub proof fn other_ways_of_signing_in_pass(
    d: Json,
    info: ContextInfo,
    allow_exec: bool,
    answer: Answer,
    now: Moment,
)
    ensures
        info.auth is Basic || info.auth is Provider ==> {
            let judged = conntest::judged(d, info, allow_exec, answer, now);
            judged is Ok && judged->Ok_0.0 == Status::Warn
        },
        info.auth is Anonymous || info.auth is Oidc || info.auth is OpenShift ==> {
            let judged = conntest::judged(d, info, allow_exec, answer, now);
            judged is Ok && judged->Ok_0.0 == Status::Passed
        },
{
}

/// What is said of an end of validity: nothing without one; that it expired if it lies a minute
/// or more back; how many whole minutes are left if it is less than two hours ahead; else when
/// it is.
pub proof fn ends_are_told_by_how_far_they_are(end: Moment, now: Moment, minutes: nat)
    ensures
        conntest::expiry_text(None, now).len() == 0,
        end.second - now.second <= -60 ==> conntest::expiry_text(Some(end), now)
            == " · expired "@ + outside::minute_at(end.second, end.nanosecond),
        minutes < 120 && minutes * 60 <= end.second - now.second < (minutes + 1) * 60
            ==> conntest::expiry_text(Some(end), now) == " · valid for "@ + text::decimal(
            minutes,
        ) + " min"@,
        -60 < end.second - now.second < 0 ==> conntest::expiry_text(Some(end), now)
            == " · valid for "@ + text::decimal(0) + " min"@,
        end.second - now.second >= 7200 ==> conntest::expiry_text(Some(end), now)
            == " · valid until "@ + outside::minute_at(end.second, end.nanosecond),
{
}

// ----- The network -----

proof fn lemma_first_connected(attempts: Seq<Attempt>, port: u16, last: Seq<char>, i: int)
    requires
        0 <= i < attempts.len(),
        attempts[i].outcome is Connected,
        forall|j: int| 0 <= j < i ==> !((#[trigger] attempts[j]).outcome is Connected),
    ensures
        conntest::connected_to(attempts, port, last) == Ok::<Seq<char>, Seq<char>>(
            attempts[i].addr@,
        ),
    decreases attempts.len(),
{
    if i > 0 {
        assert(!(attempts[0].outcome is Connected));
        let rest = attempts.drop_first();
        assert(rest[i - 1] == attempts[i]);
        assert forall|j: int| 0 <= j < i - 1 implies !((#[trigger] rest[j]).outcome
            is Connected) by {
            assert(rest[j] == attempts[j + 1]);
        }
        lemma_first_connected(rest, port, conntest::attempt_error(attempts[0], port), i - 1);
    }
}

proof fn lemma_none_connected(attempts: Seq<Attempt>, port: u16, last: Seq<char>)
    requires
        forall|j: int|
            0 <= j < attempts.len() ==> !((#[trigger] attempts[j]).outcome is Connected),
    ensures
        conntest::connected_to(attempts, port, last) == Err::<Seq<char>, Seq<char>>(
            if attempts.len() == 0 {
                last
            } else {
                conntest::attempt_error(attempts.last(), port)
            },
        ),
    decreases attempts.len(),
{
    if attempts.len() > 0 {
        assert(!(attempts[0].outcome is Connected));
        let rest = attempts.drop_first();
        assert forall|j: int| 0 <= j < rest.len() implies !((#[trigger] rest[j]).outcome
            is Connected) by {
            assert(rest[j] == attempts[j + 1]);
        }
        lemma_none_connected(rest, port, conntest::attempt_error(attempts[0], port));
    }
}

/// The network step passes with the first address that was reached.
pub proof fn the_first_reached_address_is_used(
    target: tls::Endpoint,
    attempts: Vec<Attempt>,
    i: int,
)
    requires
        0 <= i < attempts@.len(),
        attempts@[i].outcome is Connected,
        forall|j: int| 0 <= j < i ==> !((#[trigger] attempts@[j]).outcome is Connected),
    ensures
        conntest::network_result(target, Lookup::Found(attempts), false) == Ok::<
            Seq<char>,
            Seq<char>,
        >(target.host + " → "@ + attempts@[i].addr@),
        conntest::network_result(target, Lookup::Found(attempts), true) is Ok,
{
    lemma_first_connected(attempts@, target.port, "no addresses"@, i);
}

/// The network step fails if the name isn't found in time or at all, and if no address was
/// reached (what happened with the last is told).
pub proof fn unreached_servers_fail(target: tls::Endpoint, lookup: Lookup, numeric: bool)
    requires
        lookup matches Lookup::Found(attempts) ==> forall|j: int|
            0 <= j < attempts@.len() ==> !((#[trigger] attempts@[j]).outcome is Connected),
    ensures
        conntest::network_result(target, lookup, numeric) is Err,
        lookup matches Lookup::Found(attempts) ==> attempts@.len() > 0 ==> {
            let last = attempts@[attempts@.len() - 1];
            let told = conntest::network_result(target, lookup, numeric)->Err_0;
            match last.outcome {
                Outcome::Refused => told == last.addr@
                    + " refused the connection (nothing listens on port "@ + text::decimal(
                    target.port as nat,
                ) + ")"@,
                Outcome::Failed(e) => told == "couldn't connect to "@ + last.addr@ + ": "@ + e@,
                Outcome::TimedOut => told == "connecting to "@ + last.addr@
                    + " timed out (a firewall or VPN?)"@,
                Outcome::Connected => true,
            }
        },
{
    if let Lookup::Found(attempts) = lookup {
        lemma_none_connected(attempts@, target.port, "no addresses"@);
    }
}

/// A context is only connected to if it was found without an error and its cluster has a server.
pub proof fn only_whole_contexts_have_a_target(
    found: Result<Option<ContextInfo>, String>,
    context: Seq<char>,
)
    ensures
        conntest::target_of_context(found, context) is Ok ==> {
            &&& found is Ok
            &&& found->Ok_0 is Some
            &&& found->Ok_0->Some_0.error is None
            &&& found->Ok_0->Some_0.server is Some
            &&& found->Ok_0->Some_0.server->Some_0@.len() > 0
        },
        found matches Ok(Some(info)) ==> info.error matches Some(e) ==> conntest::target_of_context(
            found,
            context,
        ) == Err::<tls::Endpoint, Seq<char>>(e@),
{
}

// ----- TLS -----

/// Which CA a server is checked with: none if verification is skipped; else the inline one; else
/// the one in the file; else the system's.
pub proof fn the_inline_ca_goes_first(r: CaSource, d: Json, info: ContextInfo, b: Fields)
    requires
        connects_to(d, info, b),
        conntest::is_ca_source(r, d, info),
    ensures
        info.insecure_skip_tls_verify <==> r is Insecure,
        !info.insecure_skip_tls_verify ==> match json::field(b, "certificate-authority-data"@) {
            Some(Json::Str(data)) => r is Data && r->Data_0@ == data,
            _ => match json::field(b, "certificate-authority"@) {
                Some(Json::Str(path)) => r is File && r->File_0@ == path,
                _ => r is System,
            },
        },
{
}

/// A CA that is given is the one that is trusted, and one that can't be read is an error: it is
/// never replaced by the system's.
pub proof fn given_cas_are_never_replaced(source: CaSource, file: Result<Seq<char>, Seq<char>>)
    ensures
        ({
            let trust = conntest::trust_of(source, file);
            &&& source is Data ==> match pem::data_text(source->Data_0@) {
                Ok(s) => trust is Ok && trust->Ok_0.0 == Some(s),
                Err(_) => trust is Err,
            }
            &&& source is File ==> match file {
                Ok(s) => trust is Ok && trust->Ok_0.0 == Some(s),
                Err(_) => trust is Err,
            }
            &&& source is System || source is Insecure ==> trust is Ok && trust->Ok_0.0 is None
        }),
{
}

/// The TLS step passes with a handshake that was verified, is only warned of without TLS or
/// without verification, and fails otherwise; fetching the CA is offered exactly if the server's
/// certificate is signed by an unknown authority.
pub proof fn only_verified_handshakes_pass(outcome: TlsOutcome)
    ensures
        ({
            let result = test_run::tls_result(outcome);
            &&& outcome is Plain ==> result is Ok && result->Ok_0.0 == Status::Warn
            &&& outcome is Unreadable ==> result is Err && result->Err_0.fix is None
            &&& outcome is Checked ==> (result is Ok <==> outcome->result is Ok)
            &&& outcome is Checked && outcome->result is Ok ==> result->Ok_0.0 == if outcome->insecure {
                Status::Warn
            } else {
                Status::Passed
            }
            &&& outcome is Checked && outcome->result is Err ==> {
                &&& result->Err_0.error is Some
                &&& result->Err_0.fix == if outcome->result->Err_0.0 == TlsError::UnknownIssuer {
                    Some(Remedy::FetchCa)
                } else {
                    None
                }
            }
        }),
{
}

// ----- Requests -----

/// A client that couldn't be built, or that needs a sign-in, fails the step; a needed sign-in is
/// offered.
pub proof fn clients_are_needed(lines: Seq<Seq<char>>, outcome: ClientOutcome, now: Moment)
    ensures
        ({
            let result = test_run::client_result(lines, outcome, now);
            &&& result is Ok <==> outcome is Built || outcome is Oidc
            &&& outcome is Built ==> result == Ok::<Seq<Seq<char>>, Found>(lines)
            &&& result is Ok ==> lines.is_prefix_of(result->Ok_0)
            &&& result is Err ==> result->Err_0.error is Some
            &&& result is Err ==> result->Err_0.fix == if outcome is SignInRequired {
                Some(Remedy::SignIn)
            } else {
                None
            }
        }),
{
}

/// Asking who the user is: a server that doesn't know the question, or doesn't let it be asked,
/// has let the user in; any other answer fails the step, with what can be done about a refusal.
pub proof fn refused_users_fail(f: Failure, rejected: (Seq<char>, Option<Remedy>))
    ensures
        ({
            let result = test_run::auth_result(f, rejected);
            &&& result is Ok <==> f is Api && (f->code == 404 || f->code == 403)
            &&& result is Err && (f is Api || f is Unauthorized) ==> result->Err_0.error == Some(
                rejected.0,
            ) && result->Err_0.fix == rejected.1
            &&& result is Err ==> result->Err_0.error is Some
        }),
{
}

/// What can be done about refused credentials: a token can be replaced, and a sign-in repeated.
pub proof fn refused_tokens_can_be_replaced(auth: AuthMethod, end: Option<Moment>, now: Moment)
    ensures
        conntest::rejection(auth, end, now).1 == if auth is Token || auth is OpenShift {
            Some(Remedy::ReplaceToken)
        } else if auth is Oidc {
            Some(Remedy::SignIn)
        } else {
            None
        },
        (auth is Token || auth is OpenShift) && end is Some && end->Some_0.second * 1_000_000_000
            + end->Some_0.nanosecond < now.second * 1_000_000_000 + now.nanosecond
            ==> "the token expired on "@.is_prefix_of(conntest::rejection(auth, end, now).0),
{
    let told = "the token expired on "@ + outside::minute_at(
        end->0.second,
        end->0.nanosecond,
    );
    assert("the token expired on "@.is_prefix_of(
        told + ": the API server rejected it (401)"@,
    ));
}

/// A user who may list namespaces, or pods in the namespace, passes the permissions step; another
/// is warned. The three answers are shown as they came, and administration isn't required.
pub proof fn listing_is_enough(
    namespace: Seq<char>,
    list_namespaces: Option<bool>,
    list_pods: Option<bool>,
    admin: Option<bool>,
    count: Option<nat>,
)
    ensures
        ({
            let (status, found) = test_run::permissions_found(
                namespace,
                list_namespaces,
                list_pods,
                admin,
                count,
            );
            &&& status == if list_namespaces == Some(true) || list_pods == Some(true) {
                Status::Passed
            } else {
                Status::Warn
            }
            &&& found.error is None
            &&& found.checks.len() == 3
            &&& found.checks[0].allowed == list_namespaces && !found.checks[0].optional
            &&& found.checks[1].allowed == list_pods && !found.checks[1].optional
            &&& found.checks[2].allowed == admin && found.checks[2].optional
        }),
{
}

/// A step that ended changes that step alone.
pub proof fn ended_steps_change_nothing_else(
    r: ReportState,
    kind: StepKind,
    status: Status,
    found: Found,
    millis: u64,
    total: u64,
)
    requires
        report::complete(r),
    ensures
        ({
            let after = test_run::won(r, kind, status, found, millis, total);
            &&& report::complete(after)
            &&& after.steps[report::place(kind)].status == status
            &&& after.steps[report::place(kind)].found == found
            &&& after.steps[report::place(kind)].millis == Some(millis)
            &&& forall|i: int|
                0 <= i < 7 && i != report::place(kind) ==> #[trigger] after.steps[i] == r.steps[i]
            &&& after.done == r.done
            &&& after.version == r.version
        }),
{
}

/// A failed run is over: the step failed, the steps before it stay, and no step behind it passed
/// that hadn't.
pub proof fn failed_steps_end_the_run(
    r: ReportState,
    kind: StepKind,
    found: Found,
    note: Seq<char>,
    millis: u64,
    total: u64,
)
    requires
        report::complete(r),
    ensures
        ({
            let after = test_run::lost(r, kind, found, note, millis, total);
            &&& after.done
            &&& after.steps[report::place(kind)].status == Status::Fail
            &&& after.steps[report::place(kind)].found == found
            &&& forall|i: int|
                0 <= i < report::place(kind) ==> #[trigger] after.steps[i] == r.steps[i]
            &&& forall|i: int|
                report::place(kind) < i < 7 && (#[trigger] after.steps[i]).status == Status::Passed
                    ==> after.steps[i] == r.steps[i]
        }),
{
    report::failing_skips_the_rest(r, kind, found, note, millis);
}

// ----- Latency -----

/// The median is one of the samples, and there is one exactly if there are samples. As many
/// samples lie before it as half their number, rounded down, when they are put in order.
pub proof fn the_median_is_a_sample(samples: Seq<u64>)
    ensures
        conntest::median_of(samples) is Some <==> samples.len() > 0,
        conntest::median_of(samples) matches Some(m) ==> samples.contains(m),
        conntest::median_of(samples) matches Some(m) ==> exists|sorted: Seq<u64>|
            sorted.to_multiset() == samples.to_multiset() && sorted.len() == samples.len() && (
            forall|i: int, j: int| 0 <= i <= j < sorted.len() ==> sorted[i] <= sorted[j])
                && #[trigger] sorted[samples.len() as int / 2] == m,
{
    if samples.len() > 0 {
        let leq = conntest::by_size();
        let sorted = samples.sort_by(leq);
        samples.lemma_sort_by_ensures(leq);
        samples.to_multiset_ensures();
        sorted.to_multiset_ensures();
        let m = sorted[samples.len() as int / 2];
        assert(sorted.len() == samples.len());
        assert(sorted.contains(m));
        assert(sorted.to_multiset().contains(m));
        assert(samples.to_multiset().contains(m));
        assert forall|i: int, j: int| 0 <= i <= j < sorted.len() implies sorted[i] <= sorted[j] by {
            if i < j {
                assert(leq(sorted[i], sorted[j]));
            }
        }
    }
}

// ----- What is told -----

/// Who the user is, is told by the name the server gave, and the groups with it.
pub proof fn users_are_told_as_the_server_names_them(u: test_run::UserInfo)
    ensures
        u.username matches Some(name) ==> test_run::user_lines(u)[0] == name@,
        u.username is None ==> test_run::user_lines(u)[0] == "(unknown user)"@,
        u.groups matches Some(groups) ==> groups@.len() > 0 ==> test_run::user_lines(u).len() == 2
            && test_run::user_lines(u)[1] == "groups: "@ + text::joined(
            text::texts(groups@),
            ", "@,
        ),
{
}

/// Permissions are asked for in the context's namespace, or in the default one.
pub proof fn permissions_are_asked_for_in_the_namespace(n: Seq<char>)
    ensures
        n.len() > 0 ==> test_run::namespace_of(Some(n)) == n,
        test_run::namespace_of(None) == "default"@,
        test_run::namespace_of(Some(seq![])) == "default"@,
{
}

/// What kept a request from being answered is told as it was said.
pub proof fn failures_are_told_as_they_were_said(e: ConnectError, code: u16)
    ensures
        e matches ConnectError::Unreachable(m) ==> conntest::connect_text(e).0 == m@,
        e matches ConnectError::Auth { message, detail } ==> conntest::connect_text(e) == (
            message@,
            text::text_of(detail),
        ),
        e matches ConnectError::Forbidden(m) ==> m@.is_suffix_of(conntest::connect_text(e).0),
        e matches ConnectError::Config(m) ==> m@.is_suffix_of(conntest::connect_text(e).0),
        conntest::request_failure(Failure::Kube(e)) == conntest::connect_text(e),
        conntest::request_failure((Failure::Api { code, error: e })) == conntest::connect_text(e),
{
    if let ConnectError::Forbidden(m) = e {
        let t = "forbidden: "@ + m@;
        assert(t.subrange(t.len() - m@.len(), t.len() as int) =~= m@);
    }
    if let ConnectError::Config(m) = e {
        let t = "the kubeconfig can't be used: "@ + m@;
        assert(t.subrange(t.len() - m@.len(), t.len() as int) =~= m@);
    }
}

/// What has to be found out before credentials are judged: of a token when it ends, of a token
/// file whether it is there, of a certificate in a file what the file holds, of a plugin what it
/// gives, once running it is allowed.
pub proof fn questions_are_about_the_credentials(
    q: Question,
    d: Json,
    info: ContextInfo,
    allow_exec: bool,
    b: Fields,
    s: Seq<char>,
)
    requires
        signs_in_as(d, info, b),
        conntest::is_question(q, d, info, allow_exec),
    ensures
        info.auth is Token && json::field(b, "token"@) == Some(Json::Str(s)) ==> q is TokenExpiry
            && q->TokenExpiry_0@ == s,
        info.auth is TokenFile && json::field(b, "tokenFile"@) == Some(Json::Str(s)) ==> q
            is FileExists && q->FileExists_0@ == s,
        info.auth is ClientCertificate && json::field(b, "client-certificate-data"@) is None
            && json::field(b, "client-certificate"@) == Some(Json::Str(s)) ==> q is ReadFile
            && q->ReadFile_0@ == s,
        info.auth is Exec && !allow_exec ==> q is Nothing,
        info.auth is Exec && allow_exec && (json::field(b, "exec"@) matches Some(Json::Object(_)))
            ==> q is RunPlugin,
        info.auth is Anonymous || info.auth is Basic || info.auth is Oidc ==> q is Nothing,
{
}

} // verus!
