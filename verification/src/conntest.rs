//! What each step of "Test connection" asks and how it judges the answers: the network, the
//! CA to trust, the credentials, and what a rejection means.
//!
//! An exec plugin only runs with the user's consent; without it the credentials step refuses.

use crate::certs::{self, CertInfo, Moment};
use crate::document;
use crate::json::{self, Fields, Json};
use crate::model::{Doc, Kind};
use crate::outside;
use crate::pem;
use crate::report::{self, Findings, Fix, Found, Remedy, Status};
use crate::text::{self, cat, cat3, cat4};
use crate::tls::{self, Target, Trust};
use crate::value::Object;
use vstd::prelude::*;

verus! {

// ----- A context, as the test reads it -----

/// The command of an exec plugin, as it is shown.
#[derive(Debug)]
pub struct ExecSummary {
    pub command: String,
    pub subcommands: Vec<String>,
}

/// How a context authenticates.
#[derive(Debug)]
pub enum AuthMethod {
    Exec(ExecSummary),
    Token,
    TokenFile,
    ClientCertificate,
    Basic,
    /// No credentials.
    Anonymous,
    /// The host of the issuer.
    Oidc(String),
    OpenShift,
    /// The name of the auth provider.
    Provider(String),
}

/// A context with what its cluster and user say.
#[derive(Debug)]
pub struct ContextInfo {
    pub name: String,
    pub cluster: String,
    pub user: Option<String>,
    pub server: Option<String>,
    pub tls_server_name: Option<String>,
    pub proxy_url: Option<String>,
    pub insecure_skip_tls_verify: bool,
    pub namespace: Option<String>,
    pub auth: AuthMethod,
    /// Why the context can't be used.
    pub error: Option<String>,
}

/// What to test.
pub struct Input {
    pub doc: Doc,
    pub context: String,
    /// The kubeconfig's path (relative paths resolve against its folder; it names the client).
    pub file: String,
    /// The user agreed to run the context's exec plugin (or it's saved and already in use).
    pub allow_exec: bool,
}

/// The body of the context's cluster.
pub open spec fn cluster_body(d: Json, info: ContextInfo) -> Option<Fields> {
    document::body(d, Kind::Cluster, info.cluster@)
}

/// The body of the context's user.
pub open spec fn user_body(d: Json, info: ContextInfo) -> Option<Fields> {
    match info.user {
        Some(user) => document::body(d, Kind::User, user@),
        None => None,
    }
}

/// The text under a key of a body.
pub open spec fn body_text(body: Option<Fields>, key: Seq<char>) -> Option<Seq<char>> {
    match body {
        Some(o) => json::as_text(json::field(o, key)),
        None => None,
    }
}

/// The `exec` block of a body.
pub open spec fn exec_body(body: Option<Fields>) -> Option<Fields> {
    match body {
        Some(o) => json::as_fields(json::field(o, "exec"@)),
        None => None,
    }
}

fn cluster_of<'a>(doc: &'a Doc, info: &ContextInfo) -> (r: Option<&'a Object>)
    ensures
        match r {
            Some(b) => cluster_body(doc@, *info) == Some(b@),
            None => cluster_body(doc@, *info) is None,
        },
{
    doc.body(Kind::Cluster, info.cluster.as_str())
}

fn user_of<'a>(doc: &'a Doc, info: &ContextInfo) -> (r: Option<&'a Object>)
    ensures
        match r {
            Some(b) => user_body(doc@, *info) == Some(b@),
            None => user_body(doc@, *info) is None,
        },
{
    match &info.user {
        Some(user) => doc.body(Kind::User, user.as_str()),
        None => None,
    }
}

/// The view of an optional body.
pub open spec fn body_of(body: Option<&Object>) -> Option<Fields> {
    match body {
        Some(b) => Some(b@),
        None => None,
    }
}

fn text_in(body: Option<&Object>, key: &str) -> (r: Option<String>)
    ensures
        text::text_of(r) == body_text(body_of(body), key@),
{
    match body {
        Some(b) => match b.get(key) {
            Some(v) => match v.as_str() {
                Some(s) => Some(s.to_string()),
                None => None,
            },
            None => None,
        },
        None => None,
    }
}

fn exec_in<'a>(body: Option<&'a Object>) -> (r: Option<&'a Object>)
    ensures
        body_of(r) == exec_body(body_of(body)),
{
    match body {
        Some(b) => match b.get("exec") {
            Some(v) => v.as_object(),
            None => None,
        },
        None => None,
    }
}

// ----- The target -----

/// What to connect to, once the context is looked up; or why that isn't possible.
pub open spec fn target_of_context(
    found: Result<Option<ContextInfo>, String>,
    context: Seq<char>,
) -> Result<tls::Endpoint, Seq<char>> {
    match found {
        Err(e) => Err(e@),
        Ok(None) => Err("no context named \""@ + context + "\""@),
        Ok(Some(info)) => match info.error {
            Some(e) => Err(e@),
            None => match info.server {
                Some(server) if server@.len() > 0 => tls::target_of(
                    server@,
                    text::text_of(info.tls_server_name),
                ),
                _ => Err("the cluster has no server URL"@),
            },
        },
    }
}

/// What to connect to, once the context is looked up in the kubeconfig (which can't be used at
/// all with an error).
pub fn target_for(found: &Result<Option<ContextInfo>, String>, context: &str) -> (r: Result<
    Target,
    String,
>)
    ensures
        match r {
            Ok(t) => target_of_context(*found, context@) == Ok::<_, Seq<char>>(t@),
            Err(e) => target_of_context(*found, context@) == Err::<tls::Endpoint, _>(e@),
        },
{
    match found {
        Err(e) => Err(e.clone()),
        Ok(None) => Err(cat3("no context named \"", context, "\"")),
        Ok(Some(info)) => {
            if let Some(e) = &info.error {
                return Err(e.clone());
            }
            match &info.server {
                Some(server) => if server.as_str().is_empty() {
                    Err("the cluster has no server URL".to_string())
                } else {
                    match &info.tls_server_name {
                        Some(name) => Target::parse(server.as_str(), Some(name.as_str())),
                        None => Target::parse(server.as_str(), None),
                    }
                },
                None => Err("the cluster has no server URL".to_string()),
            }
        },
    }
}

/// The proxy to go through: the context's, else the environment's.
pub fn proxy_for(info: &ContextInfo, environment: Option<String>) -> (r: Option<String>)
    ensures
        text::text_of(r) == match info.proxy_url {
            Some(proxy) => Some(proxy@),
            None => text::text_of(environment),
        },
{
    match &info.proxy_url {
        Some(proxy) => Some(proxy.clone()),
        None => environment,
    }
}

// ----- The network -----

/// How connecting to an address went.
#[derive(Debug)]
pub enum Outcome {
    Connected,
    Refused,
    Failed(String),
    TimedOut,
}

/// An address that was tried.
#[derive(Debug)]
pub struct Attempt {
    pub addr: String,
    pub outcome: Outcome,
}

/// How looking up the host went: the addresses that were tried, in order.
#[derive(Debug)]
pub enum Lookup {
    TimedOut,
    Failed(String),
    Found(Vec<Attempt>),
}

/// What is said of an address that didn't connect.
pub open spec fn attempt_error(a: Attempt, port: u16) -> Seq<char> {
    match a.outcome {
        Outcome::Connected => seq![],
        Outcome::Refused => a.addr@ + " refused the connection (nothing listens on port "@
            + text::decimal(port as nat) + ")"@,
        Outcome::Failed(e) => "couldn't connect to "@ + a.addr@ + ": "@ + e@,
        Outcome::TimedOut => "connecting to "@ + a.addr@
            + " timed out (a firewall or VPN?)"@,
    }
}

/// The first address that connected; else what is said of the last one.
pub open spec fn connected_to(attempts: Seq<Attempt>, port: u16, last: Seq<char>) -> Result<
    Seq<char>,
    Seq<char>,
>
    decreases attempts.len(),
{
    if attempts.len() == 0 {
        Err(last)
    } else if attempts[0].outcome is Connected {
        Ok(attempts[0].addr@)
    } else {
        connected_to(attempts.drop_first(), port, attempt_error(attempts[0], port))
    }
}

/// What the network step comes to: how the server was reached, or why it wasn't.
pub open spec fn network_result(target: tls::Endpoint, lookup: Lookup, numeric: bool) -> Result<
    Seq<char>,
    Seq<char>,
> {
    match lookup {
        Lookup::TimedOut => Err("looking up "@ + target.host + " timed out"@),
        Lookup::Failed(e) => Err("couldn't resolve "@ + target.host + ": "@ + e@),
        Lookup::Found(attempts) => match connected_to(
            attempts@,
            target.port,
            "no addresses"@,
        ) {
            Ok(addr) => Ok(
                if numeric {
                    tls::authority_of(target)
                } else {
                    target.host + " → "@ + addr
                },
            ),
            Err(e) => Err(e),
        },
    }
}

/// What the network step comes to: how the server was reached, or why it wasn't. `numeric`
/// says that the host is an IP address.
pub fn judge_network(target: &Target, lookup: &Lookup, numeric: bool) -> (r: Result<
    String,
    String,
>)
    ensures
        tls::text_result(r) == network_result(target@, *lookup, numeric),
{
    match lookup {
        Lookup::TimedOut => Err(cat3("looking up ", target.host.as_str(), " timed out")),
        Lookup::Failed(e) => Err(
            cat4("couldn't resolve ", target.host.as_str(), ": ", e.as_str()),
        ),
        Lookup::Found(attempts) => {
            let mut last: String = "no addresses".to_string();
            let mut i: usize = 0;
            let ghost port = target.port;
            assert(attempts@.skip(0) =~= attempts@);
            while i < attempts.len()
                invariant
                    i <= attempts@.len(),
                    port == target.port,
                    *lookup == Lookup::Found(*attempts),
                    connected_to(attempts@, port, "no addresses"@) == connected_to(
                        attempts@.skip(i as int),
                        port,
                        last@,
                    ),
                decreases attempts@.len() - i,
            {
                let ghost rest = attempts@.skip(i as int);
                assert(rest[0] == attempts@[i as int]);
                assert(rest.drop_first() =~= attempts@.skip(i + 1));
                let addr: &str = attempts[i].addr.as_str();
                match &attempts[i].outcome {
                    Outcome::Connected => {
                        let via: String = if numeric {
                            target.authority()
                        } else {
                            cat3(target.host.as_str(), " → ", addr)
                        };
                        return Ok(via);
                    },
                    Outcome::Refused => {
                        last = cat4(
                            addr,
                            " refused the connection (nothing listens on port ",
                            text::decimal_text(target.port as u128).as_str(),
                            ")",
                        );
                    },
                    Outcome::Failed(e) => {
                        last = cat4("couldn't connect to ", addr, ": ", e.as_str());
                    },
                    Outcome::TimedOut => {
                        last = cat3(
                            "connecting to ",
                            addr,
                            " timed out (a firewall or VPN?)",
                        );
                    },
                }
                i += 1;
            }
            Err(last)
        },
    }
}

// ----- The CA -----

/// Where the CA to trust comes from.
#[derive(Debug)]
pub enum CaSource {
    /// `insecure-skip-tls-verify`.
    Insecure,
    /// `certificate-authority-data`.
    Data(String),
    /// The path of a CA file.
    File(String),
    /// The OS trust store.
    System,
}

/// Where the CA to trust comes from: the data first, then the file.
pub open spec fn is_ca_source(r: CaSource, d: Json, info: ContextInfo) -> bool {
    let cluster = cluster_body(d, info);
    if info.insecure_skip_tls_verify {
        r is Insecure
    } else {
        match body_text(cluster, "certificate-authority-data"@) {
            Some(data) => r is Data && r->Data_0@ == data,
            None => match body_text(cluster, "certificate-authority"@) {
                Some(path) => r is File && r->File_0@ == path,
                None => r is System,
            },
        }
    }
}

/// Where the CA to trust comes from: the data first, then the file.
pub fn ca_source(doc: &Doc, info: &ContextInfo) -> (r: CaSource)
    ensures
        is_ca_source(r, doc@, *info),
{
    if info.insecure_skip_tls_verify {
        return CaSource::Insecure;
    }
    let cluster = cluster_of(doc, info);
    if let Some(data) = text_in(cluster, "certificate-authority-data") {
        return CaSource::Data(data);
    }
    match text_in(cluster, "certificate-authority") {
        Some(path) => CaSource::File(path),
        None => CaSource::System,
    }
}

/// How trust in the kubeconfig's CA is shown: with its name where it has one.
pub open spec fn ca_label(pem: Seq<char>) -> Seq<char> {
    match certs::certs_in(pem) {
        Ok(found) if found.len() > 0 => "verified by the kubeconfig's CA \""@
            + certs::common_name_of(found[0].subject) + "\""@,
        _ => "verified by the kubeconfig's CA"@,
    }
}

/// What is trusted, and how that is shown; or why the CA can't be read. `file` is what reading
/// the CA file gave.
pub open spec fn trust_of(source: CaSource, file: Result<Seq<char>, Seq<char>>) -> Result<
    (Option<Seq<char>>, Seq<char>),
    Seq<char>,
> {
    match source {
        CaSource::Insecure => Ok((None, "not verified (insecure-skip-tls-verify)"@)),
        CaSource::System => Ok((None, "verified by the system trust store"@)),
        CaSource::Data(data) => match pem::data_text(data@) {
            Ok(pem) => Ok((Some(pem), ca_label(pem))),
            Err(e) => Err(e),
        },
        CaSource::File(path) => match file {
            Ok(pem) => Ok((Some(pem), ca_label(pem))),
            Err(e) => Err("can't read the CA file "@ + path@ + ": "@ + e),
        },
    }
}

fn label_of(pem: &str) -> (r: String)
    ensures
        r@ == ca_label(pem@),
{
    if let Ok(found) = certs::certificates(pem) {
        if found.len() > 0 {
            assert(certs::certs_view(found@)[0] == found@[0]@);
            return cat3(
                "verified by the kubeconfig's CA \"",
                found[0].common_name().as_str(),
                "\"",
            );
        }
    }
    "verified by the kubeconfig's CA".to_string()
}

/// What is trusted, and how that is shown; or why the CA can't be read. `file` is what reading
/// the CA file gave.
pub fn trust_from(source: &CaSource, file: &Result<String, String>) -> (r: Result<
    (Trust, String),
    String,
>)
    ensures
        match trust_of(*source, tls::text_result(*file)) {
            Err(e) => r is Err && r->Err_0@ == e,
            Ok((pem, label)) => match r {
                Ok((trust, l)) => l@ == label && match pem {
                    Some(pem) => trust is Pem && trust->Pem_0@ == pem,
                    None => if *source is Insecure {
                        trust is Insecure
                    } else {
                        trust is System
                    },
                },
                Err(_) => false,
            },
        },
{
    match source {
        CaSource::Insecure => Ok(
            (Trust::Insecure, "not verified (insecure-skip-tls-verify)".to_string()),
        ),
        CaSource::System => Ok(
            (Trust::System, "verified by the system trust store".to_string()),
        ),
        CaSource::Data(data) => match certs::pem_from_data(data.as_str()) {
            Ok(pem) => {
                let label: String = label_of(pem.as_str());
                Ok((Trust::Pem(pem), label))
            },
            Err(e) => Err(e),
        },
        CaSource::File(path) => match file {
            Ok(pem) => Ok((Trust::Pem(pem.clone()), label_of(pem.as_str()))),
            Err(e) => Err(cat4("can't read the CA file ", path.as_str(), ": ", e.as_str())),
        },
    }
}

// ----- Expiry -----

/// A moment, if there is one, before another.
pub open spec fn past(at: Option<Moment>, now: Moment) -> bool {
    match at {
        Some(at) => at.nanoseconds() < now.nanoseconds(),
        None => false,
    }
}

/// Whether one moment is before another.
pub fn before(a: Moment, b: Moment) -> (r: bool)
    ensures
        r == (a.nanoseconds() < b.nanoseconds()),
{
    let x: i128 = a.second as i128 * 1_000_000_000 + a.nanosecond as i128;
    let y: i128 = b.second as i128 * 1_000_000_000 + b.nanosecond as i128;
    x < y
}

/// How an expiry is noted behind a credential: whole minutes for the next two hours, else the
/// date.
pub open spec fn expiry_text(expires: Option<Moment>, now: Moment) -> Seq<char> {
    match expires {
        None => seq![],
        Some(at) => {
            let seconds = at.second - now.second;
            if seconds <= -60 {
                " · expired "@ + outside::minute_at(at.second, at.nanosecond)
            } else if seconds < 7200 {
                " · valid for "@ + text::decimal(
                    if seconds < 0 {
                        0
                    } else {
                        (seconds / 60) as nat
                    },
                ) + " min"@
            } else {
                " · valid until "@ + outside::minute_at(at.second, at.nanosecond)
            }
        },
    }
}

/// How an expiry is noted behind a credential.
pub fn expiry_note(expires: Option<Moment>, now: Moment) -> (r: String)
    ensures
        r@ == expiry_text(expires, now),
{
    match expires {
        Some(at) => {
            let seconds: i128 = at.second as i128 - now.second as i128;
            if seconds <= -60 {
                cat(" · expired ", outside::minute_text(at.second, at.nanosecond).as_str())
            } else if seconds < 7200 {
                let minutes: u128 = if seconds < 0 {
                    0
                } else {
                    seconds as u128 / 60
                };
                cat3(" · valid for ", text::decimal_text(minutes).as_str(), " min")
            } else {
                cat(" · valid until ", outside::minute_text(at.second, at.nanosecond).as_str())
            }
        },
        None => {
            let none: String = String::new();
            assert(none@ =~= Seq::empty());
            none
        },
    }
}

// ----- Credentials -----

/// The command of an exec plugin with its subcommands.
pub open spec fn command_line(s: ExecSummary) -> Seq<char> {
    if s.subcommands@.len() == 0 {
        s.command@
    } else {
        s.command@ + " "@ + text::joined(text::texts(s.subcommands@), " "@)
    }
}

/// The command of an exec plugin with its subcommands.
pub fn summary_line(summary: &ExecSummary) -> (r: String)
    ensures
        r@ == command_line(*summary),
{
    if summary.subcommands.len() == 0 {
        summary.command.clone()
    } else {
        cat3(
            summary.command.as_str(),
            " ",
            text::join(&summary.subcommands, " ").as_str(),
        )
    }
}

/// What the credentials step has to find out.
#[derive(Debug)]
pub enum Question {
    /// Nothing: the kubeconfig says it all.
    Nothing,
    /// Run the exec plugin (it isn't asked for a cached answer).
    RunPlugin,
    /// When does this token expire?
    TokenExpiry(String),
    /// Is there a file at this path?
    FileExists(String),
    /// What does the file at this path hold?
    ReadFile(String),
}

/// What an exec plugin gave.
#[derive(Debug)]
pub enum Plugin {
    /// A token, and when it expires if that is known.
    Token(Option<Moment>),
    /// A client certificate (PEM).
    ClientCertificate(String),
    /// It failed, with its stderr.
    Failed { message: String, stderr: Option<String> },
    /// It couldn't be asked.
    Other(String),
}

/// The answer to a question.
#[derive(Debug)]
pub enum Answer {
    Nothing,
    Plugin(Plugin),
    Expiry(Option<Moment>),
    /// Whether a file is there, or why it can't be reached.
    Exists(Result<(), String>),
    /// What a file holds, if it can be read.
    Contents(Option<String>),
}

/// The question of the credentials step. A plugin only runs with consent.
pub open spec fn is_question(q: Question, d: Json, info: ContextInfo, allow_exec: bool) -> bool {
    let user = user_body(d, info);
    match info.auth {
        AuthMethod::Exec(_) => if exec_body(user) is Some && allow_exec {
            q is RunPlugin
        } else {
            q is Nothing
        },
        AuthMethod::Token => match body_text(user, "token"@) {
            Some(token) => q is TokenExpiry && q->TokenExpiry_0@ == token,
            None => q is Nothing,
        },
        AuthMethod::TokenFile => q is FileExists && q->FileExists_0@ == token_path(user),
        AuthMethod::ClientCertificate => match body_text(user, "client-certificate-data"@) {
            Some(_) => q is Nothing,
            None => match body_text(user, "client-certificate"@) {
                Some(path) => q is ReadFile && q->ReadFile_0@ == path,
                None => q is Nothing,
            },
        },
        _ => q is Nothing,
    }
}

/// The path of the token file; empty if there is none.
pub open spec fn token_path(user: Option<Fields>) -> Seq<char> {
    match body_text(user, "tokenFile"@) {
        Some(path) => path,
        None => seq![],
    }
}

/// The question of the credentials step. A plugin only runs with consent.
pub fn question_for(doc: &Doc, info: &ContextInfo, allow_exec: bool) -> (r: Question)
    ensures
        is_question(r, doc@, *info, allow_exec),
{
    let user = user_of(doc, info);
    match &info.auth {
        AuthMethod::Exec(_) => if exec_in(user).is_some() && allow_exec {
            Question::RunPlugin
        } else {
            Question::Nothing
        },
        AuthMethod::Token => match text_in(user, "token") {
            Some(token) => Question::TokenExpiry(token),
            None => Question::Nothing,
        },
        AuthMethod::TokenFile => Question::FileExists(token_file(user)),
        AuthMethod::ClientCertificate => {
            if text_in(user, "client-certificate-data").is_some() {
                return Question::Nothing;
            }
            match text_in(user, "client-certificate") {
                Some(path) => Question::ReadFile(path),
                None => Question::Nothing,
            }
        },
        _ => Question::Nothing,
    }
}

fn token_file(user: Option<&Object>) -> (r: String)
    ensures
        r@ == token_path(body_of(user)),
{
    match text_in(user, "tokenFile") {
        Some(path) => path,
        None => {
            let none: String = String::new();
            assert(none@ =~= Seq::empty());
            none
        },
    }
}

/// Whether an answer is one to the question.
pub open spec fn answers(answer: Answer, question: Question) -> bool {
    match question {
        Question::Nothing => answer is Nothing,
        Question::RunPlugin => answer is Plugin,
        Question::TokenExpiry(_) => answer is Expiry,
        Question::FileExists(_) => answer is Exists,
        Question::ReadFile(_) => answer is Contents,
    }
}

/// Credentials that can be used: the status and lines of their step; else what the failed step
/// found.
pub type Judged = Result<(Status, Seq<Seq<char>>), Found>;

/// What is found with an error and plugin's stderr.
pub open spec fn plugin_failure(
    command: Seq<char>,
    hint: Option<Seq<char>>,
    message: Seq<char>,
    stderr: Option<Seq<char>>,
) -> Found {
    let not_found = text::contains_text(message, "was not found"@);
    Found {
        lines: seq![],
        error: Some(
            if !not_found {
                message
            } else if hint is None {
                "`"@ + command + "` isn't installed (or not in your login shell's PATH)"@
            } else {
                "`"@ + command + "` isn't installed: see the install hint"@
            },
        ),
        stderr,
        fix: match hint {
            Some(hint) if not_found => Some(Remedy::InstallHint(text::trimmed(hint))),
            _ => None,
        },
        checks: seq![],
    }
}

/// The first certificate in PEM text, if it can be read.
pub open spec fn first_cert(pem: Seq<char>) -> Option<certs::Cert> {
    match certs::certs_in(pem) {
        Ok(found) if found.len() > 0 => Some(found[0]),
        _ => None,
    }
}

/// What a client certificate from a plugin is shown as.
pub open spec fn plugin_cert_text(pem: Seq<char>) -> Seq<char> {
    match first_cert(pem) {
        Some(c) => " "@ + certs::common_name_of(c.subject) + " · valid until "@
            + outside::date_at(c.not_after),
        None => seq![],
    }
}

/// How the exec plugin's outcome is judged.
pub open spec fn judge_plugin(
    summary: ExecSummary,
    hint: Option<Seq<char>>,
    outcome: Plugin,
    now: Moment,
) -> Judged {
    match outcome {
        Plugin::Token(expires) => Ok(
            (
                Status::Passed,
                seq![command_line(summary) + " · token"@ + expiry_text(expires, now)],
            ),
        ),
        Plugin::ClientCertificate(pem) => Ok(
            (
                Status::Passed,
                seq![command_line(summary) + " · client certificate"@ + plugin_cert_text(pem@)],
            ),
        ),
        Plugin::Failed { message, stderr } => Err(
            plugin_failure(summary.command@, hint, message@, text::text_of(stderr)),
        ),
        Plugin::Other(e) => Err(report::error_found(e@)),
    }
}

/// How a token is judged by its expiry.
pub open spec fn judge_token(expiry: Option<Moment>, now: Moment) -> Judged {
    if past(expiry, now) {
        Ok(
            (
                Status::Warn,
                seq![
                    "bearer token · expired on "@ + outside::minute_at(
                        expiry->0.second,
                        expiry->0.nanosecond,
                    ) + " (the server decides)"@,
                ],
            ),
        )
    } else {
        Ok((Status::Passed, seq!["bearer token"@ + expiry_text(expiry, now)]))
    }
}

/// How a client certificate is judged; none if it can't be read.
pub open spec fn judge_certificate(pem: Option<Seq<char>>, now: Moment) -> Judged {
    match pem {
        None => Err(report::error_found("the client certificate can't be read"@)),
        Some(pem) => match first_cert(pem) {
            None => Err(report::error_found("the client certificate can't be read"@)),
            Some(c) => if certs::expired(c.not_after, now) {
                Err(
                    report::error_found(
                        "the client certificate expired on "@ + outside::date_at(c.not_after),
                    ),
                )
            } else {
                Ok(
                    (
                        Status::Passed,
                        seq![
                            "client certificate "@ + certs::common_name_of(c.subject)
                                + " · issued by "@ + certs::common_name_of(c.issuer)
                                + " · valid until "@ + outside::date_at(c.not_after),
                        ],
                    ),
                )
            },
        },
    }
}

/// The PEM of the user's client certificate: from the data, else from the file.
pub open spec fn client_pem(user: Option<Fields>, contents: Option<Seq<char>>) -> Option<
    Seq<char>,
> {
    match body_text(user, "client-certificate-data"@) {
        Some(data) => match pem::data_text(data) {
            Ok(pem) => Some(pem),
            Err(_) => None,
        },
        None => contents,
    }
}

/// How a context's credentials are judged, with the answer to the step's question.
pub open spec fn judged(
    d: Json,
    info: ContextInfo,
    allow_exec: bool,
    answer: Answer,
    now: Moment,
) -> Judged {
    let user = user_body(d, info);
    match info.auth {
        AuthMethod::Exec(summary) => match exec_body(user) {
            None => Err(report::error_found("the user has no exec config"@)),
            Some(exec) => if !allow_exec {
                Err(
                    report::error_found(
                        "Kubyl needs your OK to run `"@ + summary.command@ + "`"@,
                    ),
                )
            } else {
                judge_plugin(
                    summary,
                    json::as_text(json::field(exec, "installHint"@)),
                    answer->Plugin_0,
                    now,
                )
            },
        },
        AuthMethod::Token => judge_token(
            match answer {
                Answer::Expiry(at) => at,
                _ => None,
            },
            now,
        ),
        AuthMethod::TokenFile => match answer->Exists_0 {
            Err(e) => Err(
                report::error_found(
                    "can't read the token file "@ + token_path(user) + ": "@ + e@,
                ),
            ),
            Ok(_) => Ok((Status::Passed, seq!["token file "@ + token_path(user)])),
        },
        AuthMethod::ClientCertificate => judge_certificate(
            client_pem(
                user,
                match answer {
                    Answer::Contents(c) => text::text_of(c),
                    _ => None,
                },
            ),
            now,
        ),
        AuthMethod::Basic => Ok(
            (Status::Warn, seq!["basic auth (removed in Kubernetes 1.19)"@]),
        ),
        AuthMethod::Anonymous => Ok(
            (Status::Passed, seq!["no credentials: requests are anonymous"@]),
        ),
        AuthMethod::Oidc(host) => Ok((Status::Passed, seq!["OIDC · "@ + host@])),
        AuthMethod::OpenShift => Ok((Status::Passed, seq!["OpenShift OAuth token"@])),
        AuthMethod::Provider(name) => Ok(
            (
                Status::Warn,
                seq!["auth provider "@ + name@ + " (removed from kubectl 1.26)"@],
            ),
        ),
    }
}

/// The characters of a judgement.
pub open spec fn judged_view(r: Result<(Status, Vec<String>), Findings>) -> Judged {
    match r {
        Ok((status, lines)) => Ok((status, text::texts(lines@))),
        Err(found) => Err(found@),
    }
}

/// Usable credentials with one line.
fn usable(status: Status, line: String) -> (r: Result<(Status, Vec<String>), Findings>)
    ensures
        judged_view(r) == Ok::<_, Found>((status, seq![line@])),
{
    let mut lines: Vec<String> = Vec::new();
    lines.push(line);
    assert(text::texts(lines@) =~= seq![line@]);
    Ok((status, lines))
}

fn first_certificate(pem: &str) -> (r: Option<CertInfo>)
    ensures
        match r {
            Some(c) => first_cert(pem@) == Some(c@),
            None => first_cert(pem@) is None,
        },
{
    if let Ok(found) = certs::certificates(pem) {
        if found.len() > 0 {
            assert(certs::certs_view(found@)[0] == found@[0]@);
            return Some(found[0].clone());
        }
    }
    None
}

fn plugin_judgement(
    summary: &ExecSummary,
    hint: Option<String>,
    outcome: &Plugin,
    now: Moment,
) -> (r: Result<(Status, Vec<String>), Findings>)
    ensures
        judged_view(r) == judge_plugin(*summary, text::text_of(hint), *outcome, now),
{
    match outcome {
        Plugin::Token(expires) => usable(
            Status::Passed,
            cat3(
                summary_line(summary).as_str(),
                " · token",
                expiry_note(*expires, now).as_str(),
            ),
        ),
        Plugin::ClientCertificate(pem) => {
            let shown: String = match first_certificate(pem.as_str()) {
                Some(c) => cat4(
                    " ",
                    c.common_name().as_str(),
                    " · valid until ",
                    c.not_after_date().as_str(),
                ),
                None => {
                    let none: String = String::new();
                    assert(none@ =~= Seq::empty());
                    none
                },
            };
            usable(
                Status::Passed,
                cat3(summary_line(summary).as_str(), " · client certificate", shown.as_str()),
            )
        },
        Plugin::Failed { message, stderr } => {
            let not_found: bool = text::contains(message.as_str(), "was not found");
            let command: &str = summary.command.as_str();
            let mut found = Findings::none();
            found.stderr = report::clone_text(stderr);
            match (&hint, not_found) {
                (Some(hint), true) => {
                    found.fix = Some(Fix::InstallHint(text::trim(hint.as_str())));
                    found.error = Some(
                        cat3("`", command, "` isn't installed: see the install hint"),
                    );
                },
                (None, true) => {
                    found.error = Some(
                        cat3(
                            "`",
                            command,
                            "` isn't installed (or not in your login shell's PATH)",
                        ),
                    );
                },
                _ => {
                    found.error = Some(message.clone());
                },
            }
            Err(found)
        },
        Plugin::Other(e) => Err(Findings::of_error(e.clone())),
    }
}

fn token_judgement(expiry: Option<Moment>, now: Moment) -> (r: Result<
    (Status, Vec<String>),
    Findings,
>)
    ensures
        judged_view(r) == judge_token(expiry, now),
{
    if let Some(at) = expiry {
        if before(at, now) {
            return usable(
                Status::Warn,
                cat3(
                    "bearer token · expired on ",
                    outside::minute_text(at.second, at.nanosecond).as_str(),
                    " (the server decides)",
                ),
            );
        }
    }
    usable(Status::Passed, cat("bearer token", expiry_note(expiry, now).as_str()))
}

fn certificate_judgement(pem: Option<String>, now: Moment) -> (r: Result<
    (Status, Vec<String>),
    Findings,
>)
    ensures
        judged_view(r) == judge_certificate(text::text_of(pem), now),
{
    if let Some(pem) = pem {
        if let Some(cert) = first_certificate(pem.as_str()) {
            if cert.expired_at(now) {
                return Err(
                    Findings::of_error(
                        cat(
                            "the client certificate expired on ",
                            cert.not_after_date().as_str(),
                        ),
                    ),
                );
            }
            let line: String = cat4(
                cat("client certificate ", cert.common_name().as_str()).as_str(),
                " · issued by ",
                certs::common_name(cert.issuer.as_str()).as_str(),
                cat(" · valid until ", cert.not_after_date().as_str()).as_str(),
            );
            assert(line@ =~= "client certificate "@ + certs::common_name_of(cert@.subject)
                + " · issued by "@ + certs::common_name_of(cert@.issuer) + " · valid until "@
                + outside::date_at(cert@.not_after));
            return usable(Status::Passed, line);
        }
    }
    Err(Findings::of_error("the client certificate can't be read".to_string()))
}

/// How a context's credentials are judged, with the answer to the step's question.
pub fn judge_credentials(
    doc: &Doc,
    info: &ContextInfo,
    allow_exec: bool,
    answer: &Answer,
    now: Moment,
) -> (r: Result<(Status, Vec<String>), Findings>)
    requires
        forall|q: Question|
            #[trigger] is_question(q, doc@, *info, allow_exec) ==> answers(*answer, q),
    ensures
        judged_view(r) == judged(doc@, *info, allow_exec, *answer, now),
        r matches Ok((status, _)) ==> status == Status::Passed || status == Status::Warn,
{
    let question: Question = question_for(doc, info, allow_exec);
    assert(answers(*answer, question));
    let user = user_of(doc, info);
    match &info.auth {
        AuthMethod::Exec(summary) => match exec_in(user) {
            None => Err(Findings::of_error("the user has no exec config".to_string())),
            Some(exec) => {
                if !allow_exec {
                    return Err(
                        Findings::of_error(
                            cat3("Kubyl needs your OK to run `", summary.command.as_str(), "`"),
                        ),
                    );
                }
                match answer {
                    Answer::Plugin(outcome) => plugin_judgement(
                        summary,
                        text_in(Some(exec), "installHint"),
                        outcome,
                        now,
                    ),
                    _ => vstd::pervasive::unreached(),
                }
            },
        },
        AuthMethod::Token => token_judgement(
            match answer {
                Answer::Expiry(at) => *at,
                _ => None,
            },
            now,
        ),
        AuthMethod::TokenFile => {
            let path: String = token_file(user);
            match answer {
                Answer::Exists(Ok(_)) => usable(
                    Status::Passed,
                    cat("token file ", path.as_str()),
                ),
                Answer::Exists(Err(e)) => Err(
                    Findings::of_error(
                        cat4("can't read the token file ", path.as_str(), ": ", e.as_str()),
                    ),
                ),
                _ => vstd::pervasive::unreached(),
            }
        },
        AuthMethod::ClientCertificate => {
            let pem: Option<String> = match text_in(user, "client-certificate-data") {
                Some(data) => match certs::pem_from_data(data.as_str()) {
                    Ok(pem) => Some(pem),
                    Err(_) => None,
                },
                None => match answer {
                    Answer::Contents(c) => report::clone_text(c),
                    _ => None,
                },
            };
            certificate_judgement(pem, now)
        },
        AuthMethod::Basic => usable(
            Status::Warn,
            "basic auth (removed in Kubernetes 1.19)".to_string(),
        ),
        AuthMethod::Anonymous => usable(
            Status::Passed,
            "no credentials: requests are anonymous".to_string(),
        ),
        AuthMethod::Oidc(host) => usable(Status::Passed, cat("OIDC · ", host.as_str())),
        AuthMethod::OpenShift => usable(Status::Passed, "OpenShift OAuth token".to_string()),
        AuthMethod::Provider(name) => usable(
            Status::Warn,
            cat3("auth provider ", name.as_str(), " (removed from kubectl 1.26)"),
        ),
    }
}

// ----- Rejections -----

/// Why a client can't be built or a request failed.
#[derive(Debug)]
pub enum ConnectError {
    Auth { message: String, detail: Option<String> },
    SignInRequired,
    Forbidden(String),
    Unreachable(String),
    Config(String),
}

/// A connection error in words, and the detail behind it.
pub open spec fn connect_text(e: ConnectError) -> (Seq<char>, Option<Seq<char>>) {
    match e {
        ConnectError::Auth { message, detail } => (message@, text::text_of(detail)),
        ConnectError::SignInRequired => ("sign-in required"@, None),
        ConnectError::Forbidden(m) => ("forbidden: "@ + m@, None),
        ConnectError::Unreachable(m) => (m@, None),
        ConnectError::Config(m) => ("the kubeconfig can't be used: "@ + m@, None),
    }
}

/// A connection error in words, and the detail behind it.
pub fn describe_connect(err: &ConnectError) -> (r: (String, Option<String>))
    ensures
        (r.0@, text::text_of(r.1)) == connect_text(*err),
{
    match err {
        ConnectError::Auth { message, detail } => (
            message.clone(),
            report::clone_text(detail),
        ),
        ConnectError::SignInRequired => ("sign-in required".to_string(), None),
        ConnectError::Forbidden(m) => (cat("forbidden: ", m.as_str()), None),
        ConnectError::Unreachable(m) => (m.clone(), None),
        ConnectError::Config(m) => (cat("the kubeconfig can't be used: ", m.as_str()), None),
    }
}

/// Why a request failed.
#[derive(Debug)]
pub enum Failure {
    /// The API server answered with an error code.
    Api { code: u16, error: ConnectError },
    /// Anything else that went wrong.
    Kube(ConnectError),
    Timeout,
    /// Known to be rejected already (`/version` said 401).
    Unauthorized,
}

/// A failed request in words, and the detail behind it.
pub open spec fn request_failure(f: Failure) -> (Seq<char>, Option<Seq<char>>) {
    match f {
        Failure::Timeout => ("the API server didn't answer within 15 s"@, None),
        Failure::Unauthorized => ("the API server rejected the credentials (401)"@, None),
        Failure::Api { code, error } => connect_text(error),
        Failure::Kube(error) => connect_text(error),
    }
}

impl Failure {
    /// The failure in words, and the detail behind it.
    pub fn describe(&self) -> (r: (String, Option<String>))
        ensures
            (r.0@, text::text_of(r.1)) == request_failure(*self),
    {
        match self {
            Failure::Timeout => ("the API server didn't answer within 15 s".to_string(), None),
            Failure::Unauthorized => (
                "the API server rejected the credentials (401)".to_string(),
                None,
            ),
            Failure::Api { code: _, error } => describe_connect(error),
            Failure::Kube(error) => describe_connect(error),
        }
    }
}

/// Why a 401 happened, in words, for the auth method in use. `expiry` is when the user's token
/// expires, if it says so.
pub open spec fn rejection(auth: AuthMethod, expiry: Option<Moment>, now: Moment) -> (
    Seq<char>,
    Option<Remedy>,
) {
    match auth {
        AuthMethod::Token | AuthMethod::OpenShift => if past(expiry, now) {
            (
                "the token expired on "@ + outside::minute_at(
                    expiry->0.second,
                    expiry->0.nanosecond,
                ) + ": the API server rejected it (401)"@,
                Some(Remedy::ReplaceToken),
            )
        } else {
            (
                "the API server rejected the token (401): it's wrong, revoked or expired"@,
                Some(Remedy::ReplaceToken),
            )
        },
        AuthMethod::TokenFile => (
            "the API server rejected the token from the token file (401)"@,
            None,
        ),
        AuthMethod::Exec(summary) => (
            "the API server rejected the token from `"@ + summary.command@ + "` (401)"@,
            None,
        ),
        AuthMethod::ClientCertificate => (
            "the API server didn't accept the client certificate (401): is it signed by this cluster's client CA?"@,
            None,
        ),
        AuthMethod::Oidc(_) => (
            "the API server rejected the ID token (401): is the cluster set up for this issuer and client ID?"@,
            Some(Remedy::SignIn),
        ),
        AuthMethod::Anonymous => (
            "anonymous requests aren't allowed (401): add credentials"@,
            None,
        ),
        _ => ("the API server rejected the credentials (401)"@, None),
    }
}

/// Why a 401 happened, in words, for the auth method in use. `expiry` is when the user's token
/// expires, if it says so.
pub fn unauthorized_message(info: &ContextInfo, expiry: Option<Moment>, now: Moment) -> (r: (
    String,
    Option<Fix>,
))
    ensures
        (r.0@, report::fix_of(r.1)) == rejection(info.auth, expiry, now),
{
    match &info.auth {
        AuthMethod::Token | AuthMethod::OpenShift => {
            if let Some(at) = expiry {
                if before(at, now) {
                    return (
                        cat3(
                            "the token expired on ",
                            outside::minute_text(at.second, at.nanosecond).as_str(),
                            ": the API server rejected it (401)",
                        ),
                        Some(Fix::ReplaceToken),
                    );
                }
            }
            (
                "the API server rejected the token (401): it's wrong, revoked or expired".to_string(),
                Some(Fix::ReplaceToken),
            )
        },
        AuthMethod::TokenFile => (
            "the API server rejected the token from the token file (401)".to_string(),
            None,
        ),
        AuthMethod::Exec(summary) => (
            cat3(
                "the API server rejected the token from `",
                summary.command.as_str(),
                "` (401)",
            ),
            None,
        ),
        AuthMethod::ClientCertificate => (
            "the API server didn't accept the client certificate (401): is it signed by this cluster's client CA?".to_string(),
            None,
        ),
        AuthMethod::Oidc(_) => (
            "the API server rejected the ID token (401): is the cluster set up for this issuer and client ID?".to_string(),
            Some(Fix::SignIn),
        ),
        AuthMethod::Anonymous => (
            "anonymous requests aren't allowed (401): add credentials".to_string(),
            None,
        ),
        _ => ("the API server rejected the credentials (401)".to_string(), None),
    }
}

/// The token whose expiry tells why a 401 happened, if the user has one.
pub fn rejected_token(doc: &Doc, info: &ContextInfo) -> (r: Option<String>)
    ensures
        text::text_of(r) == match info.auth {
            AuthMethod::Token | AuthMethod::OpenShift => body_text(
                user_body(doc@, *info),
                "token"@,
            ),
            _ => None,
        },
{
    match &info.auth {
        AuthMethod::Token | AuthMethod::OpenShift => text_in(user_of(doc, info), "token"),
        _ => None,
    }
}

// ----- Latency -----

/// In ascending order.
pub open spec fn by_size() -> spec_fn(u64, u64) -> bool {
    |a: u64, b: u64| a <= b
}

/// The sample in the middle of all samples in order (the later of the two in the middle).
pub open spec fn median_of(samples: Seq<u64>) -> Option<u64> {
    if samples.len() == 0 {
        None
    } else {
        Some(samples.sort_by(by_size())[samples.len() as int / 2])
    }
}

/// The sample in the middle of all samples in order (the later of the two in the middle).
pub fn median(samples: &Vec<u64>) -> (r: Option<u64>)
    ensures
        r == median_of(samples@),
{
    let mut sorted: Vec<u64> = Vec::new();
    let mut n: usize = 0;
    assert(sorted@ =~= samples@.take(0));
    while n < samples.len()
        invariant
            n <= samples@.len(),
            sorted@.len() == n,
            vstd::relations::sorted_by(sorted@, by_size()),
            sorted@.to_multiset() == samples@.take(n as int).to_multiset(),
        decreases samples@.len() - n,
    {
        let s: u64 = samples[n];
        let ghost before = sorted@;
        let mut at: usize = 0;
        while at < sorted.len() && sorted[at] <= s
            invariant
                at <= sorted@.len(),
                sorted@ == before,
                forall|j: int| 0 <= j < at ==> before[j] <= s,
            decreases sorted@.len() - at,
        {
            at += 1;
        }
        sorted.insert(at, s);
        proof {
            broadcast use vstd::seq_lib::group_to_multiset_ensures;

            let after = sorted@;
            let leq = by_size();
            assert(after =~= before.insert(at as int, s));
            assert forall|i: int, j: int| 0 <= i < j < after.len() implies #[trigger] leq(
                after[i],
                after[j],
            ) by {
                assert forall|k: int| at <= k < before.len() implies s <= #[trigger] before[k] by {
                    if k > at {
                        assert(leq(before[at as int], before[k]));
                    }
                }
                let a = if i < at {
                    before[i]
                } else if i == at {
                    s
                } else {
                    before[i - 1]
                };
                let b = if j < at {
                    before[j]
                } else if j == at {
                    s
                } else {
                    before[j - 1]
                };
                assert(after[i] == a && after[j] == b);
                if i < at && j < at {
                    assert(leq(before[i], before[j]));
                } else if i < at && j > at {
                    assert(before[i] <= s && s <= before[j - 1]);
                } else if i > at {
                    assert(leq(before[i - 1], before[j - 1]));
                }
            }
            assert(after.remove(at as int) =~= before);
            assert(after[at as int] == s && after.contains(s));
            assert(after.to_multiset() =~= before.to_multiset().insert(s));
            assert(samples@.take(n + 1) =~= samples@.take(n as int).push(s));
        }
        n += 1;
    }
    proof {
        assert(samples@.take(n as int) =~= samples@);
        samples@.lemma_sort_by_ensures(by_size());
        vstd::seq_lib::lemma_sorted_unique(sorted@, samples@.sort_by(by_size()), by_size());
    }
    if sorted.len() == 0 {
        None
    } else {
        Some(sorted[sorted.len() / 2])
    }
}

// ----- Laws -----

/// Without consent the credentials step runs no plugin, and an exec user's test fails there.
pub proof fn plugins_need_consent(d: Json, info: ContextInfo, q: Question, answer: Answer, now: Moment)
    requires
        info.auth is Exec,
        is_question(q, d, info, false),
    ensures
        q is Nothing,
        judged(d, info, false, answer, now) is Err,
{
}

} // verus!
