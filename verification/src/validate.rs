//! Problems of a kubeconfig, shown while editing: in the list, on the form, in the YAML tab.
//!
//! The certificate, key and token files the document points at are read by the caller
//! ([`wanted`] says which). Never puts secret values in messages.

use crate::certs::{self, CertInfo, Moment};
use crate::conntest;
use crate::document;
use crate::fields::{self, get_bool, get_str, PemSource};
use crate::issues::{self, Issue};
use crate::json::{Fields, Json};
use crate::model::{self, Doc, EntryRef, Kind};
use crate::outside;
use crate::pem;
use crate::text::{self, cat, cat3, cat4, cat5, same};
use crate::tls::Target;
use crate::users::AuthKind;
use crate::value::Object;
use vstd::prelude::*;

verus! {

#[derive(Clone, Copy, Debug, PartialEq, Eq, PartialOrd, Ord, Hash, Structural)]
pub enum Severity {
    Error,
    Warning,
    Info,
}

/// One problem (or noteworthy fact, for [`Severity::Info`]).
#[derive(Debug, PartialEq, Eq)]
pub struct Problem {
    pub severity: Severity,
    /// The entry it's about (`None`: the whole file).
    pub entry: Option<EntryRef>,
    /// The key inside the entry's body (`server`, `exec.command`…), or at the top level.
    pub field: Option<String>,
    pub message: String,
}

impl View for Problem {
    type V = Issue;

    open spec fn view(&self) -> Issue {
        Issue {
            severity: self.severity,
            entry: match self.entry {
                Some(e) => Some((e.kind, e.name@)),
                None => None,
            },
            field: text::text_of(self.field),
            message: self.message@,
        }
    }
}

pub open spec fn problems_view(v: Seq<Problem>) -> Seq<Issue> {
    Seq::new(v.len(), |i: int| v[i]@)
}

/// Why a file can't be used.
#[derive(Debug)]
pub enum IoError {
    NotFound,
    PermissionDenied,
    Other(String),
}

impl IoError {
    pub fn message(&self) -> (r: String)
        ensures
            r@ == issues::io_text(*self),
    {
        match self {
            IoError::NotFound => "the file doesn't exist".to_string(),
            IoError::PermissionDenied => "permission denied".to_string(),
            IoError::Other(e) => e.clone(),
        }
    }
}

/// What the disk says about what a document points at. Paths are as the document has them.
#[derive(Debug)]
pub struct Facts {
    /// What the certificate and key files hold; one that isn't listed doesn't exist.
    pub files: Vec<(String, Result<String, IoError>)>,
    /// Which token files are there; one that isn't listed doesn't exist.
    pub token_files: Vec<(String, Result<(), IoError>)>,
    /// The commands that were found.
    pub commands: Vec<String>,
    /// When tokens expire, as far as they say so.
    pub expiries: Vec<(String, Moment)>,
}

fn push(
    out: &mut Vec<Problem>,
    severity: Severity,
    entry: Option<EntryRef>,
    field: Option<&str>,
    message: String,
)
    ensures
        problems_view(final(out)@) == problems_view(old(out)@).push(
            Issue {
                severity,
                entry: match entry {
                    Some(e) => Some((e.kind, e.name@)),
                    None => None,
                },
                field: match field {
                    Some(f) => Some(f@),
                    None => None,
                },
                message: message@,
            },
        ),
{
    let field: Option<String> = match field {
        Some(f) => Some(f.to_string()),
        None => None,
    };
    let ghost before = out@;
    let problem = Problem { severity, entry, field, message };
    let ghost issue = problem@;
    out.push(problem);
    assert(problems_view(out@) =~= problems_view(before).push(issue));
}

/// Adds a problem of an entry.
fn push_for(
    out: &mut Vec<Problem>,
    severity: Severity,
    kind: Kind,
    name: &str,
    field: &str,
    message: String,
)
    ensures
        problems_view(final(out)@) == problems_view(old(out)@).push(
            issues::entry_issue(severity, kind, name@, field@, message@),
        ),
{
    push(out, severity, Some(EntryRef::new(kind, name)), Some(field), message);
}

// ----- Facts -----

fn contents(files: &Vec<(String, Result<String, IoError>)>, path: &str) -> (r: Result<
    String,
    String,
>)
    ensures
        crate::tls::text_result(r) == issues::contents(files@, path@),
{
    let mut i: usize = 0;
    assert(files@.skip(0) =~= files@);
    while i < files.len()
        invariant
            i <= files@.len(),
            issues::contents(files@, path@) == issues::contents(files@.skip(i as int), path@),
        decreases files@.len() - i,
    {
        assert(files@.skip(i as int).drop_first() =~= files@.skip(i + 1));
        if same(files[i].0.as_str(), path) {
            return match &files[i].1 {
                Ok(s) => Ok(s.clone()),
                Err(e) => Err(e.message()),
            };
        }
        i += 1;
    }
    Err(IoError::NotFound.message())
}

fn unreachable_file(files: &Vec<(String, Result<(), IoError>)>, path: &str) -> (r: Option<String>)
    ensures
        text::text_of(r) == issues::unreachable(files@, path@),
{
    let mut i: usize = 0;
    assert(files@.skip(0) =~= files@);
    while i < files.len()
        invariant
            i <= files@.len(),
            issues::unreachable(files@, path@) == issues::unreachable(
                files@.skip(i as int),
                path@,
            ),
        decreases files@.len() - i,
    {
        assert(files@.skip(i as int).drop_first() =~= files@.skip(i + 1));
        if same(files[i].0.as_str(), path) {
            return match &files[i].1 {
                Ok(_) => None,
                Err(e) => Some(e.message()),
            };
        }
        i += 1;
    }
    Some(IoError::NotFound.message())
}

fn expiry_of(tokens: &Vec<(String, Moment)>, token: &str) -> (r: Option<Moment>)
    ensures
        r == issues::expiry_of(tokens@, token@),
{
    let mut i: usize = 0;
    assert(tokens@.skip(0) =~= tokens@);
    while i < tokens.len()
        invariant
            i <= tokens@.len(),
            issues::expiry_of(tokens@, token@) == issues::expiry_of(
                tokens@.skip(i as int),
                token@,
            ),
        decreases tokens@.len() - i,
    {
        assert(tokens@.skip(i as int).drop_first() =~= tokens@.skip(i + 1));
        if same(tokens[i].0.as_str(), token) {
            return Some(tokens[i].1);
        }
        i += 1;
    }
    None
}

fn found(commands: &Vec<String>, command: &str) -> (r: bool)
    ensures
        r == text::texts(commands@).contains(command@),
{
    let ghost all = text::texts(commands@);
    let mut i: usize = 0;
    while i < commands.len()
        invariant
            i <= commands@.len(),
            all == text::texts(commands@),
            forall|j: int| 0 <= j < i ==> #[trigger] all[j] != command@,
        decreases commands@.len() - i,
    {
        assert(all[i as int] == commands@[i as int]@);
        if same(commands[i].as_str(), command) {
            return true;
        }
        i += 1;
    }
    false
}

/// The PEM of a file or `*-data` value; `None` when there is none.
pub fn load_pem(source: &PemSource, facts: &Facts) -> (r: Result<Option<String>, String>)
    ensures
        match *source {
            PemSource::Unset => r is Ok && r->Ok_0 is None,
            PemSource::Data(data) => match pem::data_text(data@) {
                Ok(pem) => r is Ok && text::text_of(r->Ok_0) == Some(pem),
                Err(e) => r is Err && r->Err_0@ == e,
            },
            PemSource::File(path) => match issues::contents(facts.files@, path@) {
                Ok(pem) => r is Ok && text::text_of(r->Ok_0) == Some(pem),
                Err(e) => r is Err && r->Err_0@ == "can't read "@ + path@ + ": "@ + e,
            },
        },
{
    match source {
        PemSource::Unset => Ok(None),
        PemSource::Data(data) => match certs::pem_from_data(data.as_str()) {
            Ok(pem) => Ok(Some(pem)),
            Err(e) => Err(e),
        },
        PemSource::File(path) => match contents(&facts.files, path.as_str()) {
            Ok(pem) => Ok(Some(pem)),
            Err(e) => Err(cat4("can't read ", path.as_str(), ": ", e.as_str())),
        },
    }
}

/// The view of what a PEM source gives.
pub open spec fn loaded_view(r: Result<Option<String>, String>) -> Result<
    Option<Seq<char>>,
    Seq<char>,
> {
    match r {
        Ok(pem) => Ok(text::text_of(pem)),
        Err(e) => Err(e@),
    }
}

/// The PEM under two keys of a body, and the key that a problem with it is shown at.
fn load(
    body: &Object,
    file_key: &'static str,
    data_key: &'static str,
    facts: &Facts,
) -> (r: (&'static str, Result<Option<String>, String>))
    ensures
        r.0@ == issues::pem_key(body@, file_key@, data_key@),
        loaded_view(r.1) == issues::loaded(body@, file_key@, data_key@, facts.files@),
{
    let source: PemSource = PemSource::read(body, file_key, data_key);
    let key: &'static str = match source {
        PemSource::File(_) => file_key,
        _ => data_key,
    };
    (key, load_pem(&source, facts))
}

// ----- Entries -----

/// RFC 1123 label: what namespace names must be.
pub fn is_dns_label(name: &str) -> (r: bool)
    ensures
        r == issues::dns_label(name@),
{
    let cs: Vec<char> = text::chars(name);
    if cs.len() == 0 || cs.len() > 63 {
        return false;
    }
    let mut i: usize = 0;
    while i < cs.len()
        invariant
            i <= cs@.len(),
            cs@ == name@,
            forall|j: int| 0 <= j < i ==> issues::label_char(#[trigger] cs@[j]),
        decreases cs@.len() - i,
    {
        let c: char = cs[i];
        let fits: bool = ('a' <= c && c <= 'z') || ('0' <= c && c <= '9') || c == '-';
        if !fits {
            assert(!issues::label_char(name@[i as int]));
            return false;
        }
        i += 1;
    }
    cs[0] != '-' && cs[cs.len() - 1] != '-'
}

fn body_field(body: Option<&Object>, key: &str) -> (r: String)
    ensures
        r@ == issues::body_field(conntest::body_of(body), key@),
{
    match body {
        Some(b) => {
            assert(text::slices([key]@) =~= seq![key@]);
            get_str(b, &[key])
        },
        None => {
            let none: String = String::new();
            assert(none@ =~= Seq::empty());
            none
        },
    }
}

fn context(doc: &Doc, name: &str, out: &mut Vec<Problem>)
    ensures
        problems_view(final(out)@) == problems_view(old(out)@) + issues::context_issues(
            doc@,
            name@,
        ),
{
    let ghost before = problems_view(out@);
    let body = doc.body(Kind::Context, name);
    let cluster: String = body_field(body, "cluster");
    if cluster.as_str().is_empty() {
        push_for(out, Severity::Error, Kind::Context, name, "cluster", "no cluster".to_string());
    } else if !doc.contains(Kind::Cluster, cluster.as_str()) {
        push_for(
            out,
            Severity::Error,
            Kind::Context,
            name,
            "cluster",
            cat3("cluster \"", cluster.as_str(), "\" doesn't exist in this file"),
        );
    }
    let user: String = body_field(body, "user");
    if !user.as_str().is_empty() && !doc.contains(Kind::User, user.as_str()) {
        push_for(
            out,
            Severity::Error,
            Kind::Context,
            name,
            "user",
            cat3("user \"", user.as_str(), "\" doesn't exist in this file"),
        );
    }
    let namespace: String = body_field(body, "namespace");
    if !namespace.as_str().is_empty() && !is_dns_label(namespace.as_str()) {
        push_for(
            out,
            Severity::Warning,
            Kind::Context,
            name,
            "namespace",
            cat3("\"", namespace.as_str(), "\" isn't a valid namespace name"),
        );
    }
    assert(problems_view(out@) =~= before + issues::context_issues(doc@, name@));
}

fn expiry(
    what: &str,
    cert: &CertInfo,
    kind: Kind,
    name: &str,
    field: &str,
    info_when_ok: bool,
    now: Moment,
    out: &mut Vec<Problem>,
)
    ensures
        problems_view(final(out)@) == problems_view(old(out)@) + issues::expiry_issues(
            what@,
            cert@,
            kind,
            name@,
            field@,
            info_when_ok,
            now,
        ),
{
    let ghost before = problems_view(out@);
    if cert.expired_at(now) {
        push_for(
            out,
            Severity::Error,
            kind,
            name,
            field,
            cat4("the ", what, " expired on ", cert.not_after_date().as_str()),
        );
    } else if cert.expires_soon_at(now) {
        let head: String = cat4("the ", what, " expires on ", cert.not_after_date().as_str());
        push_for(
            out,
            Severity::Warning,
            kind,
            name,
            field,
            cat4(
                head.as_str(),
                " (in ",
                text::signed_decimal_text(cert.days_left_at(now)).as_str(),
                " days)",
            ),
        );
    } else if info_when_ok {
        push_for(
            out,
            Severity::Info,
            kind,
            name,
            field,
            cat5(
                what,
                " ",
                cert.common_name().as_str(),
                " valid until ",
                cert.not_after_date().as_str(),
            ),
        );
    }
    assert(problems_view(out@) =~= before + issues::expiry_issues(
        what@,
        cert@,
        kind,
        name@,
        field@,
        info_when_ok,
        now,
    ));
}

fn server(name: &str, body: &Object, out: &mut Vec<Problem>)
    ensures
        problems_view(final(out)@) == problems_view(old(out)@) + issues::server_issues(
            name@,
            body@,
        ),
{
    let ghost before = problems_view(out@);
    assert(text::slices(["server"]@) =~= seq!["server"@]);
    let server: String = get_str(body, &["server"]);
    if server.as_str().is_empty() {
        push_for(
            out,
            Severity::Error,
            Kind::Cluster,
            name,
            "server",
            "no server URL".to_string(),
        );
    } else {
        match Target::parse(server.as_str(), None) {
            Err(e) => push_for(out, Severity::Error, Kind::Cluster, name, "server", e),
            Ok(target) => {
                if !target.https {
                    push_for(
                        out,
                        Severity::Warning,
                        Kind::Cluster,
                        name,
                        "server",
                        "plain HTTP: credentials and data travel unencrypted".to_string(),
                    );
                }
            },
        }
    }
    assert(problems_view(out@) =~= before + issues::server_issues(name@, body@));
}

fn insecure(name: &str, body: &Object, out: &mut Vec<Problem>)
    ensures
        problems_view(final(out)@) == problems_view(old(out)@) + issues::insecure_issues(
            name@,
            body@,
        ),
{
    let ghost before = problems_view(out@);
    assert(text::slices(["insecure-skip-tls-verify"]@) =~= seq!["insecure-skip-tls-verify"@]);
    if get_bool(body, &["insecure-skip-tls-verify"]) {
        let has_ca: bool = match PemSource::read(body, fields::CA_FILE, fields::CA_DATA) {
            PemSource::Unset => false,
            _ => true,
        };
        if has_ca {
            push_for(
                out,
                Severity::Error,
                Kind::Cluster,
                name,
                "insecure-skip-tls-verify",
                "skipping TLS verification can't be combined with a CA; kubectl refuses this".to_string(),
            );
        } else {
            push_for(
                out,
                Severity::Warning,
                Kind::Cluster,
                name,
                "insecure-skip-tls-verify",
                "TLS isn't verified: anyone on the network path can read the credentials".to_string(),
            );
        }
    }
    assert(problems_view(out@) =~= before + issues::insecure_issues(name@, body@));
}

fn cluster(name: &str, body: &Object, facts: &Facts, now: Moment, out: &mut Vec<Problem>)
    ensures
        problems_view(final(out)@) == problems_view(old(out)@) + issues::cluster_issues(
            name@,
            body@,
            *facts,
            now,
        ),
{
    let ghost before = problems_view(out@);
    server(name, body, out);
    insecure(name, body, out);
    let ghost so_far = problems_view(out@);
    let (field, pem) = load(body, fields::CA_FILE, fields::CA_DATA, facts);
    match pem {
        Ok(None) => {},
        Err(e) => push_for(
            out,
            Severity::Error,
            Kind::Cluster,
            name,
            field,
            cat("CA: ", e.as_str()),
        ),
        Ok(Some(pem)) => match certs::certificates(pem.as_str()) {
            Err(e) => push_for(
                out,
                Severity::Error,
                Kind::Cluster,
                name,
                field,
                cat("CA: ", e.as_str()),
            ),
            Ok(found) => {
                let ghost all = certs::certs_view(found@);
                let mut i: usize = 0;
                assert(all.take(0) =~= Seq::empty());
                assert(so_far + Seq::<Issue>::empty() =~= so_far);
                while i < found.len()
                    invariant
                        i <= found@.len(),
                        all == certs::certs_view(found@),
                        problems_view(out@) == so_far + issues::ca_issues(
                            all.take(i as int),
                            name@,
                            field@,
                            now,
                        ),
                    decreases found@.len() - i,
                {
                    assert(all.take(i + 1).drop_last() =~= all.take(i as int));
                    let ghost have = problems_view(out@);
                    expiry("CA", &found[i], Kind::Cluster, name, field, true, now, out);
                    assert(problems_view(out@) =~= so_far + issues::ca_issues(
                        all.take(i + 1),
                        name@,
                        field@,
                        now,
                    ));
                    i += 1;
                }
                assert(all.take(i as int) =~= all);
            },
        },
    }
    assert(problems_view(out@) =~= before + issues::cluster_issues(name@, body@, *facts, now));
}

fn client_cert(name: &str, body: &Object, facts: &Facts, now: Moment, out: &mut Vec<Problem>)
    ensures
        problems_view(final(out)@) == problems_view(old(out)@) + issues::client_cert_issues(
            name@,
            body@,
            *facts,
            now,
        ),
{
    let ghost before = problems_view(out@);
    let (field, pem) = load(body, fields::CERT_FILE, fields::CERT_DATA, facts);
    match pem {
        Ok(None) => push_for(
            out,
            Severity::Error,
            Kind::User,
            name,
            field,
            "no client certificate".to_string(),
        ),
        Err(e) => push_for(
            out,
            Severity::Error,
            Kind::User,
            name,
            field,
            cat("client certificate: ", e.as_str()),
        ),
        Ok(Some(pem)) => match certs::certificates(pem.as_str()) {
            Err(e) => push_for(
                out,
                Severity::Error,
                Kind::User,
                name,
                field,
                cat("client certificate: ", e.as_str()),
            ),
            Ok(found) => {
                if found.len() > 0 {
                    assert(certs::certs_view(found@)[0] == found@[0]@);
                    expiry(
                        "client certificate",
                        &found[0],
                        Kind::User,
                        name,
                        field,
                        false,
                        now,
                        out,
                    );
                }
            },
        },
    }
    assert(problems_view(out@) =~= before + issues::client_cert_issues(name@, body@, *facts, now));
}

fn client_key(name: &str, body: &Object, facts: &Facts, out: &mut Vec<Problem>)
    ensures
        problems_view(final(out)@) == problems_view(old(out)@) + issues::client_key_issues(
            name@,
            body@,
            *facts,
        ),
{
    let ghost before = problems_view(out@);
    let (field, pem) = load(body, fields::KEY_FILE, fields::KEY_DATA, facts);
    match pem {
        Ok(None) => push_for(
            out,
            Severity::Error,
            Kind::User,
            name,
            field,
            "no client key".to_string(),
        ),
        Err(e) => push_for(
            out,
            Severity::Error,
            Kind::User,
            name,
            field,
            cat("client key: ", e.as_str()),
        ),
        Ok(Some(pem)) => {
            if let Err(e) = certs::check_private_key(pem.as_str()) {
                push_for(
                    out,
                    Severity::Error,
                    Kind::User,
                    name,
                    field,
                    cat("client key: ", e.as_str()),
                );
            }
        },
    }
    assert(problems_view(out@) =~= before + issues::client_key_issues(name@, body@, *facts));
}

fn token(name: &str, body: &Object, facts: &Facts, now: Moment, out: &mut Vec<Problem>)
    ensures
        problems_view(final(out)@) == problems_view(old(out)@) + issues::token_issues(
            name@,
            body@,
            *facts,
            now,
        ),
{
    let ghost before = problems_view(out@);
    assert(text::slices(["token"]@) =~= seq!["token"@]);
    let token: String = get_str(body, &["token"]);
    if token.as_str().is_empty() {
        push_for(
            out,
            Severity::Error,
            Kind::User,
            name,
            "token",
            "the token is empty".to_string(),
        );
    } else if let Some(at) = expiry_of(&facts.expiries, token.as_str()) {
        if conntest::before(at, now) {
            push_for(
                out,
                Severity::Warning,
                Kind::User,
                name,
                "token",
                cat(
                    "the token expired on ",
                    outside::minute_text(at.second, at.nanosecond).as_str(),
                ),
            );
        }
    }
    assert(problems_view(out@) =~= before + issues::token_issues(name@, body@, *facts, now));
}

fn token_file(name: &str, body: &Object, facts: &Facts, out: &mut Vec<Problem>)
    ensures
        problems_view(final(out)@) == problems_view(old(out)@) + issues::token_file_issues(
            name@,
            body@,
            *facts,
        ),
{
    let ghost before = problems_view(out@);
    assert(text::slices(["tokenFile"]@) =~= seq!["tokenFile"@]);
    let file: String = get_str(body, &["tokenFile"]);
    if file.as_str().is_empty() {
        push_for(
            out,
            Severity::Error,
            Kind::User,
            name,
            "tokenFile",
            "no token file".to_string(),
        );
    } else if let Some(e) = unreachable_file(&facts.token_files, file.as_str()) {
        push_for(
            out,
            Severity::Error,
            Kind::User,
            name,
            "tokenFile",
            cat4("can't read ", file.as_str(), ": ", e.as_str()),
        );
    }
    assert(problems_view(out@) =~= before + issues::token_file_issues(name@, body@, *facts));
}

fn exec(name: &str, body: &Object, facts: &Facts, out: &mut Vec<Problem>)
    ensures
        problems_view(final(out)@) == problems_view(old(out)@) + issues::exec_issues(
            name@,
            body@,
            *facts,
        ),
{
    let ghost before = problems_view(out@);
    assert(text::slices(["exec", "command"]@) =~= seq!["exec"@, "command"@]);
    assert(text::slices(["exec", "apiVersion"]@) =~= seq!["exec"@, "apiVersion"@]);
    let command: String = get_str(body, &["exec", "command"]);
    let api: String = get_str(body, &["exec", "apiVersion"]);
    if command.as_str().is_empty() {
        push_for(
            out,
            Severity::Error,
            Kind::User,
            name,
            "exec.command",
            "the exec plugin has no command".to_string(),
        );
    } else if !found(&facts.commands, command.as_str()) {
        push_for(
            out,
            Severity::Warning,
            Kind::User,
            name,
            "exec.command",
            cat3("`", command.as_str(), "` wasn't found in PATH (login shell)"),
        );
    }
    if api.as_str().is_empty() {
        push_for(
            out,
            Severity::Error,
            Kind::User,
            name,
            "exec.apiVersion",
            "the exec plugin needs an apiVersion".to_string(),
        );
    } else if text::ends_with(api.as_str(), "v1alpha1") {
        push_for(
            out,
            Severity::Warning,
            Kind::User,
            name,
            "exec.apiVersion",
            cat(
                api.as_str(),
                " was removed from kubectl 1.24; use client.authentication.k8s.io/v1",
            ),
        );
    }
    assert(problems_view(out@) =~= before + issues::exec_issues(name@, body@, *facts));
}

fn oidc(name: &str, body: &Object, out: &mut Vec<Problem>)
    ensures
        problems_view(final(out)@) == problems_view(old(out)@) + issues::oidc_issues(
            name@,
            body@,
        ),
{
    let ghost before = problems_view(out@);
    assert(text::slices(["auth-provider", "config", "idp-issuer-url"]@) =~= seq![
        "auth-provider"@,
        "config"@,
        "idp-issuer-url"@,
    ]);
    assert(text::slices(["auth-provider", "config", "client-id"]@) =~= seq![
        "auth-provider"@,
        "config"@,
        "client-id"@,
    ]);
    if get_str(body, &["auth-provider", "config", "idp-issuer-url"]).as_str().is_empty() {
        push_for(
            out,
            Severity::Error,
            Kind::User,
            name,
            "auth-provider.config.idp-issuer-url",
            "the OIDC provider needs an issuer URL".to_string(),
        );
    }
    if get_str(body, &["auth-provider", "config", "client-id"]).as_str().is_empty() {
        push_for(
            out,
            Severity::Error,
            Kind::User,
            name,
            "auth-provider.config.client-id",
            "the OIDC provider needs an client ID".to_string(),
        );
    }
    assert(problems_view(out@) =~= before + issues::oidc_issues(name@, body@));
}

fn user(name: &str, body: &Object, facts: &Facts, now: Moment, out: &mut Vec<Problem>)
    ensures
        problems_view(final(out)@) == problems_view(old(out)@) + issues::user_issues(
            name@,
            body@,
            *facts,
            now,
        ),
{
    let ghost before = problems_view(out@);
    match AuthKind::detect(body) {
        AuthKind::ClientCertificate => {
            client_cert(name, body, facts, now, out);
            client_key(name, body, facts, out);
        },
        AuthKind::Token => token(name, body, facts, now, out),
        AuthKind::TokenFile => token_file(name, body, facts, out),
        AuthKind::Exec => exec(name, body, facts, out),
        AuthKind::OidcProvider => oidc(name, body, out),
        AuthKind::Basic => push_for(
            out,
            Severity::Warning,
            Kind::User,
            name,
            "username",
            "basic auth was removed in Kubernetes 1.19".to_string(),
        ),
        AuthKind::OtherProvider => push_for(
            out,
            Severity::Warning,
            Kind::User,
            name,
            "auth-provider",
            "this auth provider was removed from kubectl 1.26; use its exec plugin".to_string(),
        ),
        AuthKind::Unset => {},
    }
    assert(problems_view(out@) =~= before + issues::user_issues(name@, body@, *facts, now));
}

// ----- Everything -----

fn list(doc: &Doc, kind: Kind, out: &mut Vec<Problem>)
    ensures
        problems_view(final(out)@) == problems_view(old(out)@) + issues::list_issues(doc@, kind),
{
    let ghost before = problems_view(out@);
    let twice: Vec<String> = model::duplicate_names(doc, kind);
    let ghost all = text::texts(twice@);
    proof {
        assert(issues::are_duplicates(all, document::names(doc@, kind)));
        issues::lemma_ascending_unique(all, issues::duplicates(doc@, kind));
    }
    let ghost wanted = issues::list_issues(doc@, kind);
    let mut i: usize = 0;
    assert(before + wanted.take(0) =~= before);
    while i < twice.len()
        invariant
            i <= twice@.len(),
            all == text::texts(twice@),
            all == issues::duplicates(doc@, kind),
            wanted == issues::list_issues(doc@, kind),
            problems_view(out@) == before + wanted.take(i as int),
        decreases twice@.len() - i,
    {
        let name: &str = twice[i].as_str();
        push(
            out,
            Severity::Error,
            Some(EntryRef::new(kind, name)),
            None,
            cat5("two ", kind.label(), "s are named \"", name, "\"; kubectl uses the first"),
        );
        assert(all[i as int] == name@);
        assert(problems_view(out@) =~= before + wanted.take(i + 1));
        i += 1;
    }
    let unnamed: usize = doc.unnamed(kind);
    if unnamed > 0 {
        push(
            out,
            Severity::Error,
            None,
            Some(kind.list_key()),
            cat4(
                text::decimal_text(unnamed as u128).as_str(),
                " ",
                kind.list_key(),
                " without a name",
            ),
        );
    }
    assert(problems_view(out@) =~= before + wanted);
}

fn current(doc: &Doc, out: &mut Vec<Problem>)
    ensures
        problems_view(final(out)@) == problems_view(old(out)@) + issues::current_issues(doc@),
{
    let ghost before = problems_view(out@);
    if let Some(current) = doc.current_context() {
        if !doc.contains(Kind::Context, current) {
            push(
                out,
                Severity::Warning,
                None,
                Some("current-context"),
                cat3("current-context \"", current, "\" doesn't exist"),
            );
        }
    }
    assert(problems_view(out@) =~= before + issues::current_issues(doc@));
}

/// Everything wrong with `doc` at a moment.
pub fn validate(doc: &Doc, facts: &Facts, now: Moment) -> (r: Vec<Problem>)
    ensures
        problems_view(r@) == issues::issues(doc@, *facts, now),
{
    let mut out: Vec<Problem> = Vec::new();
    assert(problems_view(out@) =~= Seq::empty());
    list(doc, Kind::Context, &mut out);
    list(doc, Kind::Cluster, &mut out);
    list(doc, Kind::User, &mut out);
    current(doc, &mut out);
    let ghost before = problems_view(out@);
    let names: Vec<String> = doc.names(Kind::Context);
    let ghost all = text::texts(names@);
    let mut i: usize = 0;
    assert(all.take(0) =~= Seq::empty());
    assert(before + Seq::<Issue>::empty() =~= before);
    while i < names.len()
        invariant
            i <= names@.len(),
            all == text::texts(names@),
            problems_view(out@) == before + issues::all_context_issues(doc@, all.take(i as int)),
        decreases names@.len() - i,
    {
        assert(all.take(i + 1).drop_last() =~= all.take(i as int));
        assert(all[i as int] == names@[i as int]@);
        context(doc, names[i].as_str(), &mut out);
        assert(problems_view(out@) =~= before + issues::all_context_issues(doc@, all.take(i + 1)));
        i += 1;
    }
    assert(all.take(i as int) =~= all);
    let ghost contexts = problems_view(out@);
    let bodies: Vec<(String, Option<Object>)> = doc.bodies(Kind::Cluster);
    let ghost clusters = model::bodies_view(bodies@);
    let empty: Object = Object::new();
    let mut j: usize = 0;
    assert(clusters.take(0) =~= Seq::empty());
    assert(contexts + Seq::<Issue>::empty() =~= contexts);
    while j < bodies.len()
        invariant
            j <= bodies@.len(),
            clusters == model::bodies_view(bodies@),
            empty@ == Seq::<(Seq<char>, Json)>::empty(),
            problems_view(out@) == contexts + issues::all_cluster_issues(
                clusters.take(j as int),
                *facts,
                now,
            ),
        decreases bodies@.len() - j,
    {
        assert(clusters.take(j + 1).drop_last() =~= clusters.take(j as int));
        assert(clusters[j as int] == (bodies@[j as int].0@, model::object_of(bodies@[j as int].1)));
        let body: &Object = match &bodies[j].1 {
            Some(b) => b,
            None => &empty,
        };
        cluster(bodies[j].0.as_str(), body, facts, now, &mut out);
        assert(problems_view(out@) =~= contexts + issues::all_cluster_issues(
            clusters.take(j + 1),
            *facts,
            now,
        ));
        j += 1;
    }
    assert(clusters.take(j as int) =~= clusters);
    let ghost so_far = problems_view(out@);
    let bodies: Vec<(String, Option<Object>)> = doc.bodies(Kind::User);
    let ghost users = model::bodies_view(bodies@);
    let mut k: usize = 0;
    assert(users.take(0) =~= Seq::empty());
    assert(so_far + Seq::<Issue>::empty() =~= so_far);
    while k < bodies.len()
        invariant
            k <= bodies@.len(),
            users == model::bodies_view(bodies@),
            empty@ == Seq::<(Seq<char>, Json)>::empty(),
            problems_view(out@) == so_far + issues::all_user_issues(
                users.take(k as int),
                *facts,
                now,
            ),
        decreases bodies@.len() - k,
    {
        assert(users.take(k + 1).drop_last() =~= users.take(k as int));
        assert(users[k as int] == (bodies@[k as int].0@, model::object_of(bodies@[k as int].1)));
        let body: &Object = match &bodies[k].1 {
            Some(b) => b,
            None => &empty,
        };
        user(bodies[k].0.as_str(), body, facts, now, &mut out);
        assert(problems_view(out@) =~= so_far + issues::all_user_issues(
            users.take(k + 1),
            *facts,
            now,
        ));
        k += 1;
    }
    assert(users.take(k as int) =~= users);
    out
}

// ----- What has to be looked up -----

/// What [`validate`] wants looked up.
#[derive(Debug)]
pub struct Wanted {
    /// Certificate and key files.
    pub files: Vec<String>,
    pub token_files: Vec<String>,
    pub commands: Vec<String>,
    pub tokens: Vec<String>,
}

fn push_unless_empty(out: &mut Vec<String>, s: String)
    ensures
        text::texts(final(out)@) == text::texts(old(out)@) + issues::unless_empty(s@),
{
    let ghost before = out@;
    let ghost t = s@;
    if !s.as_str().is_empty() {
        out.push(s);
    }
    assert(text::texts(out@) =~= text::texts(before) + issues::unless_empty(t));
}

fn push_file(out: &mut Vec<String>, body: &Object, file_key: &str, data_key: &str)
    ensures
        text::texts(final(out)@) == text::texts(old(out)@) + issues::pem_file(
            body@,
            file_key@,
            data_key@,
        ),
{
    let ghost before = out@;
    let ghost wanted = issues::pem_file(body@, file_key@, data_key@);
    if let PemSource::File(path) = PemSource::read(body, file_key, data_key) {
        out.push(path);
    }
    assert(text::texts(out@) =~= text::texts(before) + wanted);
}

/// What [`validate`] wants looked up for `doc`.
pub fn wanted(doc: &Doc) -> (r: Wanted)
    ensures
        text::texts(r.files@) == issues::wanted_files(doc@),
        text::texts(r.token_files@) == issues::wanted_of_users(
            doc@,
            |o: Fields| issues::user_token_files(o),
        ),
        text::texts(r.commands@) == issues::wanted_of_users(
            doc@,
            |o: Fields| issues::user_commands(o),
        ),
        text::texts(r.tokens@) == issues::wanted_of_users(
            doc@,
            |o: Fields| issues::user_tokens(o),
        ),
{
    let mut files: Vec<String> = Vec::new();
    let mut token_files: Vec<String> = Vec::new();
    let mut commands: Vec<String> = Vec::new();
    let mut tokens: Vec<String> = Vec::new();
    let empty: Object = Object::new();
    let ghost of_cluster = |o: Fields| issues::cluster_files(o);
    let ghost of_user = |o: Fields| issues::user_files(o);
    let ghost of_token_file = |o: Fields| issues::user_token_files(o);
    let ghost of_command = |o: Fields| issues::user_commands(o);
    let ghost of_token = |o: Fields| issues::user_tokens(o);
    let bodies: Vec<(String, Option<Object>)> = doc.bodies(Kind::Cluster);
    let ghost clusters = model::bodies_view(bodies@);
    let mut j: usize = 0;
    assert(clusters.take(0) =~= Seq::empty());
    assert(text::texts(files@) =~= Seq::empty());
    while j < bodies.len()
        invariant
            j <= bodies@.len(),
            clusters == model::bodies_view(bodies@),
            empty@ == Seq::<(Seq<char>, Json)>::empty(),
            of_cluster == (|o: Fields| issues::cluster_files(o)),
            text::texts(files@) == issues::gathered(clusters.take(j as int), of_cluster),
        decreases bodies@.len() - j,
    {
        assert(clusters.take(j + 1).drop_last() =~= clusters.take(j as int));
        assert(clusters[j as int] == (bodies@[j as int].0@, model::object_of(bodies@[j as int].1)));
        let body: &Object = match &bodies[j].1 {
            Some(b) => b,
            None => &empty,
        };
        push_file(&mut files, body, fields::CA_FILE, fields::CA_DATA);
        assert(of_cluster(body@) == issues::cluster_files(body@));
        j += 1;
    }
    assert(clusters.take(j as int) =~= clusters);
    let ghost before = text::texts(files@);
    let bodies: Vec<(String, Option<Object>)> = doc.bodies(Kind::User);
    let ghost users = model::bodies_view(bodies@);
    let mut k: usize = 0;
    assert(users.take(0) =~= Seq::empty());
    assert(before + Seq::<Seq<char>>::empty() =~= before);
    assert(text::texts(token_files@) =~= Seq::empty());
    assert(text::texts(commands@) =~= Seq::empty());
    assert(text::texts(tokens@) =~= Seq::empty());
    while k < bodies.len()
        invariant
            k <= bodies@.len(),
            users == model::bodies_view(bodies@),
            empty@ == Seq::<(Seq<char>, Json)>::empty(),
            of_user == (|o: Fields| issues::user_files(o)),
            of_token_file == (|o: Fields| issues::user_token_files(o)),
            of_command == (|o: Fields| issues::user_commands(o)),
            of_token == (|o: Fields| issues::user_tokens(o)),
            text::texts(files@) == before + issues::gathered(users.take(k as int), of_user),
            text::texts(token_files@) == issues::gathered(users.take(k as int), of_token_file),
            text::texts(commands@) == issues::gathered(users.take(k as int), of_command),
            text::texts(tokens@) == issues::gathered(users.take(k as int), of_token),
        decreases bodies@.len() - k,
    {
        assert(users.take(k + 1).drop_last() =~= users.take(k as int));
        assert(users[k as int] == (bodies@[k as int].0@, model::object_of(bodies@[k as int].1)));
        let body: &Object = match &bodies[k].1 {
            Some(b) => b,
            None => &empty,
        };
        let ghost had = (
            text::texts(files@),
            text::texts(token_files@),
            text::texts(commands@),
            text::texts(tokens@),
        );
        match AuthKind::detect(body) {
            AuthKind::ClientCertificate => {
                push_file(&mut files, body, fields::CERT_FILE, fields::CERT_DATA);
                push_file(&mut files, body, fields::KEY_FILE, fields::KEY_DATA);
            },
            AuthKind::Token => {
                assert(text::slices(["token"]@) =~= seq!["token"@]);
                push_unless_empty(&mut tokens, get_str(body, &["token"]));
            },
            AuthKind::TokenFile => {
                assert(text::slices(["tokenFile"]@) =~= seq!["tokenFile"@]);
                push_unless_empty(&mut token_files, get_str(body, &["tokenFile"]));
            },
            AuthKind::Exec => {
                assert(text::slices(["exec", "command"]@) =~= seq!["exec"@, "command"@]);
                push_unless_empty(&mut commands, get_str(body, &["exec", "command"]));
            },
            _ => {},
        }
        proof {
            let next = users.take(k + 1);
            assert(issues::body_or_empty(next.last().1) == body@);
            assert(of_user(body@) == issues::user_files(body@));
            assert(of_token_file(body@) == issues::user_token_files(body@));
            assert(of_command(body@) == issues::user_commands(body@));
            assert(of_token(body@) == issues::user_tokens(body@));
            assert(text::texts(files@) =~= had.0 + issues::user_files(body@));
            assert(text::texts(token_files@) =~= had.1 + issues::user_token_files(body@));
            assert(text::texts(commands@) =~= had.2 + issues::user_commands(body@));
            assert(text::texts(tokens@) =~= had.3 + issues::user_tokens(body@));
            assert(text::texts(files@) =~= before + issues::gathered(next, of_user));
        }
        k += 1;
    }
    assert(users.take(k as int) =~= users);
    Wanted { files, token_files, commands, tokens }
}

// ----- Problems of an entry -----

/// Whether a problem is one of an entry.
pub open spec fn is_of(p: Issue, entry: EntryRef) -> bool {
    p.entry == Some((entry.kind, entry.name@))
}

/// The problems of an entry with a severity, in order.
pub open spec fn with_severity(v: Seq<Issue>, entry: EntryRef, severity: Severity) -> Seq<Issue>
    decreases v.len(),
{
    if v.len() == 0 {
        seq![]
    } else {
        let before = with_severity(v.drop_last(), entry, severity);
        if is_of(v.last(), entry) && v.last().severity == severity {
            before.push(v.last())
        } else {
            before
        }
    }
}

pub open spec fn refs_view(v: Seq<&Problem>) -> Seq<Issue> {
    Seq::new(v.len(), |i: int| v[i]@)
}

pub fn concerns(problem: &Problem, entry: &EntryRef) -> (r: bool)
    ensures
        r == is_of(problem@, *entry),
{
    match &problem.entry {
        Some(e) => e.kind == entry.kind && same(e.name.as_str(), entry.name.as_str()),
        None => false,
    }
}

fn append_severity<'a>(
    out: &mut Vec<&'a Problem>,
    problems: &'a [Problem],
    entry: &EntryRef,
    severity: Severity,
)
    ensures
        refs_view(final(out)@) == refs_view(old(out)@) + with_severity(
            problems_view(problems@),
            *entry,
            severity,
        ),
{
    let ghost before = refs_view(out@);
    let ghost all = problems_view(problems@);
    let mut i: usize = 0;
    assert(all.take(0) =~= Seq::empty());
    assert(before + Seq::<Issue>::empty() =~= before);
    while i < problems.len()
        invariant
            i <= problems@.len(),
            all == problems_view(problems@),
            refs_view(out@) == before + with_severity(all.take(i as int), *entry, severity),
        decreases problems@.len() - i,
    {
        assert(all.take(i + 1).drop_last() =~= all.take(i as int));
        let ghost have = out@;
        let problem: &Problem = &problems[i];
        assert(all[i as int] == problem@);
        if problem.severity == severity && concerns(problem, entry) {
            out.push(problem);
            assert(refs_view(out@) =~= refs_view(have).push(problem@));
        }
        assert(refs_view(out@) =~= before + with_severity(all.take(i + 1), *entry, severity));
        i += 1;
    }
    assert(all.take(i as int) =~= all);
}

/// The problems of one entry, worst first.
pub fn of_entry<'a>(problems: &'a [Problem], entry: &EntryRef) -> (r: Vec<&'a Problem>)
    ensures
        refs_view(r@) == with_severity(problems_view(problems@), *entry, Severity::Error)
            + with_severity(problems_view(problems@), *entry, Severity::Warning)
            + with_severity(problems_view(problems@), *entry, Severity::Info),
{
    let mut out: Vec<&'a Problem> = Vec::new();
    assert(refs_view(out@) =~= Seq::empty());
    append_severity(&mut out, problems, entry, Severity::Error);
    append_severity(&mut out, problems, entry, Severity::Warning);
    append_severity(&mut out, problems, entry, Severity::Info);
    assert(refs_view(out@) =~= with_severity(problems_view(problems@), *entry, Severity::Error)
        + with_severity(problems_view(problems@), *entry, Severity::Warning) + with_severity(
        problems_view(problems@),
        *entry,
        Severity::Info,
    ));
    out
}

/// Whether an entry has a problem with this severity.
pub open spec fn has_severity(v: Seq<Issue>, entry: EntryRef, severity: Severity) -> bool {
    exists|i: int|
        0 <= i < v.len() && is_of(#[trigger] v[i], entry) && v[i].severity == severity
}

/// The worst severity of an entry's problems (Info doesn't count).
pub fn worst(problems: &[Problem], entry: &EntryRef) -> (r: Option<Severity>)
    ensures
        ({
            let all = problems_view(problems@);
            r == if has_severity(all, *entry, Severity::Error) {
                Some(Severity::Error)
            } else if has_severity(all, *entry, Severity::Warning) {
                Some(Severity::Warning)
            } else {
                None
            }
        }),
{
    let ghost all = problems_view(problems@);
    let mut warned: bool = false;
    let mut i: usize = 0;
    while i < problems.len()
        invariant
            i <= problems@.len(),
            all == problems_view(problems@),
            forall|j: int|
                0 <= j < i && is_of(#[trigger] all[j], *entry) ==> all[j].severity
                    != Severity::Error,
            warned == exists|j: int|
                0 <= j < i && is_of(#[trigger] all[j], *entry) && all[j].severity
                    == Severity::Warning,
        decreases problems@.len() - i,
    {
        let problem: &Problem = &problems[i];
        assert(all[i as int] == problem@);
        if concerns(problem, entry) {
            if problem.severity == Severity::Error {
                assert(has_severity(all, *entry, Severity::Error));
                return Some(Severity::Error);
            }
            if problem.severity == Severity::Warning {
                warned = true;
            }
        }
        i += 1;
    }
    if warned {
        Some(Severity::Warning)
    } else {
        None
    }
}

// ----- Where a problem stands -----

/// A step on the way to a value.
#[derive(Debug, PartialEq, Eq)]
pub enum Seg {
    Key(String),
    Index(usize),
}

/// A step as a mathematical value.
pub enum SegView {
    Key(Seq<char>),
    Index(int),
}

impl View for Seg {
    type V = SegView;

    open spec fn view(&self) -> SegView {
        match *self {
            Seg::Key(k) => SegView::Key(k@),
            Seg::Index(i) => SegView::Index(i as int),
        }
    }
}

pub open spec fn segs_view(v: Seq<Seg>) -> Seq<SegView> {
    Seq::new(v.len(), |i: int| v[i]@)
}

pub open spec fn keys(parts: Seq<Seq<char>>) -> Seq<SegView> {
    Seq::new(parts.len(), |i: int| SegView::Key(parts[i]))
}

/// The path of a problem: the entry's list item, then its body field.
pub open spec fn issue_path(d: Json, p: Issue) -> Seq<SegView> {
    match p.entry {
        Some((kind, name)) => {
            let list = seq![SegView::Key(document::list_key(kind))];
            if !document::contains(d, kind, name) {
                list
            } else {
                list + seq![SegView::Index(document::entry_index(d, kind, name))]
                    + match p.field {
                    Some(field) => seq![SegView::Key(document::body_key(kind))] + keys(
                        text::pieces(field, '.'),
                    ),
                    None => seq![SegView::Key("name"@)],
                }
            }
        },
        None => match p.field {
            Some(field) => seq![SegView::Key(field)],
            None => seq![],
        },
    }
}

fn push_seg(out: &mut Vec<Seg>, seg: Seg)
    ensures
        segs_view(final(out)@) == segs_view(old(out)@).push(seg@),
{
    let ghost before = out@;
    let ghost s = seg@;
    out.push(seg);
    assert(segs_view(out@) =~= segs_view(before).push(s));
}

/// The YAML path of a problem: the entry's list item, then its body field.
pub fn yaml_path(doc: &Doc, problem: &Problem) -> (r: Vec<Seg>)
    ensures
        segs_view(r@) == issue_path(doc@, problem@),
{
    let mut segs: Vec<Seg> = Vec::new();
    let ghost wanted = issue_path(doc@, problem@);
    assert(segs_view(segs@) =~= Seq::empty());
    match &problem.entry {
        Some(entry) => {
            push_seg(&mut segs, Seg::Key(entry.kind.list_key().to_string()));
            if let Some(ix) = doc.index(entry.kind, entry.name.as_str()) {
                push_seg(&mut segs, Seg::Index(ix));
                match &problem.field {
                    Some(field) => {
                        push_seg(&mut segs, Seg::Key(entry.kind.body_key().to_string()));
                        let parts: Vec<String> = text::split(field.as_str(), '.');
                        let ghost all = keys(text::texts(parts@));
                        let ghost before = segs_view(segs@);
                        let mut i: usize = 0;
                        assert(before + all.take(0) =~= before);
                        while i < parts.len()
                            invariant
                                i <= parts@.len(),
                                all == keys(text::texts(parts@)),
                                segs_view(segs@) == before + all.take(i as int),
                            decreases parts@.len() - i,
                        {
                            push_seg(&mut segs, Seg::Key(parts[i].clone()));
                            assert(segs_view(segs@) =~= before + all.take(i + 1));
                            i += 1;
                        }
                        assert(all.take(i as int) =~= all);
                    },
                    None => push_seg(&mut segs, Seg::Key("name".to_string())),
                }
            }
        },
        None => {
            if let Some(field) = &problem.field {
                push_seg(&mut segs, Seg::Key(field.clone()));
            }
        },
    }
    assert(segs_view(segs@) =~= wanted);
    segs
}

/// A path as text, `contexts[1].context.cluster`.
pub open spec fn path_shown(path: Seq<SegView>) -> Seq<char>
    decreases path.len(),
{
    if path.len() == 0 {
        seq![]
    } else {
        let before = path_shown(path.drop_last());
        match path.last() {
            SegView::Key(k) => if path.len() == 1 {
                k
            } else {
                before + "."@ + k
            },
            SegView::Index(i) => before + "["@ + text::decimal(i as nat) + "]"@,
        }
    }
}

/// A path as text, `contexts[1].context.cluster`.
pub fn path_text(path: &Vec<Seg>) -> (r: String)
    ensures
        r@ == path_shown(segs_view(path@)),
{
    let mut out: String = String::new();
    let ghost all = segs_view(path@);
    let mut i: usize = 0;
    assert(all.take(0) =~= Seq::empty());
    assert(out@ =~= Seq::empty());
    while i < path.len()
        invariant
            i <= path@.len(),
            all == segs_view(path@),
            out@ == path_shown(all.take(i as int)),
        decreases path@.len() - i,
    {
        assert(all.take(i + 1).drop_last() =~= all.take(i as int));
        assert(all[i as int] == path@[i as int]@);
        match &path[i] {
            Seg::Key(k) => {
                if i > 0 {
                    out = cat3(out.as_str(), ".", k.as_str());
                } else {
                    out = k.clone();
                }
            },
            Seg::Index(n) => {
                out = cat4(out.as_str(), "[", text::decimal_text(*n as u128).as_str(), "]");
            },
        }
        i += 1;
    }
    assert(all.take(i as int) =~= all);
    out
}

} // verus!
