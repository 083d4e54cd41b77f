//! What counts as a problem of a kubeconfig, entry by entry.

use crate::certs::{self, Cert, Moment};
use crate::credentials;
use crate::document;
use crate::fields;
use crate::json::{Fields, Json};
use crate::model::Kind;
use crate::outside;
use crate::paths;
use crate::pem;
use crate::text;
use crate::tls;
use crate::users::AuthKind;
use crate::validate::{Facts, IoError, Severity};
use vstd::prelude::*;

verus! {

/// A problem as a mathematical value.
pub struct Issue {
    pub severity: Severity,
    pub entry: Option<(Kind, Seq<char>)>,
    pub field: Option<Seq<char>>,
    pub message: Seq<char>,
}

pub open spec fn entry_issue(
    severity: Severity,
    kind: Kind,
    name: Seq<char>,
    field: Seq<char>,
    message: Seq<char>,
) -> Issue {
    Issue { severity, entry: Some((kind, name)), field: Some(field), message }
}

// ----- Facts from the disk -----

pub open spec fn io_text(e: IoError) -> Seq<char> {
    match e {
        IoError::NotFound => "the file doesn't exist"@,
        IoError::PermissionDenied => "permission denied"@,
        IoError::Other(e) => e@,
    }
}

/// What reading a file gave; a file that isn't listed doesn't exist.
pub open spec fn contents(
    files: Seq<(String, Result<String, IoError>)>,
    path: Seq<char>,
) -> Result<Seq<char>, Seq<char>>
    decreases files.len(),
{
    if files.len() == 0 {
        Err(io_text(IoError::NotFound))
    } else if files[0].0@ == path {
        match files[0].1 {
            Ok(s) => Ok(s@),
            Err(e) => Err(io_text(e)),
        }
    } else {
        contents(files.drop_first(), path)
    }
}

/// Why a file can't be reached, if it can't; a file that isn't listed doesn't exist.
pub open spec fn unreachable(
    files: Seq<(String, Result<(), IoError>)>,
    path: Seq<char>,
) -> Option<Seq<char>>
    decreases files.len(),
{
    if files.len() == 0 {
        Some(io_text(IoError::NotFound))
    } else if files[0].0@ == path {
        match files[0].1 {
            Ok(_) => None,
            Err(e) => Some(io_text(e)),
        }
    } else {
        unreachable(files.drop_first(), path)
    }
}

/// When a token expires, if that is known.
pub open spec fn expiry_of(tokens: Seq<(String, Moment)>, token: Seq<char>) -> Option<Moment>
    decreases tokens.len(),
{
    if tokens.len() == 0 {
        None
    } else if tokens[0].0@ == token {
        Some(tokens[0].1)
    } else {
        expiry_of(tokens.drop_first(), token)
    }
}

// ----- PEM sources -----

/// The key that a PEM source stands under: that of the file where there is no data but a file.
pub open spec fn pem_key(o: Fields, file_key: Seq<char>, data_key: Seq<char>) -> Seq<char> {
    if paths::text(o, seq![data_key]).len() == 0 && paths::text(o, seq![file_key]).len() > 0 {
        file_key
    } else {
        data_key
    }
}

/// The PEM of a file or `*-data` value; none when there is none.
pub open spec fn loaded(
    o: Fields,
    file_key: Seq<char>,
    data_key: Seq<char>,
    files: Seq<(String, Result<String, IoError>)>,
) -> Result<Option<Seq<char>>, Seq<char>> {
    let data = paths::text(o, seq![data_key]);
    let file = paths::text(o, seq![file_key]);
    if data.len() > 0 {
        match pem::data_text(data) {
            Ok(pem) => Ok(Some(pem)),
            Err(e) => Err(e),
        }
    } else if file.len() > 0 {
        match contents(files, file) {
            Ok(s) => Ok(Some(s)),
            Err(e) => Err("can't read "@ + file + ": "@ + e),
        }
    } else {
        Ok(None)
    }
}

/// Whether PEM text holds a private key.
pub open spec fn holds_key(pem: Seq<char>) -> bool {
    exists|i: int|
        0 <= i < pem::blocks(text::text_lines(pem)).len() && certs::is_key_block(
            #[trigger] pem::blocks(text::text_lines(pem))[i],
        )
}

// ----- The whole file -----

/// Every name used more than once in a list, each once, in the order of their characters.
pub open spec fn duplicates(d: Json, kind: Kind) -> Seq<Seq<char>> {
    duplicates_among(document::names(d, kind))
}

pub open spec fn duplicates_among(names: Seq<Seq<char>>) -> Seq<Seq<char>> {
    choose|twice: Seq<Seq<char>>| #[trigger] are_duplicates(twice, names)
}

pub open spec fn are_duplicates(twice: Seq<Seq<char>>, names: Seq<Seq<char>>) -> bool {
    text::ascending(twice) && forall|name: Seq<char>|
        #[trigger] twice.contains(name) <==> document::occurrences(names, name) >= 2
}

/// How many entries have no name.
pub open spec fn unnamed(entries: Seq<Json>) -> nat
    decreases entries.len(),
{
    if entries.len() == 0 {
        0
    } else {
        unnamed(entries.drop_last()) + match document::name_of(entries.last()) {
            Some(name) if name.len() > 0 => 0nat,
            _ => 1nat,
        }
    }
}

/// The problems of a list as a whole: names used twice, entries without one.
pub open spec fn list_issues(d: Json, kind: Kind) -> Seq<Issue> {
    let twice = duplicates(d, kind);
    let count = unnamed(document::list(d, kind));
    Seq::new(
        twice.len(),
        |i: int|
            Issue {
                severity: Severity::Error,
                entry: Some((kind, twice[i])),
                field: None,
                message: "two "@ + document::body_key(kind) + "s are named \""@ + twice[i]
                    + "\"; kubectl uses the first"@,
            },
    ) + if count == 0 {
        seq![]
    } else {
        seq![
            Issue {
                severity: Severity::Error,
                entry: None,
                field: Some(document::list_key(kind)),
                message: text::decimal(count) + " "@ + document::list_key(kind)
                    + " without a name"@,
            },
        ]
    }
}

/// The current context that doesn't exist.
pub open spec fn current_issues(d: Json) -> Seq<Issue> {
    match document::current_context(d) {
        Some(current) if !document::contains(d, Kind::Context, current) => seq![
            Issue {
                severity: Severity::Warning,
                entry: None,
                field: Some("current-context"@),
                message: "current-context \""@ + current + "\" doesn't exist"@,
            },
        ],
        _ => seq![],
    }
}

// ----- Contexts -----

/// RFC 1123 label: what namespace names must be.
pub open spec fn dns_label(name: Seq<char>) -> bool {
    &&& 0 < name.len() <= 63
    &&& forall|i: int| 0 <= i < name.len() ==> label_char(#[trigger] name[i])
    &&& name[0] != '-'
    &&& name.last() != '-'
}

pub open spec fn label_char(c: char) -> bool {
    'a' <= c <= 'z' || '0' <= c <= '9' || c == '-'
}

/// The text of a field of an optional body; empty without one.
pub open spec fn body_field(body: Option<Fields>, key: Seq<char>) -> Seq<char> {
    match body {
        Some(o) => paths::text(o, seq![key]),
        None => seq![],
    }
}

/// The problems of a context.
pub open spec fn context_issues(d: Json, name: Seq<char>) -> Seq<Issue> {
    let body = document::body(d, Kind::Context, name);
    let cluster = body_field(body, "cluster"@);
    let user = body_field(body, "user"@);
    let namespace = body_field(body, "namespace"@);
    (if cluster.len() == 0 {
        seq![
            entry_issue(Severity::Error, Kind::Context, name, "cluster"@, "no cluster"@),
        ]
    } else if !document::contains(d, Kind::Cluster, cluster) {
        seq![
            entry_issue(
                Severity::Error,
                Kind::Context,
                name,
                "cluster"@,
                "cluster \""@ + cluster + "\" doesn't exist in this file"@,
            ),
        ]
    } else {
        seq![]
    }) + (if user.len() > 0 && !document::contains(d, Kind::User, user) {
        seq![
            entry_issue(
                Severity::Error,
                Kind::Context,
                name,
                "user"@,
                "user \""@ + user + "\" doesn't exist in this file"@,
            ),
        ]
    } else {
        seq![]
    }) + (if namespace.len() > 0 && !dns_label(namespace) {
        seq![
            entry_issue(
                Severity::Warning,
                Kind::Context,
                name,
                "namespace"@,
                "\""@ + namespace + "\" isn't a valid namespace name"@,
            ),
        ]
    } else {
        seq![]
    })
}

pub open spec fn all_context_issues(d: Json, names: Seq<Seq<char>>) -> Seq<Issue>
    decreases names.len(),
{
    if names.len() == 0 {
        seq![]
    } else {
        all_context_issues(d, names.drop_last()) + context_issues(d, names.last())
    }
}

// ----- Certificates -----

/// What is said of a certificate's expiry; with `info_when_ok` also that it is valid.
pub open spec fn expiry_issues(
    what: Seq<char>,
    cert: Cert,
    kind: Kind,
    name: Seq<char>,
    field: Seq<char>,
    info_when_ok: bool,
    now: Moment,
) -> Seq<Issue> {
    if certs::expired(cert.not_after, now) {
        seq![
            entry_issue(
                Severity::Error,
                kind,
                name,
                field,
                "the "@ + what + " expired on "@ + outside::date_at(cert.not_after),
            ),
        ]
    } else if certs::expires_soon(cert.not_after, now) {
        seq![
            entry_issue(
                Severity::Warning,
                kind,
                name,
                field,
                "the "@ + what + " expires on "@ + outside::date_at(cert.not_after) + " (in "@
                    + text::signed_decimal(certs::days_left(cert.not_after, now)) + " days)"@,
            ),
        ]
    } else if info_when_ok {
        seq![
            entry_issue(
                Severity::Info,
                kind,
                name,
                field,
                what + " "@ + certs::common_name_of(cert.subject) + " valid until "@
                    + outside::date_at(cert.not_after),
            ),
        ]
    } else {
        seq![]
    }
}

/// What is said of every certificate of a CA.
pub open spec fn ca_issues(
    found: Seq<Cert>,
    name: Seq<char>,
    field: Seq<char>,
    now: Moment,
) -> Seq<Issue>
    decreases found.len(),
{
    if found.len() == 0 {
        seq![]
    } else {
        ca_issues(found.drop_last(), name, field, now) + expiry_issues(
            "CA"@,
            found.last(),
            Kind::Cluster,
            name,
            field,
            true,
            now,
        )
    }
}

// ----- Clusters -----

pub open spec fn server_issues(name: Seq<char>, o: Fields) -> Seq<Issue> {
    let server = paths::text(o, seq!["server"@]);
    if server.len() == 0 {
        seq![
            entry_issue(Severity::Error, Kind::Cluster, name, "server"@, "no server URL"@),
        ]
    } else {
        match tls::target_of(server, None) {
            Err(e) => seq![entry_issue(Severity::Error, Kind::Cluster, name, "server"@, e)],
            Ok(target) => if target.https {
                seq![]
            } else {
                seq![
                    entry_issue(
                        Severity::Warning,
                        Kind::Cluster,
                        name,
                        "server"@,
                        "plain HTTP: credentials and data travel unencrypted"@,
                    ),
                ]
            },
        }
    }
}

/// Whether a PEM source has a file or data.
pub open spec fn has_pem(o: Fields, file_key: Seq<char>, data_key: Seq<char>) -> bool {
    paths::text(o, seq![data_key]).len() > 0 || paths::text(o, seq![file_key]).len() > 0
}

pub open spec fn insecure_issues(name: Seq<char>, o: Fields) -> Seq<Issue> {
    let field = "insecure-skip-tls-verify"@;
    if !paths::flag(o, seq![field]) {
        seq![]
    } else if has_pem(o, fields::CA_FILE@, fields::CA_DATA@) {
        seq![
            entry_issue(
                Severity::Error,
                Kind::Cluster,
                name,
                field,
                "skipping TLS verification can't be combined with a CA; kubectl refuses this"@,
            ),
        ]
    } else {
        seq![
            entry_issue(
                Severity::Warning,
                Kind::Cluster,
                name,
                field,
                "TLS isn't verified: anyone on the network path can read the credentials"@,
            ),
        ]
    }
}

/// The problems of a cluster.
pub open spec fn cluster_issues(name: Seq<char>, o: Fields, facts: Facts, now: Moment) -> Seq<
    Issue,
> {
    let field = pem_key(o, fields::CA_FILE@, fields::CA_DATA@);
    server_issues(name, o) + insecure_issues(name, o) + match loaded(
        o,
        fields::CA_FILE@,
        fields::CA_DATA@,
        facts.files@,
    ) {
        Ok(None) => seq![],
        Err(e) => seq![entry_issue(Severity::Error, Kind::Cluster, name, field, "CA: "@ + e)],
        Ok(Some(pem)) => match certs::certs_in(pem) {
            Err(e) => seq![
                entry_issue(Severity::Error, Kind::Cluster, name, field, "CA: "@ + e),
            ],
            Ok(found) => ca_issues(found, name, field, now),
        },
    }
}

// ----- Users -----

pub open spec fn user_issue(severity: Severity, name: Seq<char>, field: Seq<char>, message: Seq<
    char,
>) -> Issue {
    entry_issue(severity, Kind::User, name, field, message)
}

pub open spec fn client_cert_issues(name: Seq<char>, o: Fields, facts: Facts, now: Moment) -> Seq<
    Issue,
> {
    let field = pem_key(o, fields::CERT_FILE@, fields::CERT_DATA@);
    match loaded(o, fields::CERT_FILE@, fields::CERT_DATA@, facts.files@) {
        Ok(None) => seq![user_issue(Severity::Error, name, field, "no client certificate"@)],
        Err(e) => seq![
            user_issue(Severity::Error, name, field, "client certificate: "@ + e),
        ],
        Ok(Some(pem)) => match certs::certs_in(pem) {
            Err(e) => seq![
                user_issue(Severity::Error, name, field, "client certificate: "@ + e),
            ],
            Ok(found) => if found.len() == 0 {
                seq![]
            } else {
                expiry_issues(
                    "client certificate"@,
                    found[0],
                    Kind::User,
                    name,
                    field,
                    false,
                    now,
                )
            },
        },
    }
}

pub open spec fn client_key_issues(name: Seq<char>, o: Fields, facts: Facts) -> Seq<Issue> {
    let field = pem_key(o, fields::KEY_FILE@, fields::KEY_DATA@);
    match loaded(o, fields::KEY_FILE@, fields::KEY_DATA@, facts.files@) {
        Ok(None) => seq![user_issue(Severity::Error, name, field, "no client key"@)],
        Err(e) => seq![user_issue(Severity::Error, name, field, "client key: "@ + e)],
        Ok(Some(pem)) => if holds_key(pem) {
            seq![]
        } else {
            seq![
                user_issue(
                    Severity::Error,
                    name,
                    field,
                    "client key: "@
                        + "no private key found (expected a PEM \"PRIVATE KEY\" block)"@,
                ),
            ]
        },
    }
}

pub open spec fn token_issues(name: Seq<char>, o: Fields, facts: Facts, now: Moment) -> Seq<
    Issue,
> {
    let token = paths::text(o, seq!["token"@]);
    if token.len() == 0 {
        seq![user_issue(Severity::Error, name, "token"@, "the token is empty"@)]
    } else {
        match expiry_of(facts.expiries@, token) {
            Some(at) if at.nanoseconds() < now.nanoseconds() => seq![
                user_issue(
                    Severity::Warning,
                    name,
                    "token"@,
                    "the token expired on "@ + outside::minute_at(at.second, at.nanosecond),
                ),
            ],
            _ => seq![],
        }
    }
}

pub open spec fn token_file_issues(name: Seq<char>, o: Fields, facts: Facts) -> Seq<Issue> {
    let file = paths::text(o, seq!["tokenFile"@]);
    if file.len() == 0 {
        seq![user_issue(Severity::Error, name, "tokenFile"@, "no token file"@)]
    } else {
        match unreachable(facts.token_files@, file) {
            Some(e) => seq![
                user_issue(
                    Severity::Error,
                    name,
                    "tokenFile"@,
                    "can't read "@ + file + ": "@ + e,
                ),
            ],
            None => seq![],
        }
    }
}

pub open spec fn exec_issues(name: Seq<char>, o: Fields, facts: Facts) -> Seq<Issue> {
    let command = paths::text(o, seq!["exec"@, "command"@]);
    let api = paths::text(o, seq!["exec"@, "apiVersion"@]);
    (if command.len() == 0 {
        seq![
            user_issue(
                Severity::Error,
                name,
                "exec.command"@,
                "the exec plugin has no command"@,
            ),
        ]
    } else if !text::texts(facts.commands@).contains(command) {
        seq![
            user_issue(
                Severity::Warning,
                name,
                "exec.command"@,
                "`"@ + command + "` wasn't found in PATH (login shell)"@,
            ),
        ]
    } else {
        seq![]
    }) + (if api.len() == 0 {
        seq![
            user_issue(
                Severity::Error,
                name,
                "exec.apiVersion"@,
                "the exec plugin needs an apiVersion"@,
            ),
        ]
    } else if "v1alpha1"@.is_suffix_of(api) {
        seq![
            user_issue(
                Severity::Warning,
                name,
                "exec.apiVersion"@,
                api + " was removed from kubectl 1.24; use client.authentication.k8s.io/v1"@,
            ),
        ]
    } else {
        seq![]
    })
}

pub open spec fn oidc_issues(name: Seq<char>, o: Fields) -> Seq<Issue> {
    let issuer = paths::text(o, seq!["auth-provider"@, "config"@, "idp-issuer-url"@]);
    let client = paths::text(o, seq!["auth-provider"@, "config"@, "client-id"@]);
    (if issuer.len() == 0 {
        seq![
            user_issue(
                Severity::Error,
                name,
                "auth-provider.config.idp-issuer-url"@,
                "the OIDC provider needs an issuer URL"@,
            ),
        ]
    } else {
        seq![]
    }) + (if client.len() == 0 {
        seq![
            user_issue(
                Severity::Error,
                name,
                "auth-provider.config.client-id"@,
                "the OIDC provider needs an client ID"@,
            ),
        ]
    } else {
        seq![]
    })
}

/// The problems of a user.
pub open spec fn user_issues(name: Seq<char>, o: Fields, facts: Facts, now: Moment) -> Seq<Issue> {
    match credentials::auth_kind(o) {
        AuthKind::ClientCertificate => client_cert_issues(name, o, facts, now)
            + client_key_issues(name, o, facts),
        AuthKind::Token => token_issues(name, o, facts, now),
        AuthKind::TokenFile => token_file_issues(name, o, facts),
        AuthKind::Exec => exec_issues(name, o, facts),
        AuthKind::OidcProvider => oidc_issues(name, o),
        AuthKind::Basic => seq![
            user_issue(
                Severity::Warning,
                name,
                "username"@,
                "basic auth was removed in Kubernetes 1.19"@,
            ),
        ],
        AuthKind::OtherProvider => seq![
            user_issue(
                Severity::Warning,
                name,
                "auth-provider"@,
                "this auth provider was removed from kubectl 1.26; use its exec plugin"@,
            ),
        ],
        AuthKind::Unset => seq![],
    }
}

// ----- Everything -----

/// The fields of a body; none without one.
pub open spec fn body_or_empty(body: Option<Fields>) -> Fields {
    match body {
        Some(o) => o,
        None => seq![],
    }
}

pub open spec fn all_cluster_issues(
    bodies: Seq<(Seq<char>, Option<Fields>)>,
    facts: Facts,
    now: Moment,
) -> Seq<Issue>
    decreases bodies.len(),
{
    if bodies.len() == 0 {
        seq![]
    } else {
        all_cluster_issues(bodies.drop_last(), facts, now) + cluster_issues(
            bodies.last().0,
            body_or_empty(bodies.last().1),
            facts,
            now,
        )
    }
}

pub open spec fn all_user_issues(
    bodies: Seq<(Seq<char>, Option<Fields>)>,
    facts: Facts,
    now: Moment,
) -> Seq<Issue>
    decreases bodies.len(),
{
    if bodies.len() == 0 {
        seq![]
    } else {
        all_user_issues(bodies.drop_last(), facts, now) + user_issues(
            bodies.last().0,
            body_or_empty(bodies.last().1),
            facts,
            now,
        )
    }
}

/// Everything wrong with a document.
pub open spec fn issues(d: Json, facts: Facts, now: Moment) -> Seq<Issue> {
    list_issues(d, Kind::Context) + list_issues(d, Kind::Cluster) + list_issues(d, Kind::User)
        + current_issues(d) + all_context_issues(d, document::names(d, Kind::Context))
        + all_cluster_issues(
        document::bodies_in(document::list(d, Kind::Cluster), Kind::Cluster),
        facts,
        now,
    ) + all_user_issues(
        document::bodies_in(document::list(d, Kind::User), Kind::User),
        facts,
        now,
    )
}

// ----- What has to be looked up -----

/// A text in a list of its own, if it isn't empty.
pub open spec fn unless_empty(s: Seq<char>) -> Seq<Seq<char>> {
    if s.len() == 0 {
        seq![]
    } else {
        seq![s]
    }
}

/// The file that a PEM source reads.
pub open spec fn pem_file(o: Fields, file_key: Seq<char>, data_key: Seq<char>) -> Seq<Seq<char>> {
    if paths::text(o, seq![data_key]).len() > 0 {
        seq![]
    } else {
        unless_empty(paths::text(o, seq![file_key]))
    }
}

/// The files whose contents a cluster's problems depend on.
pub open spec fn cluster_files(o: Fields) -> Seq<Seq<char>> {
    pem_file(o, fields::CA_FILE@, fields::CA_DATA@)
}

/// The files whose contents a user's problems depend on.
pub open spec fn user_files(o: Fields) -> Seq<Seq<char>> {
    if credentials::auth_kind(o) == AuthKind::ClientCertificate {
        pem_file(o, fields::CERT_FILE@, fields::CERT_DATA@) + pem_file(
            o,
            fields::KEY_FILE@,
            fields::KEY_DATA@,
        )
    } else {
        seq![]
    }
}

/// The token file that a user's problems depend on.
pub open spec fn user_token_files(o: Fields) -> Seq<Seq<char>> {
    if credentials::auth_kind(o) == AuthKind::TokenFile {
        unless_empty(paths::text(o, seq!["tokenFile"@]))
    } else {
        seq![]
    }
}

/// The token whose expiry a user's problems depend on.
pub open spec fn user_tokens(o: Fields) -> Seq<Seq<char>> {
    if credentials::auth_kind(o) == AuthKind::Token {
        unless_empty(paths::text(o, seq!["token"@]))
    } else {
        seq![]
    }
}

/// The command that a user's problems depend on.
pub open spec fn user_commands(o: Fields) -> Seq<Seq<char>> {
    if credentials::auth_kind(o) == AuthKind::Exec {
        unless_empty(paths::text(o, seq!["exec"@, "command"@]))
    } else {
        seq![]
    }
}

/// What is wanted of every body, in order.
pub open spec fn gathered(
    bodies: Seq<(Seq<char>, Option<Fields>)>,
    of: spec_fn(Fields) -> Seq<Seq<char>>,
) -> Seq<Seq<char>>
    decreases bodies.len(),
{
    if bodies.len() == 0 {
        seq![]
    } else {
        gathered(bodies.drop_last(), of) + of(body_or_empty(bodies.last().1))
    }
}

pub open spec fn wanted_files(d: Json) -> Seq<Seq<char>> {
    gathered(
        document::bodies_in(document::list(d, Kind::Cluster), Kind::Cluster),
        |o: Fields| cluster_files(o),
    ) + gathered(
        document::bodies_in(document::list(d, Kind::User), Kind::User),
        |o: Fields| user_files(o),
    )
}

pub open spec fn wanted_of_users(d: Json, of: spec_fn(Fields) -> Seq<Seq<char>>) -> Seq<
    Seq<char>,
> {
    gathered(document::bodies_in(document::list(d, Kind::User), Kind::User), of)
}

/// Whether two sets of facts agree on what a document wants looked up.
pub open spec fn agree(d: Json, a: Facts, b: Facts) -> bool {
    &&& forall|path: Seq<char>|
        wanted_files(d).contains(path) ==> #[trigger] contents(a.files@, path) == contents(
            b.files@,
            path,
        )
    &&& forall|path: Seq<char>|
        wanted_of_users(d, |o: Fields| user_token_files(o)).contains(path)
            ==> #[trigger] unreachable(a.token_files@, path) == unreachable(b.token_files@, path)
    &&& forall|token: Seq<char>|
        wanted_of_users(d, |o: Fields| user_tokens(o)).contains(token) ==> #[trigger] expiry_of(
            a.expiries@,
            token,
        ) == expiry_of(b.expiries@, token)
    &&& forall|command: Seq<char>|
        wanted_of_users(d, |o: Fields| user_commands(o)).contains(command) ==> (
        #[trigger] text::texts(a.commands@).contains(command) <==> text::texts(
            b.commands@,
        ).contains(command))
}

// ----- Laws -----

/// Two ascending lists with the same members are the same list.
pub proof fn lemma_ascending_unique(a: Seq<Seq<char>>, b: Seq<Seq<char>>)
    requires
        text::ascending(a),
        text::ascending(b),
        forall|s: Seq<char>| #[trigger] a.contains(s) <==> b.contains(s),
    ensures
        a == b,
    decreases a.len(),
{
    if a.len() == 0 {
        if b.len() > 0 {
            assert(b.contains(b[0]));
            assert(a.contains(b[0]));
        }
        assert(a =~= b);
    } else {
        assert(a.contains(a.last()));
        assert(b.contains(a.last()));
        let i = choose|i: int| 0 <= i < b.len() && b[i] == a.last();
        assert(b.contains(b.last()));
        assert(a.contains(b.last()));
        let j = choose|j: int| 0 <= j < a.len() && a[j] == b.last();
        if a.last() != b.last() {
            assert(text::precedes(b[i], b[b.len() - 1]));
            assert(text::precedes(a[j], a[a.len() - 1]));
            text::lemma_precedes_transitive(a.last(), b.last(), a.last());
            text::lemma_precedes_total(a.last(), a.last());
        }
        assert(a.last() == b.last());
        let x = a.drop_last();
        let y = b.drop_last();
        assert forall|s: Seq<char>| #[trigger] x.contains(s) <==> y.contains(s) by {
            if x.contains(s) {
                let k = choose|k: int| 0 <= k < x.len() && x[k] == s;
                assert(a[k] == s);
                assert(a.contains(s));
                assert(b.contains(s));
                let m = choose|m: int| 0 <= m < b.len() && b[m] == s;
                if m == b.len() - 1 {
                    assert(text::precedes(a[k], a[a.len() - 1]));
                    text::lemma_precedes_total(s, s);
                }
                assert(y[m] == s);
            }
            if y.contains(s) {
                let k = choose|k: int| 0 <= k < y.len() && y[k] == s;
                assert(b[k] == s);
                assert(b.contains(s));
                assert(a.contains(s));
                let m = choose|m: int| 0 <= m < a.len() && a[m] == s;
                if m == a.len() - 1 {
                    assert(text::precedes(b[k], b[b.len() - 1]));
                    text::lemma_precedes_total(s, s);
                }
                assert(x[m] == s);
            }
        }
        lemma_ascending_unique(x, y);
        assert(a =~= x.push(a.last()));
        assert(b =~= y.push(b.last()));
    }
}

proof fn lemma_gathered(
    bodies: Seq<(Seq<char>, Option<Fields>)>,
    of: spec_fn(Fields) -> Seq<Seq<char>>,
)
    requires
        bodies.len() > 0,
    ensures
        forall|s: Seq<char>|
            #[trigger] gathered(bodies.drop_last(), of).contains(s) ==> gathered(
                bodies,
                of,
            ).contains(s),
        forall|s: Seq<char>|
            #[trigger] of(body_or_empty(bodies.last().1)).contains(s) ==> gathered(
                bodies,
                of,
            ).contains(s),
{
    let before = gathered(bodies.drop_last(), of);
    let own = of(body_or_empty(bodies.last().1));
    let all = gathered(bodies, of);
    assert forall|s: Seq<char>| #[trigger] before.contains(s) implies all.contains(s) by {
        let i = choose|i: int| 0 <= i < before.len() && before[i] == s;
        assert(all[i] == s);
    }
    assert forall|s: Seq<char>| #[trigger] own.contains(s) implies all.contains(s) by {
        let i = choose|i: int| 0 <= i < own.len() && own[i] == s;
        assert(all[before.len() + i] == s);
    }
}

proof fn lemma_loaded_agrees(o: Fields, file_key: Seq<char>, data_key: Seq<char>, a: Facts, b: Facts)
    requires
        forall|path: Seq<char>|
            pem_file(o, file_key, data_key).contains(path) ==> #[trigger] contents(a.files@, path)
                == contents(b.files@, path),
    ensures
        loaded(o, file_key, data_key, a.files@) == loaded(o, file_key, data_key, b.files@),
{
    let file = paths::text(o, seq![file_key]);
    if paths::text(o, seq![data_key]).len() == 0 && file.len() > 0 {
        assert(pem_file(o, file_key, data_key)[0] == file);
        assert(contents(a.files@, file) == contents(b.files@, file));
    }
}

proof fn lemma_cluster_issues_agree(
    bodies: Seq<(Seq<char>, Option<Fields>)>,
    a: Facts,
    b: Facts,
    now: Moment,
)
    requires
        forall|path: Seq<char>|
            gathered(bodies, |o: Fields| cluster_files(o)).contains(path) ==> #[trigger] contents(
                a.files@,
                path,
            ) == contents(b.files@, path),
    ensures
        all_cluster_issues(bodies, a, now) == all_cluster_issues(bodies, b, now),
    decreases bodies.len(),
{
    if bodies.len() > 0 {
        let of = |o: Fields| cluster_files(o);
        lemma_gathered(bodies, of);
        lemma_cluster_issues_agree(bodies.drop_last(), a, b, now);
        let o = body_or_empty(bodies.last().1);
        assert(of(o) == cluster_files(o));
        lemma_loaded_agrees(o, fields::CA_FILE@, fields::CA_DATA@, a, b);
    }
}

/// Whether two sets of facts agree on what users want looked up.
spec fn users_agree(bodies: Seq<(Seq<char>, Option<Fields>)>, a: Facts, b: Facts) -> bool {
    &&& forall|path: Seq<char>|
        gathered(bodies, |o: Fields| user_files(o)).contains(path) ==> #[trigger] contents(
            a.files@,
            path,
        ) == contents(b.files@, path)
    &&& forall|path: Seq<char>|
        gathered(bodies, |o: Fields| user_token_files(o)).contains(path)
            ==> #[trigger] unreachable(a.token_files@, path) == unreachable(b.token_files@, path)
    &&& forall|token: Seq<char>|
        gathered(bodies, |o: Fields| user_tokens(o)).contains(token) ==> #[trigger] expiry_of(
            a.expiries@,
            token,
        ) == expiry_of(b.expiries@, token)
    &&& forall|command: Seq<char>|
        gathered(bodies, |o: Fields| user_commands(o)).contains(command) ==> (
        #[trigger] text::texts(a.commands@).contains(command) <==> text::texts(
            b.commands@,
        ).contains(command))
}

proof fn lemma_user_issues_agree(
    bodies: Seq<(Seq<char>, Option<Fields>)>,
    a: Facts,
    b: Facts,
    now: Moment,
)
    requires
        users_agree(bodies, a, b),
    ensures
        all_user_issues(bodies, a, now) == all_user_issues(bodies, b, now),
    decreases bodies.len(),
{
    if bodies.len() > 0 {
        let files = |o: Fields| user_files(o);
        let token_files = |o: Fields| user_token_files(o);
        let tokens = |o: Fields| user_tokens(o);
        let commands = |o: Fields| user_commands(o);
        lemma_gathered(bodies, files);
        lemma_gathered(bodies, token_files);
        lemma_gathered(bodies, tokens);
        lemma_gathered(bodies, commands);
        lemma_user_issues_agree(bodies.drop_last(), a, b, now);
        let o = body_or_empty(bodies.last().1);
        assert(files(o) == user_files(o));
        assert(token_files(o) == user_token_files(o));
        assert(tokens(o) == user_tokens(o));
        assert(commands(o) == user_commands(o));
        match credentials::auth_kind(o) {
            AuthKind::ClientCertificate => {
                let x = pem_file(o, fields::CERT_FILE@, fields::CERT_DATA@);
                let y = pem_file(o, fields::KEY_FILE@, fields::KEY_DATA@);
                assert forall|path: Seq<char>| x.contains(path) implies #[trigger] contents(
                    a.files@,
                    path,
                ) == contents(b.files@, path) by {
                    let i = choose|i: int| 0 <= i < x.len() && x[i] == path;
                    assert((x + y)[i] == path);
                    assert(files(o).contains(path));
                }
                assert forall|path: Seq<char>| y.contains(path) implies #[trigger] contents(
                    a.files@,
                    path,
                ) == contents(b.files@, path) by {
                    let i = choose|i: int| 0 <= i < y.len() && y[i] == path;
                    assert((x + y)[x.len() + i] == path);
                    assert(files(o).contains(path));
                }
                lemma_loaded_agrees(o, fields::CERT_FILE@, fields::CERT_DATA@, a, b);
                lemma_loaded_agrees(o, fields::KEY_FILE@, fields::KEY_DATA@, a, b);
            },
            AuthKind::Token => {
                let token = paths::text(o, seq!["token"@]);
                if token.len() > 0 {
                    assert(user_tokens(o)[0] == token);
                    assert(tokens(o).contains(token));
                    assert(expiry_of(a.expiries@, token) == expiry_of(b.expiries@, token));
                }
            },
            AuthKind::TokenFile => {
                let file = paths::text(o, seq!["tokenFile"@]);
                if file.len() > 0 {
                    assert(user_token_files(o)[0] == file);
                    assert(token_files(o).contains(file));
                    assert(unreachable(a.token_files@, file) == unreachable(
                        b.token_files@,
                        file,
                    ));
                }
            },
            AuthKind::Exec => {
                let command = paths::text(o, seq!["exec"@, "command"@]);
                if command.len() > 0 {
                    assert(user_commands(o)[0] == command);
                    assert(commands(o).contains(command));
                    assert(text::texts(a.commands@).contains(command) <==> text::texts(
                        b.commands@,
                    ).contains(command));
                }
            },
            _ => {},
        }
    }
}

/// The problems of a document depend on what it wants looked up, and on nothing else of the
/// disk.
pub proof fn only_wanted_facts_matter(d: Json, a: Facts, b: Facts, now: Moment)
    requires
        agree(d, a, b),
    ensures
        issues(d, a, now) == issues(d, b, now),
{
    let clusters = document::bodies_in(document::list(d, Kind::Cluster), Kind::Cluster);
    let users = document::bodies_in(document::list(d, Kind::User), Kind::User);
    let x = gathered(clusters, |o: Fields| cluster_files(o));
    let y = gathered(users, |o: Fields| user_files(o));
    assert forall|path: Seq<char>| x.contains(path) implies #[trigger] contents(a.files@, path)
        == contents(b.files@, path) by {
        let i = choose|i: int| 0 <= i < x.len() && x[i] == path;
        assert((x + y)[i] == path);
        assert(wanted_files(d).contains(path));
    }
    assert forall|path: Seq<char>| y.contains(path) implies #[trigger] contents(a.files@, path)
        == contents(b.files@, path) by {
        let i = choose|i: int| 0 <= i < y.len() && y[i] == path;
        assert((x + y)[x.len() + i] == path);
        assert(wanted_files(d).contains(path));
    }
    lemma_cluster_issues_agree(clusters, a, b, now);
    lemma_user_issues_agree(users, a, b, now);
}

/// Messages don't tell a private key: whatever key two users have, the problems with it are the
/// same, as long as it stands under the same field.
pub proof fn messages_do_not_tell_the_key(name: Seq<char>, a: Fields, b: Fields, facts: Facts)
    requires
        pem_key(a, fields::KEY_FILE@, fields::KEY_DATA@) == pem_key(
            b,
            fields::KEY_FILE@,
            fields::KEY_DATA@,
        ),
        match loaded(a, fields::KEY_FILE@, fields::KEY_DATA@, facts.files@) {
            Ok(Some(x)) => match loaded(b, fields::KEY_FILE@, fields::KEY_DATA@, facts.files@) {
                Ok(Some(y)) => holds_key(x) == holds_key(y),
                _ => false,
            },
            _ => false,
        },
    ensures
        client_key_issues(name, a, facts) == client_key_issues(name, b, facts),
{
}

} // verus!
