//! A run of "Test connection", step by step: each function takes what a step's requests gave
//! and says how the report goes on.
//!
//! Steps: DNS and TCP, TLS, credentials, `/version`, authentication (`SelfSubjectReview`),
//! permissions (`SelfSubjectAccessReview`s) and latency. A failed step skips the rest; after a
//! TLS failure no credentials were sent anywhere.

use crate::certs::{self, CertInfo, Moment};
use crate::conntest::{self, ConnectError, Failure};
use crate::outside;
use crate::report::{
    self,
    Check,
    Findings,
    Fix,
    Found,
    Latency,
    Permission,
    Remedy,
    Report,
    ReportState,
    Status,
    StepKind,
};
use crate::text::{self, cat, cat3, cat4};
use crate::tls::{self, Handshake, TlsError};
use vstd::prelude::*;

verus! {

/// What a run does next.
#[derive(Clone, Copy, Debug, PartialEq, Eq, Structural)]
pub enum Stage {
    Network,
    Tls,
    /// Checking the credentials.
    Credentials,
    /// Building the client with them.
    Client,
    Api,
    Auth,
    Permissions,
    Latency,
    Done,
}

/// The place of the first step that hasn't ended.
pub open spec fn reached(stage: Stage) -> int {
    match stage {
        Stage::Network => 0,
        Stage::Tls => 1,
        Stage::Credentials => 2,
        Stage::Client => 2,
        Stage::Api => 3,
        Stage::Auth => 4,
        Stage::Permissions => 5,
        Stage::Latency => 6,
        Stage::Done => 7,
    }
}

/// A test in progress.
#[derive(Debug)]
pub struct Run {
    pub report: Report,
    pub stage: Stage,
    /// The status of the credentials step, while the client is built.
    pub status: Status,
    /// The lines of the credentials step, while the client is built.
    pub lines: Vec<String>,
    /// The API server answered `/version` with 401.
    pub unauthorized: bool,
}

/// Every step up to a place has ended well, and no step from there on has.
pub open spec fn ended_until(r: ReportState, n: int) -> bool {
    &&& forall|i: int|
        0 <= i < n ==> {
            let status = (#[trigger] r.steps[i]).status;
            status == Status::Passed || status == Status::Warn || status == Status::Skipped
        }
    &&& forall|i: int|
        n <= i < 7 ==> {
            let status = (#[trigger] r.steps[i]).status;
            status == Status::Pending || status == Status::Running
        }
}

/// The stage and the report agree: before the end every step up to the stage has ended well
/// and the rest hasn't begun; at the end nothing is open.
pub open spec fn consistent(r: ReportState, stage: Stage) -> bool {
    &&& report::complete(r)
    &&& if stage == Stage::Done {
        r.done && report::settled(r)
    } else {
        !r.done && ended_until(r, reached(stage))
    }
}

/// A report that ends here.
pub open spec fn over(r: ReportState) -> ReportState {
    ReportState { done: true, ..r }
}

/// The report after a step failed.
pub open spec fn lost(
    r: ReportState,
    kind: StepKind,
    found: Found,
    note: Seq<char>,
    millis: u64,
    total: u64,
) -> ReportState {
    over(report::after(report::failed(r, kind, found, note, millis), total))
}

/// The report after a step ended well.
pub open spec fn won(
    r: ReportState,
    kind: StepKind,
    status: Status,
    found: Found,
    millis: u64,
    total: u64,
) -> ReportState {
    report::after(report::ended(r, kind, status, found, millis), total)
}

/// How a handshake went.
#[derive(Debug)]
pub enum TlsOutcome {
    /// Plain HTTP.
    Plain,
    /// The CA can't be read.
    Unreadable(String),
    /// A handshake that trusts nothing (`insecure`) or what `label` says.
    Checked {
        insecure: bool,
        label: String,
        result: Result<Handshake, (TlsError, Vec<CertInfo>)>,
    },
}

/// Why the rest is skipped after a failed TLS step.
pub open spec fn nothing_sent() -> Seq<char> {
    "Skipped: no credentials were sent"@
}

/// The lines about a handshake.
pub open spec fn handshake_lines(h: Handshake, label: Seq<char>) -> Seq<Seq<char>> {
    let first = seq![h.protocol@ + " · "@ + label];
    if h.chain@.len() == 0 {
        first
    } else {
        first.push(
            "server certificate "@ + certs::common_name_of(h.chain@[0]@.subject)
                + " · valid until "@ + outside::date_at(h.chain@[0]@.not_after),
        )
    }
}

/// What a failed handshake found.
pub open spec fn handshake_failure(e: TlsError, served: Seq<CertInfo>) -> Found {
    Found {
        lines: if served.len() == 0 {
            seq![]
        } else {
            seq![
                "the server presented "@ + certs::common_name_of(served[0]@.subject)
                    + " issued by "@ + certs::common_name_of(served[0]@.issuer),
            ]
        },
        error: Some(tls::failure_text(e)),
        stderr: None,
        fix: if e is UnknownIssuer {
            Some(Remedy::FetchCa)
        } else {
            None
        },
        checks: seq![],
    }
}

/// What the TLS step comes to: a status and what was found, or a failure.
pub open spec fn tls_result(outcome: TlsOutcome) -> Result<(Status, Found), Found> {
    match outcome {
        TlsOutcome::Plain => Ok(
            (
                Status::Warn,
                report::lines_found(
                    seq!["plain HTTP: no TLS, credentials travel unencrypted"@],
                ),
            ),
        ),
        TlsOutcome::Unreadable(e) => Err(report::error_found(e@)),
        TlsOutcome::Checked { insecure, label, result } => match result {
            Ok(h) => Ok(
                (
                    if insecure {
                        Status::Warn
                    } else {
                        Status::Passed
                    },
                    report::lines_found(handshake_lines(h, label@)),
                ),
            ),
            Err((e, served)) => Err(handshake_failure(e, served@)),
        },
    }
}

/// How building a client went.
#[derive(Debug)]
pub enum ClientOutcome {
    Built,
    Failed(ConnectError),
    /// With an OIDC session: when its ID token expires, if that is known.
    Oidc(Option<Moment>),
    /// The OIDC session needs a sign-in.
    SignInRequired,
    /// The OIDC session gave no token.
    OidcFailed(String),
}

/// What the credentials step comes to, once its client is built.
pub open spec fn client_result(
    lines: Seq<Seq<char>>,
    outcome: ClientOutcome,
    now: Moment,
) -> Result<Seq<Seq<char>>, Found> {
    match outcome {
        ClientOutcome::Built => Ok(lines),
        ClientOutcome::Failed(e) => Err(
            Found {
                stderr: conntest::connect_text(e).1,
                ..report::error_found(conntest::connect_text(e).0)
            },
        ),
        ClientOutcome::Oidc(expires) => Ok(
            lines.push("ID token"@ + conntest::expiry_text(expires, now)),
        ),
        ClientOutcome::SignInRequired => Err(
            Found {
                lines,
                fix: Some(Remedy::SignIn),
                ..report::error_found(
                    "sign in with your identity provider to test this context"@,
                )
            },
        ),
        ClientOutcome::OidcFailed(e) => Err(Found { lines, ..report::error_found(e@) }),
    }
}

/// What the API server says of itself.
#[derive(Debug)]
pub struct ServerVersion {
    pub git_version: String,
    pub platform: String,
}

/// Who the API server says the user is.
#[derive(Debug)]
pub struct UserInfo {
    pub username: Option<String>,
    pub groups: Option<Vec<String>>,
}

pub open spec fn user_name(u: UserInfo) -> Seq<char> {
    match u.username {
        Some(name) => name@,
        None => "(unknown user)"@,
    }
}

pub open spec fn user_groups(u: UserInfo) -> Seq<Seq<char>> {
    match u.groups {
        Some(groups) => text::texts(groups@),
        None => seq![],
    }
}

/// The lines about who the user is.
pub open spec fn user_lines(u: UserInfo) -> Seq<Seq<char>> {
    if user_groups(u).len() == 0 {
        seq![user_name(u)]
    } else {
        seq![user_name(u), "groups: "@ + text::joined(user_groups(u), ", "@)]
    }
}

/// What is found by a failed request.
pub open spec fn request_found(f: Failure) -> Found {
    Found {
        stderr: conntest::request_failure(f).1,
        fix: if f is Kube && f->Kube_0 is SignInRequired {
            Some(Remedy::SignIn)
        } else {
            None
        },
        ..report::error_found(conntest::request_failure(f).0)
    }
}

/// What the authentication step comes to, if it doesn't learn the user: lines, or a failure.
/// `rejected` says why the API server rejected the credentials.
pub open spec fn auth_result(f: Failure, rejected: (Seq<char>, Option<Remedy>)) -> Result<
    Seq<char>,
    Found,
> {
    match f {
        Failure::Api { code, error } => if code == 404 {
            Ok(
                "the server doesn't serve SelfSubjectReview (Kubernetes before 1.28): it answered, but the user name is unknown"@,
            )
        } else if code == 403 {
            Ok("authenticated, but not allowed to ask who you are"@)
        } else {
            Err(Found { fix: rejected.1, ..report::error_found(rejected.0) })
        },
        Failure::Unauthorized => Err(
            Found { fix: rejected.1, ..report::error_found(rejected.0) },
        ),
        _ => Err(request_found(f)),
    }
}

/// What the permissions step comes to.
pub open spec fn permissions_found(
    namespace: Seq<char>,
    list_namespaces: Option<bool>,
    list_pods: Option<bool>,
    admin: Option<bool>,
    count: Option<nat>,
) -> (Status, Found) {
    let good = list_pods == Some(true) || list_namespaces == Some(true);
    let checks = seq![
        Permission {
            allowed: list_namespaces,
            label: match count {
                Some(n) => "list namespaces ("@ + text::decimal(n) + ")"@,
                None => "list namespaces"@,
            },
            optional: false,
        },
        Permission {
            allowed: list_pods,
            label: "list pods in "@ + namespace,
            optional: false,
        },
        Permission {
            allowed: admin,
            label: if admin == Some(true) {
                "cluster-admin"@
            } else {
                "cluster-admin (not required)"@
            },
            optional: true,
        },
    ];
    if good {
        (Status::Passed, Found { checks, ..report::nothing() })
    } else {
        (
            Status::Warn,
            Found {
                checks,
                ..report::lines_found(
                    seq!["this user can't list namespaces or pods in "@ + namespace],
                )
            },
        )
    }
}

/// The names among optional ones.
pub open spec fn given(names: Seq<Option<String>>) -> Seq<Seq<char>>
    decreases names.len(),
{
    if names.len() == 0 {
        seq![]
    } else {
        match names.last() {
            Some(name) => given(names.drop_last()).push(name@),
            None => given(names.drop_last()),
        }
    }
}

/// The namespace that permissions are asked for.
pub open spec fn namespace_of(namespace: Option<Seq<char>>) -> Seq<char> {
    match namespace {
        Some(n) if n.len() > 0 => n,
        _ => "default"@,
    }
}

/// The namespace that permissions are asked for.
pub fn namespace_for(namespace: &Option<String>) -> (r: String)
    ensures
        r@ == namespace_of(text::text_of(*namespace)),
{
    match namespace {
        Some(n) => if n.as_str().is_empty() {
            "default".to_string()
        } else {
            n.clone()
        },
        None => "default".to_string(),
    }
}

/// An access that the permissions step asks the API server about.
#[derive(Debug)]
pub struct Access {
    pub verb: &'static str,
    pub group: &'static str,
    pub resource: &'static str,
    /// The whole cluster without one.
    pub namespace: Option<String>,
}

/// An access as a mathematical value: verb, group, resource and namespace.
pub type AccessView = (Seq<char>, Seq<char>, Seq<char>, Option<Seq<char>>);

pub open spec fn accesses_view(v: Seq<Access>) -> Seq<AccessView> {
    Seq::new(
        v.len(),
        |i: int| (v[i].verb@, v[i].group@, v[i].resource@, text::text_of(v[i].namespace)),
    )
}

/// The accesses that the permissions step asks about: listing namespaces, listing pods in a
/// namespace, and everything.
pub fn accesses(namespace: &str) -> (r: Vec<Access>)
    ensures
        accesses_view(r@) == seq![
            ("list"@, ""@, "namespaces"@, None),
            ("list"@, ""@, "pods"@, Some(namespace@)),
            ("*"@, "*"@, "*"@, None),
        ],
{
    let v: Vec<Access> = vec![
        Access { verb: "list", group: "", resource: "namespaces", namespace: None },
        Access {
            verb: "list",
            group: "",
            resource: "pods",
            namespace: Some(namespace.to_string()),
        },
        Access { verb: "*", group: "*", resource: "*", namespace: None },
    ];
    assert(accesses_view(v@) =~= seq![
        ("list"@, ""@, "namespaces"@, None),
        ("list"@, ""@, "pods"@, Some(namespace@)),
        ("*"@, "*"@, "*"@, None),
    ]);
    v
}

/// The names among optional ones.
fn given_names(names: &Vec<Option<String>>) -> (r: Vec<String>)
    ensures
        text::texts(r@) == given(names@),
{
    let mut out: Vec<String> = Vec::new();
    let mut i: usize = 0;
    assert(names@.take(0) =~= Seq::empty());
    assert(text::texts(out@) =~= Seq::empty());
    while i < names.len()
        invariant
            i <= names@.len(),
            text::texts(out@) == given(names@.take(i as int)),
        decreases names@.len() - i,
    {
        broadcast use text::texts_push;

        assert(names@.take(i + 1).drop_last() =~= names@.take(i as int));
        if let Some(name) = &names[i] {
            out.push(name.clone());
        }
        i += 1;
    }
    assert(names@.take(i as int) =~= names@);
    out
}

impl Run {
    /// A run before its first step.
    pub fn begin(context: &str, started: Moment) -> (r: Run)
        ensures
            r.report@ == report::new_report(context@, started),
            r.stage == Stage::Network,
            consistent(r.report@, r.stage),
            !r.unauthorized,
            r.lines@.len() == 0,
    {
        Run {
            report: Report::starting_at(context, started),
            stage: Stage::Network,
            status: Status::Passed,
            lines: Vec::new(),
            unauthorized: false,
        }
    }

    /// The step of the stage.
    pub open spec fn current(self) -> StepKind {
        report::kind_at(reached(self.stage))
    }

    /// Marks the stage's step as running.
    pub fn start(&mut self, total: u64)
        requires
            consistent(old(self).report@, old(self).stage),
            old(self).stage != Stage::Done,
        ensures
            final(self).report@ == report::after(
                report::running(old(self).report@, old(self).current()),
                total,
            ),
            *final(self) == (Run { report: final(self).report, ..*old(self) }),
            consistent(final(self).report@, final(self).stage),
    {
        let kind: StepKind = match self.stage {
            Stage::Network => StepKind::Network,
            Stage::Tls => StepKind::Tls,
            Stage::Credentials | Stage::Client => StepKind::Credentials,
            Stage::Api => StepKind::Api,
            Stage::Auth => StepKind::Auth,
            Stage::Permissions => StepKind::Permissions,
            Stage::Latency | Stage::Done => StepKind::Latency,
        };
        self.report.start(kind, total);
    }

    /// Fails the stage's step and ends the run.
    fn lose(&mut self, kind: StepKind, found: Findings, note: &str, millis: u64, total: u64)
        requires
            consistent(old(self).report@, old(self).stage),
            old(self).stage != Stage::Done,
            kind == old(self).current(),
        ensures
            final(self).report@ == lost(
                old(self).report@,
                kind,
                found@,
                note@,
                millis,
                total,
            ),
            final(self).stage == Stage::Done,
            consistent(final(self).report@, final(self).stage),
    {
        let ghost before = self.report@;
        self.report.fail_with(kind, found, note, millis, total);
        self.report.done = true;
        self.stage = Stage::Done;
        proof {
            let now = self.report@;
            assert forall|i: int| 0 <= i < now.steps.len() implies (#[trigger] now.steps[i]).status
                != Status::Pending && now.steps[i].status != Status::Running by {
                assert(before.steps[i].kind == report::kind_at(i));
            }
        }
    }

    /// Ends the stage's step well and goes on to the next stage.
    fn win(
        &mut self,
        kind: StepKind,
        status: Status,
        found: Findings,
        next: Stage,
        millis: u64,
        total: u64,
    )
        requires
            consistent(old(self).report@, old(self).stage),
            old(self).stage != Stage::Done,
            kind == old(self).current(),
            next != Stage::Done,
            reached(next) == reached(old(self).stage) + 1,
            status == Status::Passed || status == Status::Warn || status == Status::Skipped,
        ensures
            final(self).report@ == won(old(self).report@, kind, status, found@, millis, total),
            *final(self) == (Run {
                report: final(self).report,
                stage: next,
                ..*old(self)
            }),
            consistent(final(self).report@, final(self).stage),
    {
        let ghost before = self.report@;
        self.report.finish(kind, status, found, millis, total);
        self.stage = next;
        proof {
            let now = self.report@;
            assert forall|i: int| 0 <= i < reached(next) implies {
                let status = (#[trigger] now.steps[i]).status;
                status == Status::Passed || status == Status::Warn || status == Status::Skipped
            } by {
                assert(before.steps[i].kind == report::kind_at(i));
            }
        }
    }

    /// The context can't be tested: fails the first step.
    pub fn refuse(&mut self, error: String, millis: u64, total: u64)
        requires
            consistent(old(self).report@, old(self).stage),
            old(self).stage == Stage::Network,
        ensures
            final(self).report@ == lost(
                old(self).report@,
                StepKind::Network,
                report::error_found(error@),
                "Skipped"@,
                millis,
                total,
            ),
            final(self).stage == Stage::Done,
            consistent(final(self).report@, final(self).stage),
    {
        self.lose(StepKind::Network, Findings::of_error(error), "Skipped", millis, total);
    }

    /// The requests go through a proxy (shown without its user info): DNS and TCP, and TLS, are
    /// left to them.
    pub fn through_proxy(&mut self, proxy: &str, network_millis: u64, tls_millis: u64, total: u64)
        requires
            consistent(old(self).report@, old(self).stage),
            old(self).stage == Stage::Network,
        ensures
            final(self).report@ == won(
                won(
                    old(self).report@,
                    StepKind::Network,
                    Status::Skipped,
                    report::lines_found(
                        seq![
                            "through the proxy "@ + proxy@ + ": checked by the API request"@,
                        ],
                    ),
                    network_millis,
                    total,
                ),
                StepKind::Tls,
                Status::Skipped,
                report::lines_found(
                    seq!["through the proxy: the API request verifies the certificate"@],
                ),
                tls_millis,
                total,
            ),
            final(self).stage == Stage::Credentials,
            consistent(final(self).report@, final(self).stage),
            final(self).unauthorized == old(self).unauthorized,
    {
        self.win(
            StepKind::Network,
            Status::Skipped,
            Findings::of_line(cat3("through the proxy ", proxy, ": checked by the API request")),
            Stage::Tls,
            network_millis,
            total,
        );
        self.win(
            StepKind::Tls,
            Status::Skipped,
            Findings::of_line(
                "through the proxy: the API request verifies the certificate".to_string(),
            ),
            Stage::Credentials,
            tls_millis,
            total,
        );
    }

    /// DNS and TCP: how the server was reached, or why it wasn't.
    pub fn network(&mut self, result: Result<String, String>, millis: u64, total: u64) -> (r: bool)
        requires
            consistent(old(self).report@, old(self).stage),
            old(self).stage == Stage::Network,
        ensures
            final(self).report@ == match result {
                Ok(via) => won(
                    old(self).report@,
                    StepKind::Network,
                    Status::Passed,
                    report::lines_found(seq![via@]),
                    millis,
                    total,
                ),
                Err(e) => lost(
                    old(self).report@,
                    StepKind::Network,
                    report::error_found(e@),
                    "Skipped"@,
                    millis,
                    total,
                ),
            },
            r == (result is Ok),
            final(self).stage == if r {
                Stage::Tls
            } else {
                Stage::Done
            },
            consistent(final(self).report@, final(self).stage),
            r ==> final(self).unauthorized == old(self).unauthorized,
    {
        match result {
            Ok(via) => {
                self.win(
                    StepKind::Network,
                    Status::Passed,
                    Findings::of_line(via),
                    Stage::Tls,
                    millis,
                    total,
                );
                true
            },
            Err(e) => {
                self.lose(
                    StepKind::Network,
                    Findings::of_error(e),
                    "Skipped",
                    millis,
                    total,
                );
                false
            },
        }
    }

    /// TLS. When it fails, the run is over: no credentials are sent.
    pub fn tls(&mut self, outcome: &TlsOutcome, millis: u64, total: u64) -> (r: bool)
        requires
            consistent(old(self).report@, old(self).stage),
            old(self).stage == Stage::Tls,
        ensures
            final(self).report@ == match tls_result(*outcome) {
                Ok((status, found)) => won(
                    old(self).report@,
                    StepKind::Tls,
                    status,
                    found,
                    millis,
                    total,
                ),
                Err(found) => lost(
                    old(self).report@,
                    StepKind::Tls,
                    found,
                    nothing_sent(),
                    millis,
                    total,
                ),
            },
            r == (tls_result(*outcome) is Ok),
            final(self).stage == if r {
                Stage::Credentials
            } else {
                Stage::Done
            },
            consistent(final(self).report@, final(self).stage),
            r ==> final(self).unauthorized == old(self).unauthorized,
    {
        match outcome {
            TlsOutcome::Plain => {
                self.win(
                    StepKind::Tls,
                    Status::Warn,
                    Findings::of_line(
                        "plain HTTP: no TLS, credentials travel unencrypted".to_string(),
                    ),
                    Stage::Credentials,
                    millis,
                    total,
                );
                true
            },
            TlsOutcome::Unreadable(e) => {
                self.lose(
                    StepKind::Tls,
                    Findings::of_error(e.clone()),
                    "Skipped: no credentials were sent",
                    millis,
                    total,
                );
                false
            },
            TlsOutcome::Checked { insecure, label, result } => match result {
                Ok(h) => {
                    let status: Status = if *insecure {
                        Status::Warn
                    } else {
                        Status::Passed
                    };
                    let mut lines: Vec<String> = Vec::new();
                    lines.push(cat3(h.protocol.as_str(), " · ", label.as_str()));
                    if h.chain.len() > 0 {
                        lines.push(
                            cat4(
                                "server certificate ",
                                h.chain[0].common_name().as_str(),
                                " · valid until ",
                                h.chain[0].not_after_date().as_str(),
                            ),
                        );
                    }
                    assert(text::texts(lines@) =~= handshake_lines(*h, label@));
                    self.win(
                        StepKind::Tls,
                        status,
                        Findings::of_lines(lines),
                        Stage::Credentials,
                        millis,
                        total,
                    );
                    true
                },
                Err((e, served)) => {
                    let mut found = Findings::of_error(e.message());
                    if let TlsError::UnknownIssuer = e {
                        found.fix = Some(Fix::FetchCa);
                    }
                    if served.len() > 0 {
                        let mut lines: Vec<String> = Vec::new();
                        lines.push(
                            cat4(
                                "the server presented ",
                                served[0].common_name().as_str(),
                                " issued by ",
                                certs::common_name(served[0].issuer.as_str()).as_str(),
                            ),
                        );
                        found.lines = lines;
                    }
                    assert(found@.lines =~= handshake_failure(*e, served@).lines);
                    self.lose(
                        StepKind::Tls,
                        found,
                        "Skipped: no credentials were sent",
                        millis,
                        total,
                    );
                    false
                },
            },
        }
    }

    /// The credentials: usable ones go on to building a client.
    pub fn credentials(
        &mut self,
        judged: Result<(Status, Vec<String>), Findings>,
        millis: u64,
        total: u64,
    ) -> (r: bool)
        requires
            consistent(old(self).report@, old(self).stage),
            old(self).stage == Stage::Credentials,
            judged matches Ok((status, _)) ==> status == Status::Passed || status == Status::Warn,
        ensures
            r == (judged is Ok),
            match judged {
                Ok((status, lines)) => *final(self) == (Run {
                    stage: Stage::Client,
                    status,
                    lines,
                    ..*old(self)
                }),
                Err(found) => final(self).report@ == lost(
                    old(self).report@,
                    StepKind::Credentials,
                    found@,
                    "Skipped"@,
                    millis,
                    total,
                ) && final(self).stage == Stage::Done,
            },
            consistent(final(self).report@, final(self).stage),
    {
        match judged {
            Ok((status, lines)) => {
                self.status = status;
                self.lines = lines;
                self.stage = Stage::Client;
                true
            },
            Err(found) => {
                self.lose(StepKind::Credentials, found, "Skipped", millis, total);
                false
            },
        }
    }

    /// The client, built with the credentials.
    pub fn client(&mut self, outcome: &ClientOutcome, now: Moment, millis: u64, total: u64) -> (r:
        bool)
        requires
            consistent(old(self).report@, old(self).stage),
            old(self).stage == Stage::Client,
            old(self).status == Status::Passed || old(self).status == Status::Warn,
        ensures
            final(self).report@ == match client_result(
                text::texts(old(self).lines@),
                *outcome,
                now,
            ) {
                Ok(lines) => won(
                    old(self).report@,
                    StepKind::Credentials,
                    old(self).status,
                    report::lines_found(lines),
                    millis,
                    total,
                ),
                Err(found) => lost(
                    old(self).report@,
                    StepKind::Credentials,
                    found,
                    "Skipped"@,
                    millis,
                    total,
                ),
            },
            r == (outcome is Built || outcome is Oidc),
            final(self).stage == if r {
                Stage::Api
            } else {
                Stage::Done
            },
            consistent(final(self).report@, final(self).stage),
            r ==> final(self).unauthorized == old(self).unauthorized,
    {
        broadcast use text::texts_push;

        let status: Status = self.status;
        let mut lines: Vec<String> = text::clone_texts(&self.lines);
        match outcome {
            ClientOutcome::Built => {},
            ClientOutcome::Oidc(expires) => {
                lines.push(cat("ID token", conntest::expiry_note(*expires, now).as_str()));
            },
            ClientOutcome::Failed(e) => {
                let (message, stderr) = conntest::describe_connect(e);
                let mut found = Findings::of_error(message);
                found.stderr = stderr;
                self.lose(StepKind::Credentials, found, "Skipped", millis, total);
                return false;
            },
            ClientOutcome::SignInRequired => {
                let mut found = Findings::of_error(
                    "sign in with your identity provider to test this context".to_string(),
                );
                found.fix = Some(Fix::SignIn);
                found.lines = lines;
                self.lose(StepKind::Credentials, found, "Skipped", millis, total);
                return false;
            },
            ClientOutcome::OidcFailed(e) => {
                let mut found = Findings::of_error(e.clone());
                found.lines = lines;
                self.lose(StepKind::Credentials, found, "Skipped", millis, total);
                return false;
            },
        }
        self.win(
            StepKind::Credentials,
            status,
            Findings::of_lines(lines),
            Stage::Api,
            millis,
            total,
        );
        true
    }

    /// `/version`. A 401 is left to the authentication step to explain.
    pub fn api(&mut self, answer: &Result<ServerVersion, Failure>, millis: u64, total: u64) -> (r:
        bool)
        requires
            consistent(old(self).report@, old(self).stage),
            old(self).stage == Stage::Api,
            !old(self).unauthorized,
        ensures
            final(self).report@ == match *answer {
                Ok(v) => won(
                    ReportState { version: Some(v.git_version@), ..old(self).report@ },
                    StepKind::Api,
                    Status::Passed,
                    report::lines_found(
                        seq!["GET /version · "@ + v.git_version@ + " · "@ + v.platform@],
                    ),
                    millis,
                    total,
                ),
                Err(f) => if f is Api && f->code == 401 {
                    won(
                        old(self).report@,
                        StepKind::Api,
                        Status::Passed,
                        report::lines_found(
                            seq![
                                "the API server answered GET /version with 401 Unauthorized"@,
                            ],
                        ),
                        millis,
                        total,
                    )
                } else {
                    lost(
                        old(self).report@,
                        StepKind::Api,
                        Found {
                            stderr: conntest::request_failure(f).1,
                            ..report::error_found(conntest::request_failure(f).0)
                        },
                        "Skipped"@,
                        millis,
                        total,
                    )
                },
            },
            r == match *answer {
                Ok(_) => true,
                Err(f) => f is Api && f->code == 401,
            },
            final(self).stage == if r {
                Stage::Auth
            } else {
                Stage::Done
            },
            r ==> final(self).unauthorized == (answer is Err),
            consistent(final(self).report@, final(self).stage),
    {
        match answer {
            Ok(v) => {
                self.report.version = Some(v.git_version.clone());
                self.win(
                    StepKind::Api,
                    Status::Passed,
                    Findings::of_line(
                        cat4(
                            "GET /version · ",
                            v.git_version.as_str(),
                            " · ",
                            v.platform.as_str(),
                        ),
                    ),
                    Stage::Auth,
                    millis,
                    total,
                );
                true
            },
            Err(f) => {
                if let Failure::Api { code, error: _ } = f {
                    if *code == 401 {
                        self.win(
                            StepKind::Api,
                            Status::Passed,
                            Findings::of_line(
                                "the API server answered GET /version with 401 Unauthorized".to_string(),
                            ),
                            Stage::Auth,
                            millis,
                            total,
                        );
                        self.unauthorized = true;
                        return true;
                    }
                }
                let (message, stderr) = f.describe();
                let mut found = Findings::of_error(message);
                found.stderr = stderr;
                self.lose(StepKind::Api, found, "Skipped", millis, total);
                false
            },
        }
    }

    /// Authentication: who the API server says the user is. `rejected` says why it rejected the
    /// credentials, if it did. After a 401 from `/version` it isn't asked again.
    pub fn auth(
        &mut self,
        answer: &Result<UserInfo, Failure>,
        rejected: (String, Option<Fix>),
        millis: u64,
        total: u64,
    ) -> (r: bool)
        requires
            consistent(old(self).report@, old(self).stage),
            old(self).stage == Stage::Auth,
            old(self).unauthorized ==> answer is Err && answer->Err_0 is Unauthorized,
        ensures
            final(self).report@ == match *answer {
                Ok(u) => won(
                    ReportState {
                        user: Some(user_name(u)),
                        groups: user_groups(u),
                        ..old(self).report@
                    },
                    StepKind::Auth,
                    Status::Passed,
                    report::lines_found(user_lines(u)),
                    millis,
                    total,
                ),
                Err(f) => match auth_result(f, (rejected.0@, report::fix_of(rejected.1))) {
                    Ok(line) => won(
                        old(self).report@,
                        StepKind::Auth,
                        Status::Warn,
                        report::lines_found(seq![line]),
                        millis,
                        total,
                    ),
                    Err(found) => lost(
                        old(self).report@,
                        StepKind::Auth,
                        found,
                        "Skipped"@,
                        millis,
                        total,
                    ),
                },
            },
            r == match *answer {
                Ok(_) => true,
                Err(f) => f is Api && (f->code == 404 || f->code == 403),
            },
            final(self).stage == if r {
                Stage::Permissions
            } else {
                Stage::Done
            },
            consistent(final(self).report@, final(self).stage),
    {
        broadcast use text::texts_push;

        match answer {
            Ok(u) => {
                let user: String = match &u.username {
                    Some(name) => name.clone(),
                    None => "(unknown user)".to_string(),
                };
                let groups: Vec<String> = match &u.groups {
                    Some(groups) => text::clone_texts(groups),
                    None => Vec::new(),
                };
                assert(text::texts(groups@) =~= user_groups(*u));
                let mut lines: Vec<String> = Vec::new();
                lines.push(user.clone());
                if groups.len() > 0 {
                    lines.push(cat("groups: ", text::join(&groups, ", ").as_str()));
                }
                assert(text::texts(groups@).len() == groups@.len());
                assert(text::texts(lines@) =~= user_lines(*u));
                self.report.user = Some(user);
                self.report.groups = groups;
                self.win(
                    StepKind::Auth,
                    Status::Passed,
                    Findings::of_lines(lines),
                    Stage::Permissions,
                    millis,
                    total,
                );
                true
            },
            Err(f) => {
                match f {
                    Failure::Api { code, error: _ } => {
                        if *code == 404 || *code == 403 {
                            let line: String = if *code == 404 {
                                "the server doesn't serve SelfSubjectReview (Kubernetes before 1.28): it answered, but the user name is unknown".to_string()
                            } else {
                                "authenticated, but not allowed to ask who you are".to_string()
                            };
                            self.win(
                                StepKind::Auth,
                                Status::Warn,
                                Findings::of_line(line),
                                Stage::Permissions,
                                millis,
                                total,
                            );
                            return true;
                        }
                        let mut found = Findings::of_error(rejected.0);
                        found.fix = rejected.1;
                        self.lose(StepKind::Auth, found, "Skipped", millis, total);
                    },
                    Failure::Unauthorized => {
                        let mut found = Findings::of_error(rejected.0);
                        found.fix = rejected.1;
                        self.lose(StepKind::Auth, found, "Skipped", millis, total);
                    },
                    _ => {
                        let (message, stderr) = f.describe();
                        let mut found = Findings::of_error(message);
                        found.stderr = stderr;
                        if let Failure::Kube(ConnectError::SignInRequired) = f {
                            found.fix = Some(Fix::SignIn);
                        }
                        self.lose(StepKind::Auth, found, "Skipped", millis, total);
                    },
                }
                false
            },
        }
    }

    /// Permissions: what the user may do. The namespaces (`listed`, none where listing failed)
    /// are only asked for when listing them is allowed; they come out in order.
    pub fn permissions(
        &mut self,
        namespace: &str,
        list_namespaces: Option<bool>,
        list_pods: Option<bool>,
        admin: Option<bool>,
        listed: Option<Vec<Option<String>>>,
        millis: u64,
        total: u64,
    )
        requires
            consistent(old(self).report@, old(self).stage),
            old(self).stage == Stage::Permissions,
            list_namespaces != Some(true) ==> listed is None,
        ensures
            final(self).report@ == ({
                let names = final(self).report@.namespaces;
                let (status, found) = permissions_found(
                    namespace@,
                    list_namespaces,
                    list_pods,
                    admin,
                    match names {
                        Some(names) => Some(names.len()),
                        None => None,
                    },
                );
                won(
                    ReportState { namespaces: names, ..old(self).report@ },
                    StepKind::Permissions,
                    status,
                    found,
                    millis,
                    total,
                )
            }),
            match listed {
                None => final(self).report@.namespaces is None,
                Some(listed) => match final(self).report@.namespaces {
                    Some(names) => text::ordered(names) && names.to_multiset() == given(
                        listed@,
                    ).to_multiset(),
                    None => false,
                },
            },
            final(self).stage == Stage::Latency,
            consistent(final(self).report@, final(self).stage),
    {
        let namespaces: Option<Vec<String>> = match listed {
            Some(listed) => Some(text::sort(given_names(&listed))),
            None => None,
        };
        let ghost names = report::texts_of(namespaces);
        let ghost count = match names {
            Some(names) => Some(names.len()),
            None => None,
        };
        let good: bool = match (list_pods, list_namespaces) {
            (Some(true), _) => true,
            (_, Some(true)) => true,
            _ => false,
        };
        let is_admin: bool = match admin {
            Some(b) => b,
            None => false,
        };
        let listing: String = match &namespaces {
            Some(names) => cat3(
                "list namespaces (",
                text::decimal_text(names.len() as u128).as_str(),
                ")",
            ),
            None => "list namespaces".to_string(),
        };
        let mut checks: Vec<Check> = Vec::new();
        checks.push(Check { allowed: list_namespaces, label: listing, optional: false });
        checks.push(
            Check { allowed: list_pods, label: cat("list pods in ", namespace), optional: false },
        );
        checks.push(
            Check {
                allowed: admin,
                label: if is_admin {
                    "cluster-admin".to_string()
                } else {
                    "cluster-admin (not required)".to_string()
                },
                optional: true,
            },
        );
        let mut found = if good {
            Findings::none()
        } else {
            Findings::of_line(cat("this user can't list namespaces or pods in ", namespace))
        };
        found.checks = checks;
        let status: Status = if good {
            Status::Passed
        } else {
            Status::Warn
        };
        assert(found@.checks =~= permissions_found(
            namespace@,
            list_namespaces,
            list_pods,
            admin,
            count,
        ).1.checks);
        self.report.namespaces = namespaces;
        self.win(StepKind::Permissions, status, found, Stage::Latency, millis, total);
    }

    /// Latency: the median of the requests that were answered, and how many there were. Ends the
    /// run.
    pub fn latency(&mut self, median: Option<Latency>, count: usize, millis: u64, total: u64)
        requires
            consistent(old(self).report@, old(self).stage),
            old(self).stage == Stage::Latency,
        ensures
            final(self).report@ == over(
                match median {
                    Some(l) => won(
                        ReportState {
                            latency: Some((l.nanos, l.text@)),
                            ..old(self).report@
                        },
                        StepKind::Latency,
                        Status::Passed,
                        report::lines_found(
                            seq![
                                l.text@ + " (median of "@ + text::decimal(count as nat) + ")"@,
                            ],
                        ),
                        millis,
                        total,
                    ),
                    None => won(
                        old(self).report@,
                        StepKind::Latency,
                        Status::Warn,
                        report::lines_found(seq!["the latency requests failed"@]),
                        millis,
                        total,
                    ),
                },
            ),
            final(self).stage == Stage::Done,
            consistent(final(self).report@, final(self).stage),
            report::first_failure(final(self).report@.steps) is None,
    {
        let ghost before = self.report@;
        match median {
            Some(l) => {
                let line: String = cat4(
                    l.text.as_str(),
                    " (median of ",
                    text::decimal_text(count as u128).as_str(),
                    ")",
                );
                self.report.latency = Some(l);
                self.report.finish(
                    StepKind::Latency,
                    Status::Passed,
                    Findings::of_line(line),
                    millis,
                    total,
                );
            },
            None => {
                self.report.finish(
                    StepKind::Latency,
                    Status::Warn,
                    Findings::of_line("the latency requests failed".to_string()),
                    millis,
                    total,
                );
            },
        }
        self.report.done = true;
        self.stage = Stage::Done;
        proof {
            let now = self.report@;
            assert forall|i: int| 0 <= i < now.steps.len() implies {
                let status = (#[trigger] now.steps[i]).status;
                status != Status::Pending && status != Status::Running && status != Status::Fail
            } by {
                assert(before.steps[i].kind == report::kind_at(i));
            }
            report::lemma_no_failure(now.steps);
        }
    }
}

// ----- Laws -----

/// A run that fails is lost at one step: the steps before it stay as they were, every step after
/// it is skipped with the note, nothing is open, and the step is the report's failure.
pub proof fn a_failed_run_is_lost_at_one_step(
    r: ReportState,
    stage: Stage,
    found: Found,
    note: Seq<char>,
    millis: u64,
    total: u64,
)
    requires
        consistent(r, stage),
        stage != Stage::Done,
    ensures
        ({
            let at = reached(stage);
            let end = lost(r, report::kind_at(at), found, note, millis, total);
            &&& consistent(end, Stage::Done)
            &&& report::first_failure(end.steps) == Some(at)
            &&& forall|i: int|
                at < i < 7 ==> (#[trigger] end.steps[i]).status == Status::Skipped
                    && end.steps[i].found.lines == seq![note]
            &&& forall|i: int| 0 <= i < at ==> #[trigger] end.steps[i] == r.steps[i]
        }),
{
    let at = reached(stage);
    let kind = report::kind_at(at);
    let end = lost(r, kind, found, note, millis, total);
    report::failing_skips_the_rest(r, kind, found, note, millis);
    assert forall|i: int| 0 <= i < 7 implies (#[trigger] end.steps[i]).status != Status::Pending
        && end.steps[i].status != Status::Running by {
        assert(r.steps[i].kind == report::kind_at(i));
    }
    assert forall|i: int| 0 <= i < at implies (#[trigger] end.steps[i]).status != Status::Fail by {
        assert(end.steps[i] == r.steps[i]);
    }
    assert forall|i: int| at < i < 7 implies (#[trigger] end.steps[i]).status == Status::Skipped
        && end.steps[i].found.lines == seq![note] by {
        assert(r.steps[i].kind == report::kind_at(i));
    }
    report::failed_report_names_the_step(end, kind);
}

/// After a TLS failure no credentials were sent anywhere: the run is over, and the credentials
/// step says that it was skipped for that reason.
pub proof fn no_credentials_after_a_tls_failure(r: ReportState, found: Found, millis: u64, total: u64)
    requires
        consistent(r, Stage::Tls),
    ensures
        ({
            let end = lost(r, StepKind::Tls, found, nothing_sent(), millis, total);
            &&& consistent(end, Stage::Done)
            &&& end.steps[2].status == Status::Skipped
            &&& end.steps[2].found.lines == seq![nothing_sent()]
        }),
{
    a_failed_run_is_lost_at_one_step(r, Stage::Tls, found, nothing_sent(), millis, total);
}

} // verus!
