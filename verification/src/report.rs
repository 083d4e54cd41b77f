//! The report of a connection test: its steps, what each found, and how it ends.

use crate::certs::Moment;
use crate::text::{self, cat};
use vstd::prelude::*;

verus! {

#[derive(Clone, Copy, Debug, PartialEq, Eq, Hash, Structural)]
pub enum StepKind {
    Network,
    Tls,
    Credentials,
    Api,
    Auth,
    Permissions,
    Latency,
}

/// Where a step stands among all steps.
pub open spec fn place(kind: StepKind) -> int {
    match kind {
        StepKind::Network => 0,
        StepKind::Tls => 1,
        StepKind::Credentials => 2,
        StepKind::Api => 3,
        StepKind::Auth => 4,
        StepKind::Permissions => 5,
        StepKind::Latency => 6,
    }
}

/// The step at a place.
pub open spec fn kind_at(i: int) -> StepKind {
    if i == 0 {
        StepKind::Network
    } else if i == 1 {
        StepKind::Tls
    } else if i == 2 {
        StepKind::Credentials
    } else if i == 3 {
        StepKind::Api
    } else if i == 4 {
        StepKind::Auth
    } else if i == 5 {
        StepKind::Permissions
    } else {
        StepKind::Latency
    }
}

/// What a step is called.
pub open spec fn step_title(kind: StepKind) -> Seq<char> {
    match kind {
        StepKind::Network => "DNS and TCP"@,
        StepKind::Tls => "TLS"@,
        StepKind::Credentials => "Credentials"@,
        StepKind::Api => "API server"@,
        StepKind::Auth => "Authentication"@,
        StepKind::Permissions => "Permissions"@,
        StepKind::Latency => "Latency"@,
    }
}

impl StepKind {
    pub const ALL: [StepKind; 7] = [
        StepKind::Network,
        StepKind::Tls,
        StepKind::Credentials,
        StepKind::Api,
        StepKind::Auth,
        StepKind::Permissions,
        StepKind::Latency,
    ];

    pub fn title(self) -> (r: &'static str)
        ensures
            r@ == step_title(self),
    {
        match self {
            StepKind::Network => "DNS and TCP",
            StepKind::Tls => "TLS",
            StepKind::Credentials => "Credentials",
            StepKind::Api => "API server",
            StepKind::Auth => "Authentication",
            StepKind::Permissions => "Permissions",
            StepKind::Latency => "Latency",
        }
    }

    /// Where the step stands among all steps.
    pub fn position(self) -> (r: usize)
        ensures
            r == place(self),
            r < 7,
    {
        match self {
            StepKind::Network => 0,
            StepKind::Tls => 1,
            StepKind::Credentials => 2,
            StepKind::Api => 3,
            StepKind::Auth => 4,
            StepKind::Permissions => 5,
            StepKind::Latency => 6,
        }
    }
}

#[derive(Clone, Copy, Debug, PartialEq, Eq, Structural)]
pub enum Status {
    Pending,
    Running,
    Passed,
    Warn,
    Fail,
    Skipped,
}

/// What the UI can offer to fix a failed step.
#[derive(Debug, PartialEq, Eq)]
pub enum Fix {
    /// The server's CA isn't trusted: fetch it (trust on first use).
    FetchCa,
    /// An exec plugin isn't installed: its install hint.
    InstallHint(String),
    /// OIDC needs a sign-in.
    SignIn,
    /// The token was rejected or expired.
    ReplaceToken,
}

/// A fix as a mathematical value.
pub enum Remedy {
    FetchCa,
    InstallHint(Seq<char>),
    SignIn,
    ReplaceToken,
}

impl View for Fix {
    type V = Remedy;

    open spec fn view(&self) -> Remedy {
        match *self {
            Fix::FetchCa => Remedy::FetchCa,
            Fix::InstallHint(hint) => Remedy::InstallHint(hint@),
            Fix::SignIn => Remedy::SignIn,
            Fix::ReplaceToken => Remedy::ReplaceToken,
        }
    }
}

impl Clone for Fix {
    fn clone(&self) -> (r: Fix)
        ensures
            r@ == self@,
    {
        match self {
            Fix::FetchCa => Fix::FetchCa,
            Fix::InstallHint(hint) => Fix::InstallHint(hint.clone()),
            Fix::SignIn => Fix::SignIn,
            Fix::ReplaceToken => Fix::ReplaceToken,
        }
    }
}

/// A fix, if there is one.
pub open spec fn fix_of(fix: Option<Fix>) -> Option<Remedy> {
    match fix {
        Some(fix) => Some(fix@),
        None => None,
    }
}

fn clone_fix(fix: &Option<Fix>) -> (r: Option<Fix>)
    ensures
        fix_of(r) == fix_of(*fix),
{
    match fix {
        Some(fix) => Some(fix.clone()),
        None => None,
    }
}

/// A copy of an optional text.
pub fn clone_text(s: &Option<String>) -> (r: Option<String>)
    ensures
        text::text_of(r) == text::text_of(*s),
{
    match s {
        Some(s) => Some(s.clone()),
        None => None,
    }
}

/// A permission check: `Some(true)` allowed, `Some(false)` denied, `None` unknown.
#[derive(Debug, PartialEq, Eq)]
pub struct Check {
    pub allowed: Option<bool>,
    pub label: String,
    /// Denied isn't a problem (cluster-admin).
    pub optional: bool,
}

/// A permission check as a mathematical value.
pub struct Permission {
    pub allowed: Option<bool>,
    pub label: Seq<char>,
    pub optional: bool,
}

impl View for Check {
    type V = Permission;

    open spec fn view(&self) -> Permission {
        Permission { allowed: self.allowed, label: self.label@, optional: self.optional }
    }
}

impl Clone for Check {
    fn clone(&self) -> (r: Check)
        ensures
            r@ == self@,
    {
        Check { allowed: self.allowed, label: self.label.clone(), optional: self.optional }
    }
}

pub open spec fn checks_view(v: Seq<Check>) -> Seq<Permission> {
    Seq::new(v.len(), |i: int| v[i]@)
}

fn clone_checks(v: &Vec<Check>) -> (r: Vec<Check>)
    ensures
        checks_view(r@) == checks_view(v@),
{
    let mut out: Vec<Check> = Vec::new();
    let mut i: usize = 0;
    while i < v.len()
        invariant
            i <= v@.len(),
            checks_view(out@) =~= checks_view(v@).take(i as int),
        decreases v@.len() - i,
    {
        let ghost before = out@;
        out.push(v[i].clone());
        assert(checks_view(out@) =~= checks_view(before).push(v@[i as int]@));
        i += 1;
    }
    out
}

/// What a step found.
#[derive(Debug, PartialEq, Eq)]
pub struct Findings {
    /// Details: what was checked and found.
    pub lines: Vec<String>,
    /// Plain-language error.
    pub error: Option<String>,
    /// Exec plugin stderr.
    pub stderr: Option<String>,
    pub fix: Option<Fix>,
    pub checks: Vec<Check>,
}

/// Findings as a mathematical value.
pub struct Found {
    pub lines: Seq<Seq<char>>,
    pub error: Option<Seq<char>>,
    pub stderr: Option<Seq<char>>,
    pub fix: Option<Remedy>,
    pub checks: Seq<Permission>,
}

impl View for Findings {
    type V = Found;

    open spec fn view(&self) -> Found {
        Found {
            lines: text::texts(self.lines@),
            error: text::text_of(self.error),
            stderr: text::text_of(self.stderr),
            fix: fix_of(self.fix),
            checks: checks_view(self.checks@),
        }
    }
}

/// Nothing found.
pub open spec fn nothing() -> Found {
    Found { lines: seq![], error: None, stderr: None, fix: None, checks: seq![] }
}

/// Lines, and nothing else.
pub open spec fn lines_found(lines: Seq<Seq<char>>) -> Found {
    Found { lines, error: None, stderr: None, fix: None, checks: seq![] }
}

/// An error, and nothing else.
pub open spec fn error_found(error: Seq<char>) -> Found {
    Found { lines: seq![], error: Some(error), stderr: None, fix: None, checks: seq![] }
}

impl Findings {
    /// Nothing found.
    pub fn none() -> (r: Findings)
        ensures
            r@ == nothing(),
    {
        let r = Findings {
            lines: Vec::new(),
            error: None,
            stderr: None,
            fix: None,
            checks: Vec::new(),
        };
        assert(r@.lines =~= Seq::empty());
        assert(r@.checks =~= Seq::empty());
        r
    }

    /// Lines, and nothing else.
    pub fn of_lines(lines: Vec<String>) -> (r: Findings)
        ensures
            r@ == lines_found(text::texts(lines@)),
    {
        let mut r = Findings::none();
        r.lines = lines;
        r
    }

    /// One line, and nothing else.
    pub fn of_line(line: String) -> (r: Findings)
        ensures
            r@ == lines_found(seq![line@]),
    {
        let mut lines: Vec<String> = Vec::new();
        lines.push(line);
        assert(text::texts(lines@) =~= seq![line@]);
        Findings::of_lines(lines)
    }

    /// An error, and nothing else.
    pub fn of_error(error: String) -> (r: Findings)
        ensures
            r@ == error_found(error@),
    {
        let mut r = Findings::none();
        r.error = Some(error);
        r
    }
}

#[derive(Debug, PartialEq, Eq)]
pub struct Step {
    pub kind: StepKind,
    pub status: Status,
    /// Details: what was checked and found.
    pub lines: Vec<String>,
    /// Plain-language error.
    pub error: Option<String>,
    /// Exec plugin stderr.
    pub stderr: Option<String>,
    pub fix: Option<Fix>,
    pub checks: Vec<Check>,
    pub millis: Option<u64>,
}

/// A step as a mathematical value.
pub struct StepState {
    pub kind: StepKind,
    pub status: Status,
    pub found: Found,
    pub millis: Option<u64>,
}

impl View for Step {
    type V = StepState;

    open spec fn view(&self) -> StepState {
        StepState {
            kind: self.kind,
            status: self.status,
            found: Found {
                lines: text::texts(self.lines@),
                error: text::text_of(self.error),
                stderr: text::text_of(self.stderr),
                fix: fix_of(self.fix),
                checks: checks_view(self.checks@),
            },
            millis: self.millis,
        }
    }
}

/// A step that hasn't run.
pub open spec fn pending(kind: StepKind) -> StepState {
    StepState { kind, status: Status::Pending, found: nothing(), millis: None }
}

impl Step {
    /// A step with what it found.
    fn of(kind: StepKind, status: Status, found: Findings, millis: Option<u64>) -> (r: Step)
        ensures
            r@ == (StepState { kind, status, found: found@, millis }),
    {
        Step {
            kind,
            status,
            lines: found.lines,
            error: found.error,
            stderr: found.stderr,
            fix: found.fix,
            checks: found.checks,
            millis,
        }
    }

    fn new(kind: StepKind) -> (r: Step)
        ensures
            r@ == pending(kind),
    {
        Step::of(kind, Status::Pending, Findings::none(), None)
    }
}

impl Clone for Step {
    fn clone(&self) -> (r: Step)
        ensures
            r@ == self@,
    {
        Step {
            kind: self.kind,
            status: self.status,
            lines: text::clone_texts(&self.lines),
            error: clone_text(&self.error),
            stderr: clone_text(&self.stderr),
            fix: clone_fix(&self.fix),
            checks: clone_checks(&self.checks),
            millis: self.millis,
        }
    }
}

pub open spec fn steps_view(v: Seq<Step>) -> Seq<StepState> {
    Seq::new(v.len(), |i: int| v[i]@)
}

proof fn lemma_steps_update(v: Seq<Step>, i: int, s: Step)
    requires
        0 <= i < v.len(),
    ensures
        steps_view(v.update(i, s)) == steps_view(v).update(i, s@),
{
    assert(steps_view(v.update(i, s)) =~= steps_view(v).update(i, s@));
}

/// A round trip: how long it took, and how that is shown (`38 ms`).
#[derive(Debug)]
pub struct Latency {
    pub nanos: u64,
    pub text: String,
}

/// The state of a test run. Contains no secrets.
#[derive(Debug)]
pub struct Report {
    pub context: String,
    pub steps: Vec<Step>,
    /// From the permissions step, when listing namespaces is allowed.
    pub namespaces: Option<Vec<String>>,
    pub user: Option<String>,
    pub groups: Vec<String>,
    pub version: Option<String>,
    /// Median round trip of `GET /version`.
    pub latency: Option<Latency>,
    pub done: bool,
    pub started: Moment,
    pub millis: u64,
}

/// A report as a mathematical value.
pub struct ReportState {
    pub context: Seq<char>,
    pub steps: Seq<StepState>,
    pub namespaces: Option<Seq<Seq<char>>>,
    pub user: Option<Seq<char>>,
    pub groups: Seq<Seq<char>>,
    pub version: Option<Seq<char>>,
    pub latency: Option<(u64, Seq<char>)>,
    pub done: bool,
    pub started: Moment,
    pub millis: u64,
}

pub open spec fn texts_of(v: Option<Vec<String>>) -> Option<Seq<Seq<char>>> {
    match v {
        Some(v) => Some(text::texts(v@)),
        None => None,
    }
}

pub open spec fn latency_of(l: Option<Latency>) -> Option<(u64, Seq<char>)> {
    match l {
        Some(l) => Some((l.nanos, l.text@)),
        None => None,
    }
}

impl View for Report {
    type V = ReportState;

    open spec fn view(&self) -> ReportState {
        ReportState {
            context: self.context@,
            steps: steps_view(self.steps@),
            namespaces: texts_of(self.namespaces),
            user: text::text_of(self.user),
            groups: text::texts(self.groups@),
            version: text::text_of(self.version),
            latency: latency_of(self.latency),
            done: self.done,
            started: self.started,
            millis: self.millis,
        }
    }
}

impl Clone for Report {
    fn clone(&self) -> (r: Report)
        ensures
            r@ == self@,
    {
        let mut steps: Vec<Step> = Vec::new();
        let mut i: usize = 0;
        while i < self.steps.len()
            invariant
                i <= self.steps@.len(),
                steps_view(steps@) =~= steps_view(self.steps@).take(i as int),
            decreases self.steps@.len() - i,
        {
            let ghost before = steps@;
            steps.push(self.steps[i].clone());
            assert(steps_view(steps@) =~= steps_view(before).push(self.steps@[i as int]@));
            i += 1;
        }
        assert(steps_view(steps@) =~= steps_view(self.steps@));
        Report {
            context: self.context.clone(),
            steps,
            namespaces: match &self.namespaces {
                Some(v) => Some(text::clone_texts(v)),
                None => None,
            },
            user: clone_text(&self.user),
            groups: text::clone_texts(&self.groups),
            version: clone_text(&self.version),
            latency: match &self.latency {
                Some(l) => Some(Latency { nanos: l.nanos, text: l.text.clone() }),
                None => None,
            },
            done: self.done,
            started: self.started,
            millis: self.millis,
        }
    }
}

/// Every step is there, in order.
pub open spec fn complete(r: ReportState) -> bool {
    r.steps.len() == 7 && forall|i: int| 0 <= i < 7 ==> (#[trigger] r.steps[i]).kind == kind_at(i)
}

/// A report before its test.
pub open spec fn new_report(context: Seq<char>, started: Moment) -> ReportState {
    ReportState {
        context,
        steps: Seq::new(7, |i: int| pending(kind_at(i))),
        namespaces: None,
        user: None,
        groups: seq![],
        version: None,
        latency: None,
        done: false,
        started,
        millis: 0,
    }
}

/// The place of the first failed step, if there is one.
pub open spec fn first_failure(steps: Seq<StepState>) -> Option<int>
    decreases steps.len(),
{
    if steps.len() == 0 {
        None
    } else {
        match first_failure(steps.drop_last()) {
            Some(i) => Some(i),
            None => if steps.last().status == Status::Fail {
                Some(steps.len() - 1)
            } else {
                None
            },
        }
    }
}

/// What a report comes to, in a line.
pub open spec fn summary_text(r: ReportState) -> Seq<char> {
    if !r.done {
        "Testing…"@
    } else {
        match first_failure(r.steps) {
            Some(i) => "Failed at "@ + step_title(r.steps[i].kind) + ": "@
                + match r.steps[i].found.error {
                Some(e) => e,
                None => seq![],
            },
            None => text::joined(summary_parts(r), " · "@),
        }
    }
}

/// What is said of a test that passed.
pub open spec fn summary_parts(r: ReportState) -> Seq<Seq<char>> {
    seq!["Connected"@] + match r.latency {
        Some((_, text)) => seq![text],
        None => seq![],
    } + match r.version {
        Some(version) => seq![version],
        None => seq![],
    } + match r.user {
        Some(user) => seq!["as "@ + user],
        None => seq![],
    }
}

impl Report {
    /// A report before its test, which starts at a moment.
    pub fn starting_at(context: &str, started: Moment) -> (r: Report)
        ensures
            r@ == new_report(context@, started),
            complete(r@),
    {
        let mut steps: Vec<Step> = Vec::new();
        steps.push(Step::new(StepKind::Network));
        steps.push(Step::new(StepKind::Tls));
        steps.push(Step::new(StepKind::Credentials));
        steps.push(Step::new(StepKind::Api));
        steps.push(Step::new(StepKind::Auth));
        steps.push(Step::new(StepKind::Permissions));
        steps.push(Step::new(StepKind::Latency));
        let r = Report {
            context: context.to_string(),
            steps,
            namespaces: None,
            user: None,
            groups: Vec::new(),
            version: None,
            latency: None,
            done: false,
            started,
            millis: 0,
        };
        assert(r@.steps =~= new_report(context@, started).steps);
        assert(r@.groups =~= Seq::empty());
        r
    }

    /// A report before its test, which starts whenever the clock says it is now.
    pub fn new(context: &str) -> (r: Report)
        ensures
            r@ == new_report(context@, r.started),
            complete(r@),
    {
        Report::starting_at(context, Moment::now())
    }

    pub fn step(&self, kind: StepKind) -> (r: &Step)
        requires
            complete(self@),
        ensures
            r@ == self@.steps[place(kind)],
            r.kind == kind,
    {
        let i: usize = kind.position();
        assert(self@.steps.len() == self.steps@.len());
        assert(self@.steps[i as int].kind == kind_at(i as int));
        &self.steps[i]
    }

    /// The first failed step.
    pub fn failure(&self) -> (r: Option<&Step>)
        ensures
            match r {
                Some(step) => first_failure(self@.steps) is Some && step@
                    == self@.steps[first_failure(self@.steps)->0],
                None => first_failure(self@.steps) is None,
            },
    {
        let ghost all = self@.steps;
        let mut i: usize = 0;
        assert(all.take(0) =~= Seq::empty());
        while i < self.steps.len()
            invariant
                i <= self.steps@.len(),
                all == self@.steps,
                first_failure(all.take(i as int)) is None,
            decreases self.steps@.len() - i,
        {
            assert(all.take(i + 1).drop_last() =~= all.take(i as int));
            assert(all[i as int] == self.steps@[i as int]@);
            if self.steps[i].status == Status::Fail {
                proof {
                    lemma_failure_stays(all, i + 1);
                }
                return Some(&self.steps[i]);
            }
            i += 1;
        }
        assert(all.take(i as int) =~= all);
        None
    }

    /// Finished without a failed step.
    pub fn passed(&self) -> (r: bool)
        ensures
            r == (self@.done && first_failure(self@.steps) is None),
    {
        self.done && self.failure().is_none()
    }

    /// `Connected · 38 ms · v1.33.1 · as kubernetes-admin`, or the failure.
    pub fn summary(&self) -> (r: String)
        ensures
            r@ == summary_text(self@),
    {
        if !self.done {
            return "Testing…".to_string();
        }
        if let Some(step) = self.failure() {
            let error: String = match &step.error {
                Some(error) => error.clone(),
                None => String::new(),
            };
            return text::cat4("Failed at ", step.kind.title(), ": ", error.as_str());
        }
        broadcast use text::texts_push;

        let mut parts: Vec<String> = Vec::new();
        assert(text::texts(parts@) =~= Seq::empty());
        parts.push("Connected".to_string());
        if let Some(latency) = &self.latency {
            parts.push(latency.text.clone());
        }
        if let Some(version) = &self.version {
            parts.push(version.clone());
        }
        if let Some(user) = &self.user {
            parts.push(cat("as ", user.as_str()));
        }
        assert(text::texts(parts@) =~= summary_parts(self@));
        text::join(&parts, " · ")
    }
}

proof fn lemma_failure_stays(steps: Seq<StepState>, n: int)
    requires
        0 <= n <= steps.len(),
        first_failure(steps.take(n)) is Some,
    ensures
        first_failure(steps) == first_failure(steps.take(n)),
    decreases steps.len() - n,
{
    if n < steps.len() {
        assert(steps.take(n + 1).drop_last() =~= steps.take(n));
        lemma_failure_stays(steps, n + 1);
    } else {
        assert(steps.take(n) =~= steps);
    }
}

// ----- Progress -----

/// The report after a while.
pub open spec fn after(r: ReportState, total: u64) -> ReportState {
    ReportState { millis: total, ..r }
}

/// A step is running.
pub open spec fn running(r: ReportState, kind: StepKind) -> ReportState {
    ReportState {
        steps: r.steps.update(
            place(kind),
            StepState { status: Status::Running, ..r.steps[place(kind)] },
        ),
        ..r
    }
}

/// A step has ended with a status, and what it found.
pub open spec fn ended(
    r: ReportState,
    kind: StepKind,
    status: Status,
    found: Found,
    millis: u64,
) -> ReportState {
    ReportState {
        steps: r.steps.update(
            place(kind),
            StepState { kind, status, found, millis: Some(millis) },
        ),
        ..r
    }
}

/// A step that no longer runs: one that hasn't ended is skipped, with a note why.
pub open spec fn skipped_step(s: StepState, note: Seq<char>) -> StepState {
    if s.status == Status::Pending || s.status == Status::Running {
        StepState {
            status: Status::Skipped,
            found: Found { lines: seq![note], ..s.found },
            ..s
        }
    } else {
        s
    }
}

/// Every step after one no longer runs.
pub open spec fn skipped_after(r: ReportState, kind: StepKind, note: Seq<char>) -> ReportState {
    ReportState {
        steps: Seq::new(
            r.steps.len(),
            |i: int|
                if i > place(kind) {
                    skipped_step(r.steps[i], note)
                } else {
                    r.steps[i]
                },
        ),
        ..r
    }
}

/// A step has failed; the steps after it are skipped.
pub open spec fn failed(
    r: ReportState,
    kind: StepKind,
    found: Found,
    note: Seq<char>,
    millis: u64,
) -> ReportState {
    ended(skipped_after(r, kind, note), kind, Status::Fail, found, millis)
}

/// No step is waiting or running.
pub open spec fn settled(r: ReportState) -> bool {
    forall|i: int|
        0 <= i < r.steps.len() ==> (#[trigger] r.steps[i]).status != Status::Pending
            && r.steps[i].status != Status::Running
}

impl Report {
    /// Marks a step as running.
    pub fn start(&mut self, kind: StepKind, total: u64)
        requires
            complete(old(self)@),
        ensures
            final(self)@ == after(running(old(self)@, kind), total),
            complete(final(self)@),
    {
        let i: usize = kind.position();
        let ghost before = self.steps@;
        assert(self@.steps.len() == before.len());
        let mut step: Step = self.steps[i].clone();
        step.status = Status::Running;
        proof {
            lemma_steps_update(before, i as int, step);
        }
        self.steps.set(i, step);
        self.millis = total;
    }

    /// Ends a step.
    pub fn finish(&mut self, kind: StepKind, status: Status, found: Findings, millis: u64, total: u64)
        requires
            complete(old(self)@),
        ensures
            final(self)@ == after(ended(old(self)@, kind, status, found@, millis), total),
            complete(final(self)@),
    {
        let i: usize = kind.position();
        let ghost before = self.steps@;
        assert(self@.steps.len() == before.len());
        let step: Step = Step::of(kind, status, found, Some(millis));
        proof {
            lemma_steps_update(before, i as int, step);
        }
        self.steps.set(i, step);
        self.millis = total;
    }

    /// Skips everything after a step.
    pub fn skip_rest(&mut self, kind: StepKind, note: &str)
        requires
            complete(old(self)@),
        ensures
            final(self)@ == skipped_after(old(self)@, kind, note@),
            complete(final(self)@),
    {
        let ghost before = self@;
        let ghost wanted = skipped_after(before, kind, note@);
        let mut i: usize = kind.position() + 1;
        assert(self@.steps.len() == self.steps@.len());
        while i < self.steps.len()
            invariant
                place(kind) < i <= 7,
                self.steps@.len() == 7,
                complete(before),
                wanted == skipped_after(before, kind, note@),
                self@ == (ReportState { steps: self@.steps, ..before }),
                forall|j: int| 0 <= j < i ==> #[trigger] self@.steps[j] == wanted.steps[j],
                forall|j: int| i <= j < 7 ==> #[trigger] self@.steps[j] == before.steps[j],
            decreases 7 - i,
        {
            let status: Status = self.steps[i].status;
            assert(self@.steps[i as int] == self.steps@[i as int]@);
            if status == Status::Pending || status == Status::Running {
                let mut step: Step = self.steps[i].clone();
                step.status = Status::Skipped;
                let mut lines: Vec<String> = Vec::new();
                lines.push(note.to_string());
                assert(text::texts(lines@) =~= seq![note@]);
                step.lines = lines;
                proof {
                    lemma_steps_update(self.steps@, i as int, step);
                }
                self.steps.set(i, step);
            }
            i += 1;
        }
        assert(self@.steps =~= wanted.steps);
    }

    /// Fails a step and skips everything after it.
    pub fn fail_with(
        &mut self,
        kind: StepKind,
        found: Findings,
        note: &str,
        millis: u64,
        total: u64,
    )
        requires
            complete(old(self)@),
        ensures
            final(self)@ == after(failed(old(self)@, kind, found@, note@, millis), total),
            complete(final(self)@),
    {
        self.skip_rest(kind, note);
        self.finish(kind, Status::Fail, found, millis, total);
    }
}

// ----- Laws -----

/// A failed step skips the rest: after it nothing is waiting or running, what had ended stays
/// as it was, and the steps before it too. The failed step is the first failure unless one
/// before it failed.
pub proof fn failing_skips_the_rest(
    r: ReportState,
    kind: StepKind,
    found: Found,
    note: Seq<char>,
    millis: u64,
)
    requires
        complete(r),
    ensures
        ({
            let after = failed(r, kind, found, note, millis);
            &&& complete(after)
            &&& after.steps[place(kind)].status == Status::Fail
            &&& after.steps[place(kind)].found == found
            &&& forall|i: int|
                place(kind) < i < 7 ==> {
                    let was = r.steps[i].status;
                    if was == Status::Pending || was == Status::Running {
                        (#[trigger] after.steps[i]).status == Status::Skipped
                            && after.steps[i].found.lines == seq![note]
                    } else {
                        after.steps[i] == r.steps[i]
                    }
                }
            &&& forall|i: int| 0 <= i < place(kind) ==> #[trigger] after.steps[i] == r.steps[i]
        }),
{
}

/// A report passes only when no step failed, and says so in its summary: a failed report's
/// summary names the first failed step.
pub proof fn failed_report_names_the_step(r: ReportState, kind: StepKind)
    requires
        complete(r),
        r.done,
        r.steps[place(kind)].status == Status::Fail,
        forall|i: int| 0 <= i < place(kind) ==> (#[trigger] r.steps[i]).status != Status::Fail,
    ensures
        first_failure(r.steps) == Some(place(kind)),
        summary_text(r) == "Failed at "@ + step_title(kind) + ": "@
            + match r.steps[place(kind)].found.error {
            Some(e) => e,
            None => seq![],
        },
{
    let n = place(kind);
    lemma_no_failure(r.steps.take(n));
    assert(r.steps.take(n + 1).drop_last() =~= r.steps.take(n));
    lemma_failure_stays(r.steps, n + 1);
    assert(r.steps[n].kind == kind_at(n));
}

pub proof fn lemma_no_failure(steps: Seq<StepState>)
    requires
        forall|i: int| 0 <= i < steps.len() ==> (#[trigger] steps[i]).status != Status::Fail,
    ensures
        first_failure(steps) is None,
    decreases steps.len(),
{
    if steps.len() > 0 {
        lemma_no_failure(steps.drop_last());
    }
}

} // verus!
