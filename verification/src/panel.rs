//! What the "Test connection" results show: one row per step with ✓/✗, details, the
//! plain-language error and the fix it suggests.

use crate::editor_view::Tone;
use crate::outside;
use crate::report::{self, Check, Fix, Remedy, Report, Status, Step, StepKind, StepState};
use crate::state::SignInState;
use crate::text::{self, cat, cat3};
use vstd::prelude::*;

verus! {

// ----- Texts -----

/// A text with its first character in upper case.
pub open spec fn capitalized(s: Seq<char>) -> Seq<char> {
    if s.len() == 0 {
        s
    } else {
        outside::uppercase(s.take(1)) + s.skip(1)
    }
}

/// A text with its first character in upper case.
pub fn capitalize(s: &str) -> (r: String)
    ensures
        r@ == capitalized(s@),
{
    let cs: Vec<char> = text::chars(s);
    if cs.len() == 0 {
        return s.to_string();
    }
    let first: String = text::text_between(&cs, 0, 1);
    let rest: String = text::text_between(&cs, 1, cs.len());
    assert(first@ =~= s@.take(1));
    assert(rest@ =~= s@.skip(1));
    cat(outside::to_uppercase(first.as_str()).as_str(), rest.as_str())
}

/// A text of at most `max` characters: of a longer one the beginning, with an ellipsis.
pub open spec fn truncated(s: Seq<char>, max: nat) -> Seq<char> {
    if s.len() <= max {
        s
    } else {
        s.take(max as int) + "…"@
    }
}

/// A text of at most `max` characters: of a longer one the beginning, with an ellipsis.
pub fn truncate(s: &str, max: usize) -> (r: String)
    ensures
        r@ == truncated(s@, max as nat),
{
    let cs: Vec<char> = text::chars(s);
    if cs.len() <= max {
        return s.to_string();
    }
    let start: String = text::text_between(&cs, 0, max);
    assert(start@ =~= s@.take(max as int));
    cat(start.as_str(), "…")
}

// ----- The report -----

/// Whether a line says that the step was skipped.
pub open spec fn says_skipped(lines: Seq<Seq<char>>) -> bool {
    exists|i: int| 0 <= i < lines.len() && "Skipped"@.is_prefix_of(#[trigger] lines[i])
}

/// Whether a step is only named at the end: it was skipped because of another one.
pub open spec fn folded(s: StepState) -> bool {
    s.status == Status::Skipped && says_skipped(s.found.lines)
}

/// The places of the steps with a row of their own.
pub open spec fn row_places(steps: Seq<StepState>) -> Seq<int>
    decreases steps.len(),
{
    if steps.len() == 0 {
        seq![]
    } else {
        let before = row_places(steps.drop_last());
        if folded(steps.last()) {
            before
        } else {
            before.push(steps.len() - 1)
        }
    }
}

/// The titles of the steps that are only named.
pub open spec fn folded_titles(steps: Seq<StepState>) -> Seq<Seq<char>>
    decreases steps.len(),
{
    if steps.len() == 0 {
        seq![]
    } else {
        let before = folded_titles(steps.drop_last());
        if folded(steps.last()) {
            before.push(report::step_title(steps.last().kind))
        } else {
            before
        }
    }
}

/// The first line of the first skipped step.
pub open spec fn skip_reason(steps: Seq<StepState>) -> Seq<char>
    decreases steps.len(),
{
    if steps.len() == 0 {
        seq![]
    } else if steps[0].status == Status::Skipped {
        if steps[0].found.lines.len() > 0 {
            steps[0].found.lines[0]
        } else {
            seq![]
        }
    } else {
        skip_reason(steps.drop_first())
    }
}

/// How long a test took, behind where it was of.
pub open spec fn timing(subtitle: Option<Seq<char>>, done: bool, duration: Seq<char>) -> Seq<char> {
    let state = if done {
        duration
    } else {
        "testing…"@
    };
    match subtitle {
        Some(s) => s + " · "@ + state,
        None => state,
    }
}

/// The report: which steps have a row, and which are only named.
#[derive(Debug)]
pub struct Panel {
    pub timing: String,
    /// "Run again".
    pub can_rerun: bool,
    /// The places of the steps with a row.
    pub rows: Vec<usize>,
    /// Why the rest was skipped, and what: `TLS · API server`.
    pub skipped: Option<(String, String)>,
}

pub open spec fn places_view(v: Seq<usize>) -> Seq<int> {
    Seq::new(v.len(), |i: int| v[i] as int)
}

fn is_folded(step: &Step) -> (r: bool)
    ensures
        r == folded(step@),
{
    if step.status != Status::Skipped {
        return false;
    }
    let ghost lines = text::texts(step.lines@);
    let mut i: usize = 0;
    while i < step.lines.len()
        invariant
            i <= step.lines@.len(),
            lines == text::texts(step.lines@),
            step.status == Status::Skipped,
            forall|j: int| 0 <= j < i ==> !"Skipped"@.is_prefix_of(#[trigger] lines[j]),
        decreases step.lines@.len() - i,
    {
        assert(lines[i as int] == step.lines@[i as int]@);
        if text::starts_with(step.lines[i].as_str(), "Skipped") {
            return true;
        }
        i += 1;
    }
    false
}

fn reason(steps: &Vec<Step>) -> (r: String)
    ensures
        r@ == skip_reason(report::steps_view(steps@)),
{
    let ghost all = report::steps_view(steps@);
    let mut i: usize = 0;
    assert(all.skip(0) =~= all);
    while i < steps.len()
        invariant
            i <= steps@.len(),
            all == report::steps_view(steps@),
            skip_reason(all.skip(i as int)) == skip_reason(all),
        decreases steps@.len() - i,
    {
        let ghost rest = all.skip(i as int);
        assert(rest.drop_first() =~= all.skip(i + 1));
        let step: &Step = &steps[i];
        assert(rest[0] == step@);
        if step.status == Status::Skipped {
            assert(text::texts(step.lines@).len() == step.lines@.len());
            if step.lines.len() > 0 {
                assert(text::texts(step.lines@)[0] == step.lines@[0]@);
                return step.lines[0].clone();
            }
            let none: String = String::new();
            assert(none@ =~= seq![]);
            return none;
        }
        i += 1;
    }
    let none: String = String::new();
    assert(none@ =~= seq![]);
    none
}

/// The report. `duration` is how long the test took, in words.
pub fn panel(report: &Report, subtitle: Option<&str>, duration: &str) -> (r: Panel)
    ensures
        r.timing@ == timing(
            match subtitle {
                Some(s) => Some(s@),
                None => None,
            },
            report.done,
            duration@,
        ),
        r.can_rerun == report.done,
        places_view(r.rows@) == row_places(report@.steps),
        match r.skipped {
            Some((why, what)) => folded_titles(report@.steps).len() > 0 && why@ == skip_reason(
                report@.steps,
            ) && what@ == text::joined(folded_titles(report@.steps), " · "@),
            None => folded_titles(report@.steps).len() == 0,
        },
{
    let ghost all = report@.steps;
    let mut rows: Vec<usize> = Vec::new();
    let mut titles: Vec<String> = Vec::new();
    let mut i: usize = 0;
    assert(all.take(0) =~= seq![]);
    assert(places_view(rows@) =~= seq![]);
    assert(text::texts(titles@) =~= seq![]);
    while i < report.steps.len()
        invariant
            i <= report.steps@.len(),
            all == report::steps_view(report.steps@),
            places_view(rows@) == row_places(all.take(i as int)),
            text::texts(titles@) == folded_titles(all.take(i as int)),
        decreases report.steps@.len() - i,
    {
        broadcast use text::texts_push;

        let ghost before = rows@;
        assert(all.take(i + 1).drop_last() =~= all.take(i as int));
        assert(all.take(i + 1).last() == report.steps@[i as int]@);
        if is_folded(&report.steps[i]) {
            titles.push(report.steps[i].kind.title().to_string());
        } else {
            rows.push(i);
            assert(places_view(rows@) =~= places_view(before).push(i as int));
        }
        i += 1;
    }
    assert(all.take(i as int) =~= all);
    assert(text::texts(titles@).len() == titles@.len());
    let state: &str = if report.done {
        duration
    } else {
        "testing…"
    };
    Panel {
        timing: match subtitle {
            Some(s) => cat3(s, " · ", state),
            None => state.to_string(),
        },
        can_rerun: report.done,
        rows,
        skipped: if titles.len() == 0 {
            None
        } else {
            Some((reason(&report.steps), text::join(&titles, " · ")))
        },
    }
}

// ----- A step -----

/// A step's row.
#[derive(Debug)]
pub struct StepRow {
    pub title: &'static str,
    pub dim: bool,
    /// The milliseconds it took are shown.
    pub shows_time: bool,
    pub error: Option<String>,
    pub stderr: Option<String>,
}

/// The row of a step.
pub fn step_row(step: &Step) -> (r: StepRow)
    ensures
        r.title@ == report::step_title(step.kind),
        r.dim == (step.status == Status::Pending || step.status == Status::Skipped),
        r.shows_time == (step.millis is Some && step.kind != StepKind::Latency),
        text::text_of(r.error) == match step.error {
            Some(e) => Some(capitalized(e@)),
            None => None,
        },
        text::text_of(r.stderr) == match step.stderr {
            Some(e) => Some(truncated(e@, 1200)),
            None => None,
        },
{
    StepRow {
        title: step.kind.title(),
        dim: step.status == Status::Pending || step.status == Status::Skipped,
        shows_time: step.millis.is_some() && step.kind != StepKind::Latency,
        error: match &step.error {
            Some(e) => Some(capitalize(e.as_str())),
            None => None,
        },
        stderr: match &step.stderr {
            Some(e) => Some(truncate(e.as_str(), 1200)),
            None => None,
        },
    }
}

/// The mark of a permission check and its colour.
pub fn check_mark(check: &Check) -> (r: (&'static str, Tone))
    ensures
        (r.0@, r.1) == match (check.allowed, check.optional) {
            (Some(true), _) => ("✓"@, Tone::Green),
            (Some(false), true) => ("—"@, Tone::Faint),
            (Some(false), false) => ("✗"@, Tone::Red),
            (None, _) => ("?"@, Tone::Faint),
        },
{
    match check.allowed {
        Some(true) => ("✓", Tone::Green),
        Some(false) => if check.optional {
            ("—", Tone::Faint)
        } else {
            ("✗", Tone::Red)
        },
        None => ("?", Tone::Faint),
    }
}

/// What the row of a fix offers.
#[derive(Debug)]
pub enum FixRow {
    /// "Fetch the CA from the server…".
    FetchCa,
    /// The hint, with "Copy install hint".
    Hint(String),
    /// "Waiting for your browser…", with "Reopen browser".
    Waiting(String),
    /// "Signing in…".
    SigningIn,
    /// "Sign in…", with the error of the last try.
    SignIn(Option<String>),
    /// "Edit the token…".
    EditToken,
    Nothing,
}

/// What the row of a fix offers. `has_provider`: the context signs in with a provider.
pub fn fix_row(fix: &Fix, sign_in: Option<&SignInState>, has_provider: bool) -> (r: FixRow)
    ensures
        match fix@ {
            Remedy::FetchCa => r is FetchCa,
            Remedy::InstallHint(hint) => r is Hint && r->Hint_0@ == hint,
            Remedy::ReplaceToken => r is EditToken,
            Remedy::SignIn => match sign_in {
                Some(SignInState::WaitingForBrowser { url }) => r is Waiting && r->Waiting_0@
                    == url@,
                Some(SignInState::Starting) => r is SigningIn,
                Some(SignInState::DeviceCode { user_code: _, verification_uri: _ }) => r is SigningIn,
                Some(SignInState::Failed(e)) => if has_provider {
                    r is SignIn && text::text_of(r->SignIn_0) == Some(e@)
                } else {
                    r is Nothing
                },
                None => if has_provider {
                    r is SignIn && r->SignIn_0 is None
                } else {
                    r is Nothing
                },
            },
        },
{
    match fix {
        Fix::FetchCa => FixRow::FetchCa,
        Fix::InstallHint(hint) => FixRow::Hint(hint.clone()),
        Fix::ReplaceToken => FixRow::EditToken,
        Fix::SignIn => match sign_in {
            Some(SignInState::WaitingForBrowser { url }) => FixRow::Waiting(url.clone()),
            Some(SignInState::Starting) => FixRow::SigningIn,
            Some(SignInState::DeviceCode { user_code: _, verification_uri: _ }) => FixRow::SigningIn,
            Some(SignInState::Failed(e)) => if has_provider {
                FixRow::SignIn(Some(e.clone()))
            } else {
                FixRow::Nothing
            },
            None => if has_provider {
                FixRow::SignIn(None)
            } else {
                FixRow::Nothing
            },
        },
    }
}

// ----- Namespaces -----

/// How many namespaces are shown.
pub const NAMESPACES_SHOWN: usize = 12;

/// The namespaces of a cluster: the first ones, and how many there are.
#[derive(Debug)]
pub struct Namespaces {
    pub title: String,
    pub shown: Vec<String>,
    /// `+3 more`.
    pub more: Option<String>,
}

/// The namespaces of a cluster: the first ones, and how many there are.
pub fn namespaces(names: &Vec<String>) -> (r: Namespaces)
    ensures
        r.title@ == "NAMESPACES · "@ + text::decimal(names@.len()),
        text::texts(r.shown@) == if names@.len() > NAMESPACES_SHOWN {
            text::texts(names@).take(NAMESPACES_SHOWN as int)
        } else {
            text::texts(names@)
        },
        text::text_of(r.more) == if names@.len() > NAMESPACES_SHOWN {
            Some("+"@ + text::decimal((names@.len() - NAMESPACES_SHOWN) as nat) + " more"@)
        } else {
            None
        },
{
    let mut shown: Vec<String> = Vec::new();
    let count: usize = if names.len() > NAMESPACES_SHOWN {
        NAMESPACES_SHOWN
    } else {
        names.len()
    };
    let ghost all = text::texts(names@);
    let mut i: usize = 0;
    assert(text::texts(shown@) =~= all.take(0));
    while i < count
        invariant
            i <= count <= names@.len(),
            all == text::texts(names@),
            text::texts(shown@) == all.take(i as int),
        decreases count - i,
    {
        broadcast use text::texts_push;

        shown.push(names[i].clone());
        assert(all.take(i + 1) =~= all.take(i as int).push(all[i as int]));
        i += 1;
    }
    assert(count == names@.len() ==> all.take(count as int) =~= all);
    Namespaces {
        title: cat("NAMESPACES · ", text::decimal_text(names.len() as u128).as_str()),
        shown,
        more: if names.len() > count {
            Some(cat3("+", text::decimal_text((names.len() - count) as u128).as_str(), " more"))
        } else {
            None
        },
    }
}

/// A compact status for list rows.
pub fn badge(report: &Report) -> (r: Status)
    ensures
        r == if !report.done {
            Status::Running
        } else if report::first_failure(report@.steps) is None {
            Status::Passed
        } else {
            Status::Fail
        },
{
    if !report.done {
        Status::Running
    } else if report.passed() {
        Status::Passed
    } else {
        Status::Fail
    }
}

} // verus!
