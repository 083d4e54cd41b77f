//! The marks of problems and test steps.

use crate::editor_view::Tone;
use crate::report::Status;
use crate::validate::Severity;
use vstd::prelude::*;

verus! {

/// A symbol that is drawn.
#[derive(Clone, Copy, Debug, PartialEq, Eq, Structural)]
pub enum Symbol {
    Check,
    Warning,
    Cross,
    Refresh,
    Info,
}

/// The colour and symbol of a problem.
pub fn severity_style(severity: Severity) -> (r: (Tone, Symbol))
    ensures
        r == match severity {
            Severity::Error => (Tone::Red, Symbol::Cross),
            Severity::Warning => (Tone::Yellow, Symbol::Warning),
            Severity::Info => (Tone::Dim, Symbol::Info),
        },
{
    match severity {
        Severity::Error => (Tone::Red, Symbol::Cross),
        Severity::Warning => (Tone::Yellow, Symbol::Warning),
        Severity::Info => (Tone::Dim, Symbol::Info),
    }
}

/// The symbol of a test step (an empty circle without one) and its colour.
pub fn status_icon(status: Status) -> (r: (Option<Symbol>, Tone))
    ensures
        r == match status {
            Status::Passed => (Some(Symbol::Check), Tone::Green),
            Status::Warn => (Some(Symbol::Warning), Tone::Yellow),
            Status::Fail => (Some(Symbol::Cross), Tone::Red),
            Status::Running => (Some(Symbol::Refresh), Tone::Accent),
            Status::Pending | Status::Skipped => (None, Tone::Faint),
        },
{
    match status {
        Status::Passed => (Some(Symbol::Check), Tone::Green),
        Status::Warn => (Some(Symbol::Warning), Tone::Yellow),
        Status::Fail => (Some(Symbol::Cross), Tone::Red),
        Status::Running => (Some(Symbol::Refresh), Tone::Accent),
        Status::Pending | Status::Skipped => (None, Tone::Faint),
    }
}

} // verus!
