//! How often a task is attempted, and what is said about each attempt.

use crate::error::concat2;
use crate::number;
use crate::number::decimal_text;
use crate::text;
use vstd::prelude::*;

verus! {

/// The pause after an attempt that failed, in seconds.
pub const RETRY_PAUSE_SECONDS: u64 = 2;

/// How far the attempts have come.
#[derive(Clone, Copy, Debug, PartialEq, Eq, Structural)]
pub enum Retry {
    /// The attempt with this number is being made.
    Attempting { attempt: u32 },
    /// An attempt succeeded.
    Succeeded,
    /// All attempts failed.
    GaveUp,
}

/// How much is said about the attempts.
#[derive(Clone, Copy, Debug, PartialEq, Eq, Structural)]
pub enum Reporting {
    /// Little, unless more is asked for: this is how packets are sent.
    Brief,
    /// Every attempt is announced: this is how the lamp is examined.
    Full,
}

/// Where the attempts begin, if there are to be `total` of them.
pub open spec fn first_attempt(total: u32) -> Retry {
    if total == 0 {
        Retry::GaveUp
    } else {
        Retry::Attempting { attempt: 1 }
    }
}

/// What follows an attempt that succeeded or failed.
pub open spec fn after_attempt(retry: Retry, total: u32, succeeded: bool) -> Retry {
    match retry {
        Retry::Attempting { attempt } => if succeeded {
            Retry::Succeeded
        } else if attempt < total {
            Retry::Attempting { attempt: (attempt + 1) as u32 }
        } else {
            Retry::GaveUp
        },
        _ => retry,
    }
}

/// What follows a number of attempts.
pub open spec fn after_attempts(total: u32, outcomes: Seq<bool>) -> Retry
    decreases outcomes.len(),
{
    if outcomes.len() == 0 {
        first_attempt(total)
    } else {
        after_attempt(after_attempts(total, outcomes.drop_last()), total, outcomes.last())
    }
}

/// The line that announces an attempt, if there is one.
pub open spec fn announcement(reporting: Reporting, verbose: bool, attempt: u32) -> Option<Seq<char>> {
    if reporting == Reporting::Full || verbose {
        Some("attempt "@ + number::decimal(attempt as nat))
    } else {
        None
    }
}

/// The line that reports an attempt that failed. While more attempts follow,
/// sending says only briefly what went wrong, unless more is asked for.
pub open spec fn failure_report(
    reporting: Reporting,
    verbose: bool,
    attempt: u32,
    total: u32,
    brief: Seq<char>,
    full: Seq<char>,
) -> Seq<char> {
    if reporting == Reporting::Full || verbose || attempt == total {
        "attempt "@ + number::decimal(attempt as nat) + " failed: "@ + full
    } else {
        "retrying after BLE error ("@ + number::decimal(attempt as nat) + "/"@ + number::decimal(
            total as nat,
        ) + "): "@ + brief
    }
}

impl Retry {
    /// The first of `total` attempts.
    pub fn start(total: u32) -> (r: Retry)
        ensures
            r == first_attempt(total),
    {
        if total == 0 {
            Retry::GaveUp
        } else {
            Retry::Attempting { attempt: 1 }
        }
    }

    /// What follows an attempt that succeeded or failed.
    pub fn next(self, total: u32, succeeded: bool) -> (r: Retry)
        ensures
            r == after_attempt(self, total, succeeded),
    {
        match self {
            Retry::Attempting { attempt } => if succeeded {
                Retry::Succeeded
            } else if attempt < total {
                Retry::Attempting { attempt: attempt + 1 }
            } else {
                Retry::GaveUp
            },
            _ => self,
        }
    }
}

/// The line that announces an attempt, if there is one.
pub fn attempt_line(reporting: Reporting, verbose: bool, attempt: u32) -> (r: Option<String>)
    ensures
        text::opt_text(r) == announcement(reporting, verbose, attempt),
{
    if reporting == Reporting::Full || verbose {
        Some(concat2("attempt ", decimal_text(attempt as u64).as_str()))
    } else {
        None
    }
}

/// The line that reports an attempt that failed.
pub fn failure_line(
    reporting: Reporting,
    verbose: bool,
    attempt: u32,
    total: u32,
    brief: &str,
    full: &str,
) -> (r: String)
    ensures
        r@ == failure_report(reporting, verbose, attempt, total, brief@, full@),
{
    if reporting == Reporting::Full || verbose || attempt == total {
        let mut out = concat2("attempt ", decimal_text(attempt as u64).as_str());
        out.append(" failed: ");
        out.append(full);
        out
    } else {
        let mut out = concat2("retrying after BLE error (", decimal_text(attempt as u64).as_str());
        out.append("/");
        out.append(decimal_text(total as u64).as_str());
        out.append("): ");
        out.append(brief);
        out
    }
}

// ----------------------------------------------------------------------- laws

/// As long as every attempt fails and there are attempts left, the next one is
/// made.
pub proof fn law_failures_are_retried(total: u32, outcomes: Seq<bool>)
    requires
        outcomes.len() < total,
        forall|i: int| 0 <= i < outcomes.len() ==> !#[trigger] outcomes[i],
    ensures
        after_attempts(total, outcomes) == (Retry::Attempting {
            attempt: (outcomes.len() + 1) as u32,
        }),
    decreases outcomes.len(),
{
    if outcomes.len() > 0 {
        law_failures_are_retried(total, outcomes.drop_last());
    }
}

/// The attempts are given up exactly when all of them have failed, and none is
/// made after the last.
pub proof fn law_all_failures_give_up(total: u32, outcomes: Seq<bool>)
    requires
        outcomes.len() == total,
    ensures
        after_attempts(total, outcomes) == Retry::GaveUp <==> (forall|i: int|
            0 <= i < outcomes.len() ==> !#[trigger] outcomes[i]),
        after_attempts(total, outcomes) == Retry::GaveUp || after_attempts(total, outcomes)
            == Retry::Succeeded,
{
    if forall|i: int| 0 <= i < outcomes.len() ==> !#[trigger] outcomes[i] {
        if total > 0 {
            law_failures_are_retried(total, outcomes.drop_last());
        }
    } else {
        let i = choose|i: int| 0 <= i < outcomes.len() && outcomes[i];
        law_a_success_ends_the_attempts(total, outcomes, i);
    }
}

/// An attempt that succeeds within the number of attempts ends them, whatever
/// would have come after it.
pub proof fn law_a_success_ends_the_attempts(total: u32, outcomes: Seq<bool>, i: int)
    requires
        0 <= i < outcomes.len(),
        i < total,
        outcomes[i],
    ensures
        after_attempts(total, outcomes) == Retry::Succeeded,
    decreases outcomes.len(),
{
    let before = outcomes.drop_last();
    if i < before.len() {
        law_a_success_ends_the_attempts(total, before, i);
    } else if exists|j: int| 0 <= j < before.len() && before[j] {
        let j = choose|j: int| 0 <= j < before.len() && before[j];
        law_a_success_ends_the_attempts(total, before, j);
    } else {
        law_failures_are_retried(total, before);
    }
}

} // verus!
