//! The desktop compositor, as far as a capture started from the launcher needs
//! it: a window that leaves the screen without a fade, and a wait that is a
//! deadline rather than a blind sleep.
//!
//! The system calls themselves belong to the application; what is decided
//! here is what each outcome prints and how much of the floor is left to
//! sleep once the presentations have been waited for.
use vstd::prelude::*;
use vstd::string::*;

verus! {

/// What taking one window's transitions away came to.
#[derive(Debug, Clone, PartialEq, Eq)]
pub enum Silencing {
    /// The compositor accepted: the window now leaves the screen in one step.
    Applied,
    /// Refused, by the compositor or because no window handle could be had.
    Refused(String),
    /// This build has no engine for the system it is running on.
    NoEngineHere,
    /// There was no window to silence.
    WindowMissing,
}

/// The line each outcome leaves in the terminal.
pub open spec fn silencing_text(outcome: Silencing, label: Seq<char>) -> Seq<char> {
    match outcome {
        Silencing::Applied => "[cliche] compositor: system transitions are OFF for the `"@ + label
            + "` window, so hiding it before a capture takes effect in one step instead of a fade"@,
        Silencing::Refused(reason) => "[cliche] compositor: system transitions could NOT be turned off for the `"@
            + label + "` window ("@ + reason@
            + "); it still fades out, and a capture started from the tile may catch it half erased"@,
        Silencing::NoEngineHere => "[cliche] compositor: no engine on this system, so the `"@ + label
            + "` window keeps its system transitions; the fixed wait before a capture is all the protection there is"@,
        Silencing::WindowMissing => "[cliche] compositor: there is no `"@ + label
            + "` window to take the system transitions away from, so nothing was attempted; it will fade out when a capture hides it"@,
    }
}

impl Silencing {
    /// The one line this leaves in the terminal, whatever happened; it names
    /// the window as well as the outcome.
    pub fn terminal_line(&self, label: &str) -> (line: String)
        ensures
            line@ == silencing_text(*self, label@),
    {
        match self {
            Silencing::Applied => {
                let mut line = String::from_str("[cliche] compositor: system transitions are OFF for the `");
                line.append(label);
                line.append(
                    "` window, so hiding it before a capture takes effect in one step instead of a fade",
                );
                line
            },
            Silencing::Refused(reason) => {
                let mut line = String::from_str(
                    "[cliche] compositor: system transitions could NOT be turned off for the `",
                );
                line.append(label);
                line.append("` window (");
                line.append(reason.as_str());
                line.append(
                    "); it still fades out, and a capture started from the tile may catch it half erased",
                );
                line
            },
            Silencing::NoEngineHere => {
                let mut line = String::from_str("[cliche] compositor: no engine on this system, so the `");
                line.append(label);
                line.append(
                    "` window keeps its system transitions; the fixed wait before a capture is all the protection there is",
                );
                line
            },
            Silencing::WindowMissing => {
                let mut line = String::from_str("[cliche] compositor: there is no `");
                line.append(label);
                line.append(
                    "` window to take the system transitions away from, so nothing was attempted; it will fade out when a capture hides it",
                );
                line
            },
        }
    }
}

/// What one settle after a hide really cost, in its two halves, in
/// nanoseconds.
#[derive(Debug, Clone, Copy, PartialEq, Eq)]
pub struct Settled {
    /// Time spent waiting for real presentations.
    pub presented: u64,
    /// Time spent asleep afterwards, to reach the floor.
    pub slept: u64,
}

impl Settled {
    /// What a capture that hid nothing waited for: nothing at all.
    pub fn nothing() -> (settled: Settled)
        ensures
            settled.presented == 0,
            settled.slept == 0,
    {
        Settled { presented: 0, slept: 0 }
    }
}

/// How long is left to sleep once `already_spent` has gone by, against a
/// `floor`, in nanoseconds. The presentations and the sleep together come to
/// the floor and never more; a floor already passed leaves nothing.
pub fn remaining_wait(already_spent: u64, floor: u64) -> (left: u64)
    ensures
        left <= floor,
        already_spent <= floor ==> already_spent + left == floor,
        already_spent >= floor ==> left == 0,
{
    if already_spent <= floor {
        floor - already_spent
    } else {
        0
    }
}

} // verus!
