//! Starting a capture from the launcher, with the mouse.
//!
//! A click on the tile is a click on a focused Cliché window, so this path
//! hides the main window before the screen is photographed, waits for the
//! desktop to be recomposed without it, and puts it back when the capture
//! ends. The debt it takes on is one `show()` for every `hide()`: this module
//! holds the rule that pays it exactly once.
use vstd::prelude::*;

verus! {

/// How long Windows is given to repaint the desktop without Cliché in it,
/// between the hide returning and the screen being photographed, in
/// nanoseconds: 120 ms. A reasoned number, not a measured one; it is a floor
/// that the compositor's own presentations are deducted from.
pub const RECOMPOSE_SETTLE_NANOS: u64 = 120_000_000;

/// One presentation at 60 Hz, in nanoseconds: the slower of the two refresh
/// rates the settle time is argued against.
pub const FRAME_60HZ_NANOS: u64 = 16_667_000;

/// What this application knows about the main window when a capture ends.
#[derive(Debug, Clone, Copy, PartialEq, Eq, Structural)]
pub enum MainWindow {
    /// This path hid it, before the capture, and nothing has put it back yet.
    HiddenForCapture,
    /// Nobody here touched it; whatever state it is in is the user's.
    LeftAlone,
}

/// Whether the end of a capture must put the main window back up: only when
/// this path took it away.
pub fn should_restore(main: MainWindow) -> (restore: bool)
    ensures
        restore == (main == MainWindow::HiddenForCapture),
{
    match main {
        MainWindow::HiddenForCapture => true,
        MainWindow::LeftAlone => false,
    }
}

/// The debt this path owes the user: one `show()` for every `hide()`.
#[derive(Debug)]
pub struct MainWindowClaim {
    hidden: bool,
}

impl MainWindowClaim {
    /// Whether a window of ours is off the screen and has not been put back.
    pub closed spec fn owes(&self) -> bool {
        self.hidden
    }

    /// A claim that owes nothing.
    pub fn new() -> (claim: Self)
        ensures
            !claim.owes(),
    {
        MainWindowClaim { hidden: false }
    }

    /// Records that the main window has just been hidden by this path.
    pub fn owe_a_restore(&mut self)
        ensures
            final(self).owes(),
    {
        self.hidden = true;
    }

    /// Takes the debt, if there is one, and leaves none behind.
    pub fn take(&mut self) -> (main: MainWindow)
        ensures
            taken(*old(self), *final(self), main),
    {
        if self.hidden {
            self.hidden = false;
            MainWindow::HiddenForCapture
        } else {
            MainWindow::LeftAlone
        }
    }
}

/// What taking the debt does: it answers whether there was one, and leaves
/// none.
pub open spec fn taken(before: MainWindowClaim, after: MainWindowClaim, main: MainWindow) -> bool {
    &&& main == (if before.owes() {
        MainWindow::HiddenForCapture
    } else {
        MainWindow::LeftAlone
    })
    &&& !after.owes()
}

/// The debt is paid once and only once: of two takes in a row, the second
/// never asks for a restore, and a take right after a hide always does.
pub proof fn law_debt_paid_once(
    first: MainWindowClaim,
    second: MainWindowClaim,
    third: MainWindowClaim,
    answer1: MainWindow,
    answer2: MainWindow,
)
    requires
        taken(first, second, answer1),
        taken(second, third, answer2),
    ensures
        answer2 == MainWindow::LeftAlone,
        first.owes() ==> answer1 == MainWindow::HiddenForCapture,
{
}

} // verus!
