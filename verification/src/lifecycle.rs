//! When Cliché ends, and which window a second launch brings back.
//!
//! Two rules: closing the main window ends the application (the hidden veil
//! is no reason to stay alive), and a second launch hands the screen back to
//! the first process, whose main window is brought in front of the user.
use vstd::prelude::*;
use vstd::string::*;
use crate::timing::texts;

verus! {

/// Label of the main window, as the application's configuration declares it.
pub const MAIN_WINDOW_LABEL: &'static str = "main";

/// Whether closing the window with this label must end the application: an
/// exact comparison with the main window's label.
pub fn closing_ends_the_application(label: &str) -> (ends: bool)
    ensures
        ends == (label@ == MAIN_WINDOW_LABEL@),
{
    crate::text::same_text(label, MAIN_WINDOW_LABEL)
}

/// The window a second launch brings back in front of the user.
pub fn window_a_second_instance_raises() -> (label: &'static str)
    ensures
        label@ == MAIN_WINDOW_LABEL@,
{
    MAIN_WINDOW_LABEL
}

/// The line one failed step of a raise produces.
pub open spec fn raise_failure_text(step: Seq<char>, reason: Seq<char>) -> Seq<char> {
    "[cliche] lifecycle: a second launch could not "@ + step + " ("@ + reason + "); the `"@
        + MAIN_WINDOW_LABEL@ + "` window may still be out of sight"@
}

/// The line one failed step of a raise produces: which step, and what the
/// runtime answered.
pub fn raise_failure(step: &str, reason: &str) -> (line: String)
    ensures
        line@ == raise_failure_text(step@, reason@),
{
    let mut line = String::from_str("[cliche] lifecycle: a second launch could not ");
    line.append(step);
    line.append(" (");
    line.append(reason);
    line.append("); the `");
    line.append(MAIN_WINDOW_LABEL);
    line.append("` window may still be out of sight");
    line
}

/// One call made on a window during a raise, with what the window answered.
pub enum FrontCall {
    IsMinimized(Result<bool, String>),
    Unminimize(Result<(), String>),
    Show(Result<(), String>),
    SetFocus(Result<(), String>),
}

/// What bringing a window back in front of the user is made of. Implemented
/// for the real window by the application, and by a recording window in tests.
/// An implementation that keeps a record of its calls says so with
/// `keeps_record`, and each of its methods then adds itself, with its answer,
/// at the end of `calls`.
pub trait Front {
    /// Whether this implementation keeps the record of `calls`. Those the
    /// verifier does not read keep none, and promise nothing of it.
    open spec fn keeps_record() -> bool {
        false
    }

    /// Every call made on this window so far, oldest first, with its answer,
    /// for an implementation that keeps the record.
    open spec fn calls(&self) -> Seq<FrontCall> {
        Seq::empty()
    }

    /// Whether the window is minimised right now.
    fn is_minimized(&mut self) -> (answer: Result<bool, String>)
        ensures
            Self::keeps_record() ==> final(self).calls() == old(self).calls().push(FrontCall::IsMinimized(answer)),
    ;

    /// Takes the window out of the taskbar and back onto the screen.
    fn unminimize(&mut self) -> (answer: Result<(), String>)
        ensures
            Self::keeps_record() ==> final(self).calls() == old(self).calls().push(FrontCall::Unminimize(answer)),
    ;

    /// Makes a hidden window visible.
    fn show(&mut self) -> (answer: Result<(), String>)
        ensures
            Self::keeps_record() ==> final(self).calls() == old(self).calls().push(FrontCall::Show(answer)),
    ;

    /// Gives the window the keyboard focus.
    fn set_focus(&mut self) -> (answer: Result<(), String>)
        ensures
            Self::keeps_record() ==> final(self).calls() == old(self).calls().push(FrontCall::SetFocus(answer)),
    ;
}

/// Whether a window that answered `minimized` is taken out of the taskbar: an
/// answer that could not be had counts as yes.
pub open spec fn needs_unminimize(minimized: Result<bool, String>) -> bool {
    match minimized {
        Ok(answer) => answer,
        Err(_) => true,
    }
}

/// The step names that the failure lines carry, in the order of the steps.
pub open spec fn asked_text() -> Seq<char> {
    "find out whether the window was minimised"@
}

pub open spec fn unminimize_text() -> Seq<char> {
    "take the window out of the taskbar"@
}

pub open spec fn show_text() -> Seq<char> {
    "make the window visible"@
}

pub open spec fn focus_text() -> Seq<char> {
    "give the window the focus"@
}

/// One failure line for a step that was refused, none otherwise.
pub open spec fn failure_of(step: Seq<char>, answer: Option<Seq<char>>) -> Seq<Seq<char>> {
    match answer {
        Some(reason) => seq![raise_failure_text(step, reason)],
        None => Seq::empty(),
    }
}

/// The reason of a refusal, if the answer is one.
pub open spec fn refusal<T>(answer: Result<T, String>) -> Option<Seq<char>> {
    match answer {
        Ok(_) => None,
        Err(reason) => Some(reason@),
    }
}

/// The failure lines of a raise, given what each step answered; the second
/// step is `None` when it was not attempted.
pub open spec fn raise_lines(
    minimized: Result<bool, String>,
    unminimized: Option<Result<(), String>>,
    shown: Result<(), String>,
    focused: Result<(), String>,
) -> Seq<Seq<char>> {
    failure_of(asked_text(), refusal(minimized)) + failure_of(
        unminimize_text(),
        match unminimized {
            Some(answer) => refusal(answer),
            None => None,
        },
    ) + failure_of(show_text(), refusal(shown)) + failure_of(focus_text(), refusal(focused))
}

/// Appends the failure line of a step, if it was refused.
fn push_failure<T>(lines: &mut Vec<String>, step: &str, answer: &Result<T, String>)
    ensures
        texts(final(lines)@) == texts(old(lines)@) + failure_of(step@, refusal(*answer)),
{
    let ghost before = lines@;
    match answer {
        Ok(_) => {
            assert(texts(lines@) =~= texts(before) + failure_of(step@, refusal(*answer)));
        },
        Err(reason) => {
            lines.push(raise_failure(step, reason.as_str()));
            assert(texts(lines@) =~= texts(before) + failure_of(step@, refusal(*answer)));
        },
    }
}

/// The failure lines of a raise, given what each step answered, in the order
/// the steps were attempted.
pub fn raise_report(
    minimized: &Result<bool, String>,
    unminimized: &Option<Result<(), String>>,
    shown: &Result<(), String>,
    focused: &Result<(), String>,
) -> (lines: Vec<String>)
    ensures
        texts(lines@) == raise_lines(*minimized, *unminimized, *shown, *focused),
{
    let mut lines: Vec<String> = Vec::new();
    assert(texts(lines@) =~= Seq::<Seq<char>>::empty());
    push_failure(&mut lines, "find out whether the window was minimised", minimized);
    let ghost after_first = texts(lines@);
    match unminimized {
        Some(answer) => push_failure(&mut lines, "take the window out of the taskbar", answer),
        None => {
            assert(texts(lines@) =~= after_first + Seq::<Seq<char>>::empty());
        },
    }
    push_failure(&mut lines, "make the window visible", shown);
    push_failure(&mut lines, "give the window the focus", focused);
    assert(texts(lines@) =~= raise_lines(*minimized, *unminimized, *shown, *focused));
    lines
}

/// The calls a raise makes, given what each step answered; the second step is
/// `None` when it was not attempted.
pub open spec fn raise_calls(
    minimized: Result<bool, String>,
    unminimized: Option<Result<(), String>>,
    shown: Result<(), String>,
    focused: Result<(), String>,
) -> Seq<FrontCall> {
    seq![FrontCall::IsMinimized(minimized)] + match unminimized {
        Some(answer) => seq![FrontCall::Unminimize(answer)],
        None => Seq::empty(),
    } + seq![FrontCall::Show(shown), FrontCall::SetFocus(focused)]
}

/// Brings a window back in front of the user, and says what did not go
/// through. Minimised is asked first, and the window is taken out of the
/// taskbar only when the answer is yes or could not be had; then it is shown,
/// then focused. Every step is attempted whatever the ones before it
/// answered, each once; one line per refused step comes back, in order.
pub fn bring_to_front<W: Front>(window: &mut W) -> (failures: Vec<String>)
    ensures
        exists|
            minimized: Result<bool, String>,
            unminimized: Option<Result<(), String>>,
            shown: Result<(), String>,
            focused: Result<(), String>,
        |
            #![trigger raise_calls(minimized, unminimized, shown, focused)]
            {
                &&& W::keeps_record() ==> final(window).calls() == old(window).calls() + raise_calls(
                    minimized,
                    unminimized,
                    shown,
                    focused,
                )
                &&& unminimized is Some <==> needs_unminimize(minimized)
                &&& texts(failures@) == raise_lines(minimized, unminimized, shown, focused)
            },
{
    let ghost before = window.calls();
    let minimized = window.is_minimized();
    let wanted = match &minimized {
        Ok(answer) => *answer,
        Err(_) => true,
    };
    let unminimized = if wanted {
        Some(window.unminimize())
    } else {
        None
    };
    let shown = window.show();
    let focused = window.set_focus();
    let failures = raise_report(&minimized, &unminimized, &shown, &focused);
    let ghost made = raise_calls(minimized, unminimized, shown, focused);
    assert(W::keeps_record() ==> window.calls() =~= before + made);
    assert(unminimized is Some <==> needs_unminimize(minimized));
    failures
}

} // verus!
