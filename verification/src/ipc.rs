//! Which window is allowed to call which command.
//!
//! The rule is an exact comparison of window labels, and a refusal names the
//! command, the window it belongs to and the window that called, so that it
//! can be acted on.
use vstd::prelude::*;
use vstd::string::*;
use crate::text::same_text;

pub use crate::lifecycle::MAIN_WINDOW_LABEL;

verus! {

/// The line a refused call produces.
pub open spec fn wrong_window_text(command: Seq<char>, expected: Seq<char>, actual: Seq<char>) -> Seq<char> {
    "`"@ + command + "` is served to the `"@ + expected + "` window only; this call came from `"@ + actual
        + "` and was REFUSED"@
}

/// The line a refused call produces: the command, the window that is allowed
/// and the window that called.
pub fn wrong_window_line(command: &str, expected: &str, actual: &str) -> (line: String)
    ensures
        line@ == wrong_window_text(command@, expected@, actual@),
{
    let mut line = String::from_str("`");
    line.append(command);
    line.append("` is served to the `");
    line.append(expected);
    line.append("` window only; this call came from `");
    line.append(actual);
    line.append("` and was REFUSED");
    line
}

/// Whether a webview may call a command reserved to `expected`: the labels
/// are the same characters, with no prefix match and no case folding.
pub fn is_from(actual: &str, expected: &str) -> (allowed: bool)
    ensures
        allowed == (actual@ == expected@),
{
    same_text(actual, expected)
}

/// Refuses a command that did not come from the window it belongs to.
pub fn ensure_from(actual: &str, expected: &str, command: &str) -> (checked: Result<(), String>)
    ensures
        match checked {
            Ok(()) => actual@ == expected@,
            Err(line) => actual@ != expected@ && line@ == wrong_window_text(command@, expected@, actual@),
        },
{
    if is_from(actual, expected) {
        Ok(())
    } else {
        Err(wrong_window_line(command, expected, actual))
    }
}

} // verus!
