//! The global shortcut that starts a capture: which registry entry it binds,
//! what the operating system answered about it, and what the terminal is told.
//!
//! The binding itself happens in the application, on the plugin's hotkey
//! thread; nothing here may panic, and every failure is turned into a line.
use vstd::prelude::*;
use vstd::string::*;
use crate::settings::SettingsRead;
use crate::shortcuts::{
    accept, acceptance, entry, hotkey_reading, is_capture_row, parse, parse_failure_text, Combination, Shortcut,
    ShortcutEntry, CAPTURE_REGION,
};
use crate::timing::texts;

verus! {

/// How many finished runs before the report prints itself. 20 and not 10: on
/// 10 samples the nearest-rank p95 is the maximum.
pub const RUNS_PER_REPORT: usize = 20;

/// The one registry entry this module binds, looked up by id rather than by
/// position. The registry holds it, so the lookup always finds it; the error
/// is what a registry without it would answer.
pub fn capture_entry() -> (found: Result<ShortcutEntry, String>)
    ensures
        found matches Ok(e) && is_capture_row(e),
{
    match entry(CAPTURE_REGION) {
        Some(e) => Ok(e),
        None => Err(
            String::from_str(
                "[cliche] shortcut: the registry has no `capture-region` entry, so NOTHING starts a capture. This is a programming error in src-tauri/src/shortcuts.rs, not a machine problem.",
            ),
        ),
    }
}

/// Whether the run just filed completes a batch worth reporting on.
pub fn report_due(run_number: usize) -> (due: bool)
    ensures
        due == (run_number > 0 && run_number % RUNS_PER_REPORT == 0),
{
    run_number > 0 && run_number % RUNS_PER_REPORT == 0
}

/// What this application knows about its capture shortcut.
#[derive(Debug, Clone, PartialEq, Eq)]
pub enum ShortcutStatus {
    /// Nothing has been decided yet: the application is still starting.
    Starting,
    /// The operating system took the combination. The shortcut works.
    Accepted { accelerator: String },
    /// The operating system refused the combination, with the reason it gave.
    RefusedBySystem { accelerator: String, reason: String },
    /// The combination was never offered to the operating system, and why.
    NotAttempted { reason: String },
}

/// The line printed when the operating system refused the combination.
pub open spec fn registration_failure_text(accelerator: Seq<char>, reason: Seq<char>) -> Seq<char> {
    "[cliche] shortcut: FAILED to take "@ + accelerator + " ("@ + reason
        + "). Cliche is running WITHOUT its capture shortcut - another program is most likely holding that combination."@
}

/// The line printed when the combination was never offered at all.
pub open spec fn never_offered_text(reason: Seq<char>) -> Seq<char> {
    "[cliche] shortcut: the capture shortcut was NEVER OFFERED to the system ("@ + reason
        + "). Cliche is running WITHOUT its capture shortcut - this one is a fault of the application itself, not a combination another program is holding."@
}

/// The line the terminal gets for a status, or none.
pub open spec fn status_line(status: ShortcutStatus) -> Option<Seq<char>> {
    match status {
        ShortcutStatus::Starting => None,
        ShortcutStatus::Accepted { .. } => None,
        ShortcutStatus::RefusedBySystem { accelerator, reason } => Some(
            registration_failure_text(accelerator@, reason@),
        ),
        ShortcutStatus::NotAttempted { reason } => Some(never_offered_text(reason@)),
    }
}

/// The line printed when the operating system refused the combination,
/// naming it and the reason given.
pub fn registration_failure(accelerator: &str, reason: &str) -> (line: String)
    ensures
        line@ == registration_failure_text(accelerator@, reason@),
{
    let mut line = String::from_str("[cliche] shortcut: FAILED to take ");
    line.append(accelerator);
    line.append(" (");
    line.append(reason);
    line.append(
        "). Cliche is running WITHOUT its capture shortcut - another program is most likely holding that combination.",
    );
    line
}

/// The line printed when the combination was never offered at all: a fault of
/// this application, which blames no other program.
pub fn never_offered(reason: &str) -> (line: String)
    ensures
        line@ == never_offered_text(reason@),
{
    let mut line = String::from_str("[cliche] shortcut: the capture shortcut was NEVER OFFERED to the system (");
    line.append(reason);
    line.append(
        "). Cliche is running WITHOUT its capture shortcut - this one is a fault of the application itself, not a combination another program is holding.",
    );
    line
}

impl ShortcutStatus {
    /// The line the terminal gets, or `None` when there is nothing to report.
    pub fn terminal_line(&self) -> (line: Option<String>)
        ensures
            match line {
                Some(text) => status_line(*self) == Some(text@),
                None => status_line(*self) is None,
            },
    {
        match self {
            ShortcutStatus::Starting => None,
            ShortcutStatus::Accepted { .. } => None,
            ShortcutStatus::RefusedBySystem { accelerator, reason } => Some(
                registration_failure(accelerator.as_str(), reason.as_str()),
            ),
            ShortcutStatus::NotAttempted { reason } => Some(never_offered(reason.as_str())),
        }
    }

    /// The tag this status crosses to the frontend under.
    pub fn wire_tag(&self) -> (tag: &'static str)
        ensures
            tag@ == match *self {
                ShortcutStatus::Starting => "starting"@,
                ShortcutStatus::Accepted { .. } => "accepted"@,
                ShortcutStatus::RefusedBySystem { .. } => "refused-by-system"@,
                ShortcutStatus::NotAttempted { .. } => "not-attempted"@,
            },
    {
        match self {
            ShortcutStatus::Starting => "starting",
            ShortcutStatus::Accepted { .. } => "accepted",
            ShortcutStatus::RefusedBySystem { .. } => "refused-by-system",
            ShortcutStatus::NotAttempted { .. } => "not-attempted",
        }
    }
}

/// The registry's combination, in the parser's syntax.
pub open spec fn registry_accelerator() -> Seq<char> {
    "Ctrl+Shift+Digit2"@
}

/// What is offered to the operating system from the registry: its capture
/// entry and the combination the parser reads out of it. When the parser
/// refuses it, the combination is never offered, and the status says why.
pub fn capture_offer() -> (offer: Result<(ShortcutEntry, Shortcut), ShortcutStatus>)
    ensures
        match hotkey_reading(registry_accelerator()) {
            Some((mods, key)) => offer matches Ok((e, shortcut)) && is_capture_row(e) && shortcut.mods == mods
                && shortcut.key@ == key,
            None => offer matches Err(ShortcutStatus::NotAttempted { reason }) && (exists|cause: Seq<char>|
                reason@ == parse_failure_text(registry_accelerator(), cause)),
        },
{
    let found = match capture_entry() {
        Ok(found) => found,
        Err(reason) => return Err(ShortcutStatus::NotAttempted { reason }),
    };
    match parse(found.accelerator) {
        Ok(shortcut) => Ok((found, shortcut)),
        Err(reason) => Err(ShortcutStatus::NotAttempted { reason }),
    }
}

/// Whether this application takes `input` as a combination to offer.
pub open spec fn takes(input: Seq<char>) -> bool {
    hotkey_reading(input) matches Some((mods, key)) && acceptance(input, mods, key) is Ok
}

/// Whether `why` is what refusing `input` says: the parser's refusal, whatever
/// its own words, or this application's.
pub open spec fn refused_with(input: Seq<char>, why: Seq<char>) -> bool {
    match hotkey_reading(input) {
        None => exists|cause: Seq<char>| why == parse_failure_text(input, cause),
        Some((mods, key)) => acceptance(input, mods, key) == Err::<(Seq<char>, Seq<Seq<char>>), Seq<char>>(why),
    }
}

/// Whether `offered` is what `input` comes to: the accepted combination, with
/// its canonical spelling and its chips, or a status saying that it was never
/// offered and why.
pub open spec fn offered_from(input: Seq<char>, offered: Result<Combination, ShortcutStatus>) -> bool {
    match offered {
        Ok(c) => hotkey_reading(input) matches Some((mods, key)) && acceptance(input, mods, key) == Ok::<
            (Seq<char>, Seq<Seq<char>>),
            Seq<char>,
        >((c.accelerator@, texts(c.keys@))),
        Err(ShortcutStatus::NotAttempted { reason }) => refused_with(input, reason@),
        Err(_) => false,
    }
}

/// The line that says a settings read was set aside.
pub open spec fn settings_note_text(why: Seq<char>) -> Seq<char> {
    "[cliche] settings: "@ + why
}

/// The registry's combination, as this application accepts it.
fn registry_combination() -> (offered: Result<Combination, ShortcutStatus>)
    ensures
        offered_from(registry_accelerator(), offered),
{
    let found = match capture_offer() {
        Ok((found, _)) => found,
        Err(status) => return Err(status),
    };
    match accept(found.accelerator) {
        Ok(combination) => Ok(combination),
        Err(reason) => Err(ShortcutStatus::NotAttempted { reason }),
    }
}

/// The line that says why a settings read was set aside.
fn settings_note(why: &str) -> (note: String)
    ensures
        note@ == settings_note_text(why@),
{
    let mut note = String::from_str("[cliche] settings: ");
    note.append(why);
    note
}

/// Which combination is offered at startup: the one saved in the settings
/// when this application takes it, the registry's otherwise. A saved
/// combination that is refused, or a settings file that cannot be used, is
/// set aside with a note that says why; a missing file is no reason for one.
pub fn startup_offer(saved: &SettingsRead) -> (chosen: (Result<Combination, ShortcutStatus>, Option<String>))
    ensures
        match *saved {
            SettingsRead::Chosen(text) => if takes(text@) {
                offered_from(text@, chosen.0) && chosen.1 is None
            } else {
                &&& offered_from(registry_accelerator(), chosen.0)
                &&& chosen.1 matches Some(note) && exists|why: Seq<char>|
                    refused_with(text@, why) && note@ == settings_note_text(why)
            },
            SettingsRead::Absent => offered_from(registry_accelerator(), chosen.0) && chosen.1 is None,
            SettingsRead::Unusable(why) => {
                &&& offered_from(registry_accelerator(), chosen.0)
                &&& chosen.1 matches Some(note) && note@ == settings_note_text(why@)
            },
        },
{
    match saved {
        SettingsRead::Chosen(text) => match accept(text.as_str()) {
            Ok(combination) => (Ok(combination), None),
            Err(why) => {
                assert(refused_with(text@, why@));
                (registry_combination(), Some(settings_note(why.as_str())))
            },
        },
        SettingsRead::Absent => (registry_combination(), None),
        SettingsRead::Unusable(why) => (registry_combination(), Some(settings_note(why.as_str()))),
    }
}

/// Why the combination was never offered when the plugin did not load.
pub open spec fn plugin_failure_text(error: Seq<char>) -> Seq<char> {
    "the global-shortcut plugin failed to load: "@ + error
}

/// The status of a plugin that failed to load: the combination was never
/// offered to the system.
pub fn plugin_failure(error: &str) -> (status: ShortcutStatus)
    ensures
        status matches ShortcutStatus::NotAttempted { reason } && reason@ == plugin_failure_text(error@),
{
    let mut reason = String::from_str("the global-shortcut plugin failed to load: ");
    reason.append(error);
    ShortcutStatus::NotAttempted { reason }
}

/// What the operating system's answer to a registration makes of the status:
/// the combination was taken, or refused with the reason given.
pub fn registration_outcome(accelerator: &str, answer: Result<(), String>) -> (status: ShortcutStatus)
    ensures
        match answer {
            Ok(()) => status matches ShortcutStatus::Accepted { accelerator: a } && a@ == accelerator@,
            Err(error) => status matches ShortcutStatus::RefusedBySystem { accelerator: a, reason } && a@
                == accelerator@ && reason@ == error@,
        },
{
    match answer {
        Ok(()) => ShortcutStatus::Accepted { accelerator: String::from_str(accelerator) },
        Err(reason) => ShortcutStatus::RefusedBySystem { accelerator: String::from_str(accelerator), reason },
    }
}

} // verus!
