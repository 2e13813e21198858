use cliche::settings::SettingsRead;
use cliche::shortcut::{
    capture_entry, capture_offer, never_offered, plugin_failure, registration_failure, registration_outcome, report_due,
    startup_offer, ShortcutStatus, RUNS_PER_REPORT,
};
use cliche::shortcuts::{parse, MOD_CONTROL, MOD_SHIFT};

#[test]
fn the_announced_shortcut_is_what_the_plugin_parser_actually_accepts() {
    let entry = capture_entry().expect("the registry must hold the capture entry");
    let shortcut = parse(entry.accelerator).expect("the capture shortcut must parse");

    assert_eq!(shortcut.key, "Digit2");
    assert_eq!(
        shortcut.mods,
        MOD_CONTROL | MOD_SHIFT,
        "Ctrl and Shift, and nothing else: an extra modifier would be a different combination"
    );
}

#[test]
fn shortcut_the_parser_rejects_nonsense_so_the_test_above_is_not_vacuous() {
    assert!(parse("Ctrl+Shift+NotAKey").is_err());
    assert!(parse("").is_err());
}

#[test]
fn the_report_is_due_every_twenty_runs_and_never_before() {
    assert!(!report_due(0), "no run at all is not a completed batch");
    assert!(!report_due(1));
    assert!(!report_due(RUNS_PER_REPORT - 1));
    assert!(report_due(RUNS_PER_REPORT));
    assert!(!report_due(RUNS_PER_REPORT + 1));
    assert!(report_due(RUNS_PER_REPORT * 2), "a measuring session does not stop at the first batch");
}

#[test]
fn a_batch_is_twenty_runs_because_a_ten_run_p95_is_only_the_maximum() {
    assert_eq!(RUNS_PER_REPORT, 20);
}

#[test]
fn a_refused_shortcut_names_the_combination_and_the_reason() {
    let entry = capture_entry().expect("the registry must hold the capture entry");
    let message = ShortcutStatus::RefusedBySystem {
        accelerator: entry.accelerator.to_owned(),
        reason: "HotKey already registered".to_owned(),
    }
    .terminal_line()
    .expect("a refusal by the system has something to say");

    assert!(message.contains(entry.accelerator), "{message}");
    assert!(message.contains("HotKey already registered"), "{message}");
    assert!(message.contains("WITHOUT"), "{message}");
}

#[test]
fn an_accepted_shortcut_has_nothing_to_print() {
    assert_eq!(ShortcutStatus::Accepted { accelerator: "Ctrl+Shift+Digit2".to_owned() }.terminal_line(), None);
}

#[test]
fn a_shortcut_that_was_never_offered_does_not_blame_another_program() {
    let message = ShortcutStatus::NotAttempted {
        reason: "the global-shortcut plugin failed to load: no event loop".to_owned(),
    }
    .terminal_line()
    .expect("a shortcut that was never offered has something to say");

    assert!(message.contains("no event loop"), "{message}");
    assert!(message.contains("NEVER OFFERED"), "{message}");
    assert!(message.contains("WITHOUT"), "{message}");
    assert!(!message.contains("another program is most likely"), "{message}");
}

#[test]
fn each_status_crosses_under_its_own_wire_tag() {
    let statuses = [
        ShortcutStatus::Starting,
        ShortcutStatus::Accepted { accelerator: "Ctrl+Shift+Digit2".to_owned() },
        ShortcutStatus::RefusedBySystem { accelerator: "Ctrl+Shift+Digit2".to_owned(), reason: String::new() },
        ShortcutStatus::NotAttempted { reason: String::new() },
    ];
    let tags: Vec<&str> = statuses.iter().map(|status| status.wire_tag()).collect();

    assert_eq!(tags, vec!["starting", "accepted", "refused-by-system", "not-attempted"]);
}

#[test]
fn a_launch_that_is_still_starting_has_nothing_to_print() {
    assert_eq!(ShortcutStatus::Starting.terminal_line(), None);
}

#[test]
fn the_two_failure_lines_are_worded_exactly() {
    assert_eq!(
        registration_failure("Ctrl+Shift+Digit2", "HotKey already registered"),
        "[cliche] shortcut: FAILED to take Ctrl+Shift+Digit2 (HotKey already registered). Cliche is running WITHOUT its capture shortcut - another program is most likely holding that combination."
    );
    assert_eq!(
        never_offered("no event loop"),
        "[cliche] shortcut: the capture shortcut was NEVER OFFERED to the system (no event loop). Cliche is running WITHOUT its capture shortcut - this one is a fault of the application itself, not a combination another program is holding."
    );
}

#[test]
fn the_registry_offer_is_the_capture_row_as_the_parser_reads_it() {
    let (entry, shortcut) = capture_offer().expect("the registry's combination must be offered");

    assert_eq!(entry.id, "capture-region");
    assert_eq!(entry.accelerator, "Ctrl+Shift+Digit2");
    assert_eq!(shortcut.mods, MOD_CONTROL | MOD_SHIFT);
    assert_eq!(shortcut.key, "Digit2");
}

#[test]
fn a_saved_combination_the_application_takes_is_the_one_offered() {
    let (offer, note) = startup_offer(&SettingsRead::Chosen("Ctrl+Alt+KeyQ".to_owned()));
    let offered = offer.expect("a valid saved combination must be offered");

    assert_eq!(offered.accelerator, "Ctrl+Alt+KeyQ");
    assert_eq!(offered.keys, vec!["Ctrl".to_owned(), "Alt".to_owned(), "Q".to_owned()]);
    assert_eq!(note, None);
}

#[test]
fn a_refused_saved_combination_falls_back_to_the_registry_and_says_why() {
    let (offer, note) = startup_offer(&SettingsRead::Chosen("KeyA".to_owned()));
    let offered = offer.expect("the registry's combination must be offered instead");

    assert_eq!(offered.accelerator, "Ctrl+Shift+Digit2");
    assert_eq!(offered.keys, vec!["Ctrl".to_owned(), "Maj".to_owned(), "2".to_owned()]);
    let note = note.expect("a saved combination set aside must be noted");
    assert!(note.starts_with("[cliche] settings: `KeyA` carries no modifier"), "{note}");
}

#[test]
fn a_saved_text_the_parser_refuses_falls_back_to_the_registry_and_says_why() {
    let (offer, note) = startup_offer(&SettingsRead::Chosen("Ctrl+Shift+NotAKey".to_owned()));

    assert_eq!(offer.expect("the registry's combination must be offered instead").accelerator, "Ctrl+Shift+Digit2");
    let note = note.expect("a saved combination set aside must be noted");
    assert!(note.starts_with("[cliche] settings: `Ctrl+Shift+NotAKey` is not a valid shortcut: "), "{note}");
}

#[test]
fn a_first_launch_offers_the_registry_without_a_note() {
    let (offer, note) = startup_offer(&SettingsRead::Absent);

    assert_eq!(offer.expect("the registry's combination must be offered").accelerator, "Ctrl+Shift+Digit2");
    assert_eq!(note, None);
}

#[test]
fn an_unusable_settings_file_falls_back_to_the_registry_and_is_noted() {
    let (offer, note) =
        startup_offer(&SettingsRead::Unusable("/tmp/settings.json is unusable: no `captureShortcut` key".to_owned()));

    assert_eq!(offer.expect("the registry's combination must be offered").accelerator, "Ctrl+Shift+Digit2");
    assert_eq!(
        note.as_deref(),
        Some("[cliche] settings: /tmp/settings.json is unusable: no `captureShortcut` key")
    );
}

#[test]
fn a_plugin_that_did_not_load_means_the_combination_was_never_offered() {
    assert_eq!(
        plugin_failure("no event loop"),
        ShortcutStatus::NotAttempted { reason: "the global-shortcut plugin failed to load: no event loop".to_owned() }
    );
}

#[test]
fn the_system_answer_decides_between_accepted_and_refused() {
    assert_eq!(
        registration_outcome("Ctrl+Shift+Digit2", Ok(())),
        ShortcutStatus::Accepted { accelerator: "Ctrl+Shift+Digit2".to_owned() }
    );
    assert_eq!(
        registration_outcome("Ctrl+Shift+Digit2", Err("HotKey already registered".to_owned())),
        ShortcutStatus::RefusedBySystem {
            accelerator: "Ctrl+Shift+Digit2".to_owned(),
            reason: "HotKey already registered".to_owned(),
        }
    );
}
