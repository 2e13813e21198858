use cliche::ipc;
use cliche::shortcut::ShortcutStatus;
use cliche::shortcuts::{
    accept, accept_parsed, cap, entry, parse, registry, rows, status_answer, Shortcut, ShortcutCategory, CAPTURE_REGION,
    MOD_ALT, MOD_CONTROL, MOD_SHIFT, MOD_SUPER,
};
use std::collections::HashSet;

fn expected_label(name: &str) -> Option<String> {
    for prefix in ["Digit", "Key"] {
        if let Some(rest) = name.strip_prefix(prefix) {
            let mut characters = rest.chars();
            return match (characters.next(), characters.next()) {
                (Some(single), None) if single.is_ascii_alphanumeric() => Some(single.to_string()),
                _ => None,
            };
        }
    }

    let is_function_key =
        name.starts_with('F') && name.len() > 1 && name[1..].chars().all(|character| character.is_ascii_digit());

    match name {
        "Escape" => Some("Échap".to_owned()),
        _ if is_function_key => Some(name.to_owned()),
        _ => None,
    }
}

fn expected_keys(shortcut: &Shortcut) -> Option<Vec<String>> {
    let mut keys = Vec::new();

    for (modifier, label) in [(MOD_CONTROL, "Ctrl"), (MOD_SHIFT, "Maj"), (MOD_ALT, "Alt"), (MOD_SUPER, "Windows")] {
        if shortcut.mods & modifier != 0 {
            keys.push(label.to_owned());
        }
    }

    keys.push(expected_label(&shortcut.key)?);
    Some(keys)
}

#[test]
fn the_registry_is_not_empty_so_the_tests_below_assert_something() {
    assert!(!registry().is_empty(), "an empty registry makes every assertion in this file vacuous");
    assert!(entry(CAPTURE_REGION).is_some(), "`{CAPTURE_REGION}` is the entry the shortcut binds");
}

#[test]
fn no_two_entries_claim_the_same_combination() {
    let mut seen = HashSet::new();

    for candidate in registry() {
        let shortcut = parse(candidate.accelerator).expect("every entry must parse");

        assert!(
            seen.insert((shortcut.mods, shortcut.key)),
            "`{}` (`{}`) claims a combination another entry already holds",
            candidate.id,
            candidate.accelerator
        );
    }
}

#[test]
fn no_two_entries_share_an_identifier() {
    let mut seen = HashSet::new();

    for candidate in registry() {
        assert!(seen.insert(candidate.id), "`{}` is used by two entries", candidate.id);
    }
}

#[test]
fn every_combination_parses_with_the_plugins_real_parser() {
    for candidate in registry() {
        if let Err(reason) = parse(candidate.accelerator) {
            panic!("`{}` does not parse: {reason}", candidate.id);
        }
    }
}

#[test]
fn shortcuts_the_parser_rejects_nonsense_so_the_test_above_is_not_vacuous() {
    for nonsense in ["Ctrl+Shift+NotAKey", "", "Ctrl+Shift", "Ctrl++Digit2"] {
        assert!(parse(nonsense).is_err(), "`{nonsense}` was accepted by the parser");
    }
}

#[test]
fn the_displayed_keys_are_the_combination_that_is_actually_registered() {
    for candidate in registry() {
        let shortcut = parse(candidate.accelerator).expect("every entry must parse");

        let expected = expected_keys(&shortcut).unwrap_or_else(|| {
            panic!("the checker in this test file has no label for `{}`, used by `{}`", shortcut.key, candidate.id)
        });

        let drawn: Vec<String> = candidate.keys.iter().map(|key| (*key).to_owned()).collect();

        assert_eq!(drawn, expected, "`{}` draws {:?} but registers `{}`", candidate.id, candidate.keys, candidate.accelerator);
    }
}

#[test]
fn the_checker_refuses_a_key_it_was_never_taught() {
    assert!(expected_label("MediaPlayPause").is_none());
    assert_eq!(expected_label("Digit2").as_deref(), Some("2"));
    assert_eq!(expected_label("KeyA").as_deref(), Some("A"));
}

#[test]
fn the_registry_holds_only_shortcuts_something_binds() {
    assert_eq!(registry().len(), 1, "the registry grew past what the shortcut binds");
}

#[test]
fn the_derived_caps_agree_with_the_hand_written_registry_row() {
    for candidate in registry() {
        let derived =
            accept(candidate.accelerator).unwrap_or_else(|reason| panic!("`{}` must be acceptable: {reason}", candidate.id));

        assert_eq!(derived.keys, candidate.keys, "`{}` is drawn {:?} by hand and {:?} by `accept`", candidate.id, candidate.keys, derived.keys);
    }
}

#[test]
fn an_accepted_combination_is_canonical_and_parses_back() {
    for (typed, canonical) in [
        ("Shift+Ctrl+Digit2", "Ctrl+Shift+Digit2"),
        ("ctrl+shift+KeyA", "Ctrl+Shift+KeyA"),
        ("Alt+Ctrl+F5", "Ctrl+Alt+F5"),
    ] {
        let accepted = accept(typed).unwrap_or_else(|reason| panic!("`{typed}`: {reason}"));

        assert_eq!(accepted.accelerator, canonical, "`{typed}` was not brought to the one spelling this application stores");
        assert!(parse(&accepted.accelerator).is_ok());
        assert_eq!(
            accept(&accepted.accelerator).map(|again| again.accelerator),
            Ok(accepted.accelerator.clone()),
            "a canonical accelerator must survive a second pass unchanged"
        );
    }
}

#[test]
fn a_canonical_accelerator_can_be_written_to_the_settings_file_unescaped() {
    for typed in ["Ctrl+Shift+Digit2", "Ctrl+Alt+Shift+Super+F12", "Ctrl+KeyZ"] {
        let accepted = accept(typed).unwrap_or_else(|reason| panic!("`{typed}`: {reason}"));

        assert!(
            accepted.accelerator.chars().all(|character| character.is_ascii_alphanumeric() || character == '+'),
            "`{}` holds something the settings writer would refuse",
            accepted.accelerator
        );
        assert!(cliche::settings::render(&accepted.accelerator).is_ok());
    }
}

#[test]
fn a_combination_with_no_modifier_is_refused() {
    for bare in ["Digit2", "KeyA", "F5", "Escape"] {
        let refusal = accept(bare).expect_err("a combination with no modifier must never reach the operating system");

        assert!(refusal.contains(bare), "the refusal names no combination: {refusal}");
        assert!(refusal.contains("modifier"), "the refusal must say WHAT is missing: {refusal}");
    }
}

#[test]
fn a_key_with_no_cap_is_refused_rather_than_drawn_under_an_invented_name() {
    let refusal = accept("Ctrl+Shift+MediaPlayPause").expect_err("a key this application cannot draw must not be registered");

    assert!(refusal.contains("MediaPlayPause"), "{refusal}");
}

#[test]
fn nonsense_never_reaches_the_operating_system() {
    for nonsense in ["", "Ctrl+", "Ctrl+Shift", "NotAKey", "Ctrl+Shift+NotAKey"] {
        assert!(accept(nonsense).is_err(), "`{nonsense}` was accepted as a combination");
    }
    for real in ["Ctrl+Shift+Digit2", "Ctrl+Alt+KeyQ", "Ctrl+Shift+F1"] {
        assert!(accept(real).is_ok(), "`{real}` was refused");
    }
}

#[test]
fn the_published_table_names_the_combination_that_was_offered() {
    let chosen = accept("Ctrl+Alt+KeyQ").expect("the combination under test must be valid");
    let published = rows(Some(&chosen));

    let capture = published.iter().find(|row| row.id == CAPTURE_REGION).expect("the capture row must survive");

    assert_eq!(capture.accelerator, chosen.accelerator);
    assert_eq!(capture.keys, chosen.keys);
    assert_eq!(published.len(), registry().len(), "the substitution dropped or invented a row");

    let entry = entry(CAPTURE_REGION).expect("the registry must hold the capture entry");
    assert_eq!(capture.description_key, entry.description_key);
    assert_eq!(capture.category, entry.category);
}

#[test]
fn the_veil_window_cannot_rebind_the_capture_shortcut() {
    let refusal = ipc::ensure_from(cliche::veil::VEIL_WINDOW_LABEL, ipc::MAIN_WINDOW_LABEL, "set_capture_shortcut")
        .expect_err("the veil must not be able to rebind the shortcut that raised it");

    assert!(refusal.contains("set_capture_shortcut"), "{refusal}");
    assert!(refusal.contains(cliche::veil::VEIL_WINDOW_LABEL), "{refusal}");
    assert!(refusal.contains(ipc::MAIN_WINDOW_LABEL), "{refusal}");
    assert!(refusal.contains("REFUSED"), "{refusal}");
    assert!(ipc::ensure_from(ipc::MAIN_WINDOW_LABEL, ipc::MAIN_WINDOW_LABEL, "set_capture_shortcut").is_ok());
}

#[test]
fn an_undecided_status_is_answered_and_not_refused() {
    let combination = accept("Ctrl+Shift+Digit2").expect("the capture combination is valid");

    for status in [
        ShortcutStatus::Starting,
        ShortcutStatus::Accepted { accelerator: combination.accelerator.clone() },
        ShortcutStatus::RefusedBySystem {
            accelerator: combination.accelerator,
            reason: "HotKey already registered".to_owned(),
        },
        ShortcutStatus::NotAttempted { reason: "the global-shortcut plugin failed to load".to_owned() },
    ] {
        assert_eq!(status_answer(Some(status.clone())), Ok(status.clone()), "{status:?} is managed and was refused or changed");
    }
}

#[test]
fn a_status_that_is_not_managed_at_all_is_still_an_error_and_no_longer_blames_a_race() {
    let refusal = status_answer(None).expect_err("a status nothing manages must not pass for a status");

    assert!(refusal.contains("never ran"), "{refusal}");
    assert!(refusal.contains("src-tauri/src/lib.rs"), "{refusal}");
    assert!(refusal.to_lowercase().contains("first instruction"), "{refusal}");
}

#[test]
fn a_launch_that_offered_nothing_publishes_the_registrys_own_row() {
    let published = rows(None);
    let capture = published.iter().find(|row| row.id == CAPTURE_REGION).expect("the capture row must exist");
    let entry = entry(CAPTURE_REGION).expect("the registry must hold the capture entry");

    assert_eq!(capture.accelerator, entry.accelerator);
    assert_eq!(capture.keys, entry.keys);
}

#[test]
fn the_caps_of_the_four_key_families() {
    assert_eq!(cap("Digit2").as_deref(), Some("2"));
    assert_eq!(cap("KeyQ").as_deref(), Some("Q"));
    assert_eq!(cap("F12").as_deref(), Some("F12"));
    assert_eq!(cap("Escape").as_deref(), Some("Échap"));
    assert_eq!(cap("Digit"), None);
    assert_eq!(cap("KeyAB"), None);
    assert_eq!(cap("F"), None);
    assert_eq!(cap("F1a"), None);
    assert_eq!(cap("MediaPlayPause"), None);
}

#[test]
fn a_reading_with_a_modifier_nobody_draws_is_refused() {
    let odd = Shortcut { mods: MOD_CONTROL | 0x40, key: "KeyA".to_owned() };

    assert_eq!(
        accept_parsed("Ctrl+Meta+KeyA", &odd).unwrap_err(),
        "`Ctrl+Meta+KeyA` carries a modifier this application does not draw, so it would be registered and never shown"
    );
}

#[test]
fn every_drawn_modifier_comes_in_the_published_order() {
    let all = accept("Super+Alt+Shift+Ctrl+KeyW").expect("four modifiers and a letter");

    assert_eq!(all.accelerator, "Ctrl+Shift+Alt+Super+KeyW");
    assert_eq!(all.keys, vec!["Ctrl", "Maj", "Alt", "Windows", "W"]);
}

#[test]
fn the_registry_row_is_the_capture_row() {
    let row = entry(CAPTURE_REGION).expect("the capture entry");

    assert_eq!(row.accelerator, "Ctrl+Shift+Digit2");
    assert_eq!(row.keys, vec!["Ctrl", "Maj", "2"]);
    assert_eq!(row.description_key, "captureRegion");
    assert_eq!(row.category, ShortcutCategory::Capture);
    assert!(entry("capture").is_none());
}
