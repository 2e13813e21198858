use cliche::ipc::{ensure_from, is_from, wrong_window_line, MAIN_WINDOW_LABEL};
use cliche::veil::VEIL_WINDOW_LABEL;

#[test]
fn the_two_window_labels_are_the_ones_the_application_actually_creates() {
    assert_eq!(MAIN_WINDOW_LABEL, "main");
    assert_eq!(VEIL_WINDOW_LABEL, "veil");
    assert_ne!(MAIN_WINDOW_LABEL, VEIL_WINDOW_LABEL, "two windows sharing a label would make this guard a no-op");
}

#[test]
fn the_veil_commands_refuse_the_main_window() {
    for command in ["veil_painted", "veil_selected", "veil_dismissed", "veil_decoded", "veil_ready"] {
        let refusal = ensure_from(MAIN_WINDOW_LABEL, VEIL_WINDOW_LABEL, command)
            .expect_err("a call from `main` to a veil command must be refused");

        assert!(refusal.contains(command), "{refusal}");
        assert!(refusal.contains("main"), "{refusal}");
        assert!(refusal.contains("veil"), "{refusal}");
        assert!(
            refusal.contains("REFUSED"),
            "the line must say the call did not happen, not merely that it was unusual: {refusal}"
        );
    }
}

#[test]
fn the_window_a_command_belongs_to_is_accepted() {
    assert!(ensure_from(VEIL_WINDOW_LABEL, VEIL_WINDOW_LABEL, "veil_painted").is_ok());
    assert!(ensure_from(MAIN_WINDOW_LABEL, MAIN_WINDOW_LABEL, "describe_displays").is_ok());
}

#[test]
fn a_label_is_matched_exactly_and_never_loosely() {
    for impostor in ["veil2", "Veil", "veil ", " veil", "veil-decoy", ""] {
        assert!(!is_from(impostor, VEIL_WINDOW_LABEL), "`{impostor}` must not pass for the veil window");
    }
}

#[test]
fn a_refusal_names_the_command_and_both_windows_in_one_sentence() {
    assert_eq!(
        wrong_window_line("veil_selected", "veil", "main"),
        "`veil_selected` is served to the `veil` window only; this call came from `main` and was REFUSED"
    );
}
