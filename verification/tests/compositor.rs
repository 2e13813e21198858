use cliche::compositor::{remaining_wait, Settled, Silencing};

const FLOOR: u64 = 120_000_000;

#[test]
fn presentations_that_cost_nothing_leave_the_whole_floor_to_sleep() {
    assert_eq!(remaining_wait(0, FLOOR), FLOOR);
}

#[test]
fn presentations_that_cost_half_the_floor_leave_the_other_half() {
    assert_eq!(remaining_wait(FLOOR / 2, FLOOR), FLOOR / 2);
}

#[test]
fn presentations_that_outlast_the_floor_are_not_slept_on_top_of() {
    assert_eq!(remaining_wait(FLOOR * 2, FLOOR), 0);
}

#[test]
fn the_presentations_and_the_sleep_together_come_to_the_floor_and_never_more() {
    for spent_ms in [0u64, 1, 8, 16, 40, 60, 119, 120] {
        let spent = spent_ms * 1_000_000;
        let slept = remaining_wait(spent, FLOOR);

        assert_eq!(spent + slept, FLOOR, "{spent} ns spent then {slept} ns asleep does not land on the floor");
        assert!(slept <= FLOOR);
    }

    for spent_ms in [121u64, 200, 5_000] {
        assert_eq!(remaining_wait(spent_ms * 1_000_000, FLOOR), 0);
    }
}

#[test]
fn every_outcome_says_what_happened_and_which_window_it_happened_to() {
    let outcomes = [
        Silencing::Applied,
        Silencing::Refused("DWM_E_COMPOSITIONDISABLED".to_owned()),
        Silencing::NoEngineHere,
        Silencing::WindowMissing,
    ];

    let mut lines = Vec::new();

    for outcome in &outcomes {
        let line = outcome.terminal_line("main");

        assert!(line.starts_with("[cliche] compositor: "), "{line}");
        assert!(line.contains("`main`"), "{outcome:?} does not name the window it is about: {line}");

        lines.push(line);
    }

    for (index, line) in lines.iter().enumerate() {
        assert!(!lines[index + 1..].contains(line), "two different outcomes print the same line: {line}");
    }
}

#[test]
fn a_refusal_carries_the_reason_and_reads_as_a_refusal() {
    let line = Silencing::Refused("DWM_E_COMPOSITIONDISABLED".to_owned()).terminal_line("main");

    assert!(line.contains("DWM_E_COMPOSITIONDISABLED"), "{line}");
    assert!(line.contains("NOT"), "{line}");
}

#[test]
fn a_capture_that_hid_nothing_waited_for_nothing() {
    let nothing = Settled::nothing();

    assert_eq!((nothing.presented, nothing.slept), (0, 0));
}

#[test]
fn the_applied_line_is_exact() {
    assert_eq!(
        Silencing::Applied.terminal_line("main"),
        "[cliche] compositor: system transitions are OFF for the `main` window, so hiding it before a capture takes effect in one step instead of a fade"
    );
}
