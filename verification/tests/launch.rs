use cliche::ipc;
use cliche::launch::{should_restore, MainWindow, MainWindowClaim, FRAME_60HZ_NANOS, RECOMPOSE_SETTLE_NANOS};
use cliche::veil::VEIL_WINDOW_LABEL;

#[test]
fn the_veil_window_cannot_start_a_capture() {
    let refusal = ipc::ensure_from(VEIL_WINDOW_LABEL, ipc::MAIN_WINDOW_LABEL, "capture_region")
        .expect_err("the veil must not be able to restart the pipeline it is the result of");

    assert!(refusal.contains("capture_region"), "{refusal}");
    assert!(refusal.contains(VEIL_WINDOW_LABEL), "{refusal}");
    assert!(refusal.contains(ipc::MAIN_WINDOW_LABEL), "{refusal}");
    assert!(refusal.contains("REFUSED"), "the line must say the capture did not start: {refusal}");
}

#[test]
fn the_launcher_may_start_one() {
    assert!(
        ipc::ensure_from(ipc::MAIN_WINDOW_LABEL, ipc::MAIN_WINDOW_LABEL, "capture_region").is_ok(),
        "the tile this command exists for is in the main window"
    );
}

#[test]
fn a_capture_that_hid_nothing_never_raises_a_window() {
    assert!(
        !should_restore(MainWindow::LeftAlone),
        "a capture that hid nothing must put nothing back: the window's state is the user's, not this file's"
    );
}

#[test]
fn a_capture_that_hid_the_window_puts_it_back() {
    assert!(
        should_restore(MainWindow::HiddenForCapture),
        "the tile path hid the window; whatever ends the capture owes the user a show()"
    );
}

#[test]
fn the_debt_is_paid_once_and_only_once() {
    let mut claim = MainWindowClaim::new();

    assert_eq!(
        claim.take(),
        MainWindow::LeftAlone,
        "a claim nobody has taken owes nothing; a fresh application must not raise windows"
    );

    claim.owe_a_restore();
    assert_eq!(claim.take(), MainWindow::HiddenForCapture);
    assert_eq!(
        claim.take(),
        MainWindow::LeftAlone,
        "the debt was paid on the previous line; the second path to end this capture must come away with nothing"
    );
}

#[test]
fn the_recompose_wait_covers_several_presentations_and_stays_a_tenth_of_a_second() {
    assert!(
        RECOMPOSE_SETTLE_NANOS >= FRAME_60HZ_NANOS * 4,
        "{RECOMPOSE_SETTLE_NANOS} ns is under four presentations at 60 Hz"
    );
    assert!(
        RECOMPOSE_SETTLE_NANOS <= 200_000_000,
        "{RECOMPOSE_SETTLE_NANOS} ns is a delay the user feels on every click of the tile"
    );
}

#[test]
fn two_hides_in_a_row_are_still_one_debt() {
    let mut claim = MainWindowClaim::new();
    claim.owe_a_restore();
    claim.owe_a_restore();

    assert_eq!(claim.take(), MainWindow::HiddenForCapture);
    assert_eq!(claim.take(), MainWindow::LeftAlone);
}
