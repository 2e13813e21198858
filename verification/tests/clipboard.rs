use cliche::capture::{Frame, MARK_CAPTURE};
use cliche::clipboard::{
    check_cut, check_image, is_worth_copying, success_line, too_small_line, Meter, MARK_CLIPBOARD,
    MIN_COPYABLE_AREA_PX,
};
use cliche::veil::{MARK_PAINTED, MARK_SHOWN, MARK_TRANSPORT};

fn known_cut() -> Frame {
    let mut pixels = Vec::with_capacity(8 * 8 * 4);
    for row in 0..8u8 {
        for column in 0..8u8 {
            pixels.push(10 * (column + 1));
            pixels.push(100 + row);
            pixels.push(row * 8 + column);
            pixels.push(255);
        }
    }

    Frame::new(8, 8, pixels).expect("the hand-written cut must match its dimensions")
}

#[test]
fn the_threshold_is_the_one_the_doc_comment_argues_for() {
    assert_eq!(MIN_COPYABLE_AREA_PX, 64);
}

#[test]
fn a_selection_of_exactly_the_threshold_is_copied_and_one_pixel_less_is_not() {
    assert!(is_worth_copying(8, 8), "64 px is the threshold itself and must be accepted");
    assert!(!is_worth_copying(7, 9), "63 px is below the threshold");
    assert!(is_worth_copying(65, 1), "65 px is above it");
    assert!(!is_worth_copying(63, 1), "63 px again, as a strip");
}

#[test]
fn a_click_never_reaches_the_clipboard() {
    for (width, height) in [(1, 1), (2, 2), (4, 4), (1, 10), (3, 5)] {
        assert!(!is_worth_copying(width, height), "{width}x{height} is a click; it must not touch the clipboard");
    }
}

#[test]
fn a_deliberate_thin_strip_is_copied_even_though_one_side_is_one_pixel() {
    assert!(is_worth_copying(200, 1));
    assert!(is_worth_copying(1, 64));
}

#[test]
fn a_huge_selection_does_not_wrap_into_a_refusal() {
    assert!(is_worth_copying(u32::MAX, u32::MAX));
    assert!(is_worth_copying(65_536, 65_536));
}

#[test]
fn the_refusal_says_what_was_measured_and_what_was_required() {
    let message = too_small_line(3, 5);

    assert!(message.contains("3x5"), "unexpected: {message}");
    assert!(message.contains("15"), "the area must be named: {message}");
    assert!(message.contains("64"), "the threshold must be named: {message}");
    assert!(message.contains("NOT touched"), "the user has to learn their clipboard is intact: {message}");
}

#[test]
fn a_cut_becomes_an_image_of_the_same_dimensions_and_the_same_bytes() {
    let cut = known_cut();

    assert!(check_image(cut.width(), cut.height(), cut.pixels()).is_ok(), "a Frame is coherent");
    assert!(check_cut(&cut).is_ok());
}

#[test]
fn a_buffer_that_contradicts_its_dimensions_is_refused_before_arboard_sees_it() {
    let one_short = vec![0u8; 8 * 8 * 4 - 1];
    let one_long = vec![0u8; 8 * 8 * 4 + 1];
    let exact = vec![0u8; 8 * 8 * 4];
    let far_too_short = vec![0u8; 3];

    assert!(check_image(8, 8, &one_short).is_err(), "one byte short must be refused");
    assert!(check_image(8, 8, &one_long).is_err(), "one byte too many means the dimensions lie");
    assert!(check_image(8, 8, &exact).is_ok(), "the exact length must pass");

    let message = check_image(8, 8, &far_too_short).expect_err("3 bytes is not a 8x8 image");
    assert!(message.contains("3") && message.contains("256"), "both lengths must be named: {message}");
}

#[test]
fn a_zero_dimension_is_refused_even_though_its_length_check_would_pass() {
    assert!(check_image(0, 0, &[]).is_err());
    assert!(check_image(0, 8, &[]).is_err());
    assert!(check_image(8, 0, &[]).is_err());
}

#[test]
fn the_success_line_names_the_size_the_time_and_the_budget_it_is_outside_of() {
    let line = success_line(3, 640, 360, 921_600, 4_240_000);

    assert!(line.contains("run 3"), "unexpected: {line}");
    assert!(line.contains("640x360"), "unexpected: {line}");
    assert!(line.contains("921600"), "unexpected: {line}");
    assert!(line.contains("4.2 ms"), "one decimal, like every other figure: {line}");
    assert!(line.contains("OUTSIDE the 150 ms budget"), "{line}");
}

#[test]
fn the_meter_report_says_on_its_first_line_that_it_is_not_the_pipeline_report() {
    let meter = Meter::new();

    let lines = meter.report_lines();

    let first = lines.first().expect("a report always has a header");
    assert!(first.contains("OUTSIDE the 150 ms budget"), "unexpected header: {first}");
    assert!(lines.len() > 1, "the instrument's own lines must follow the header");
}

#[test]
fn the_clipboard_label_is_not_one_of_the_pipeline_labels() {
    assert_eq!(MARK_CLIPBOARD, "clipboard");
    for label in [MARK_CAPTURE, MARK_TRANSPORT, MARK_SHOWN, MARK_PAINTED] {
        assert_ne!(MARK_CLIPBOARD, label);
    }
}

#[test]
fn the_cut_the_round_trip_would_use_is_exactly_at_the_threshold() {
    let cut = known_cut();

    assert_eq!((cut.width(), cut.height()), (8, 8));
    assert!(is_worth_copying(cut.width(), cut.height()));
    assert_eq!(u64::from(cut.width()) * u64::from(cut.height()), MIN_COPYABLE_AREA_PX);
}

#[test]
fn a_refused_selection_is_worded_exactly() {
    assert_eq!(
        too_small_line(3, 5),
        "a selection of 3x5 physical px covers 15 px, below the 64 px this tool treats as a deliberate drag; the clipboard was NOT touched"
    );
}

#[test]
fn a_cut_below_the_threshold_is_refused_before_anything_else() {
    let small = Frame::new(2, 2, vec![0u8; 16]).expect("a 2x2 frame");

    assert_eq!(check_cut(&small), Err(too_small_line(2, 2)));
}

#[test]
fn the_meter_counts_filed_copies_and_forgets_abandoned_ones() {
    let mut meter = Meter::new();
    meter.begin();
    assert_eq!(meter.filed(), 1);
    meter.begin();
    meter.abandoned();
    meter.begin();
    assert_eq!(meter.filed(), 2);

    let lines = meter.report_lines();
    assert!(lines[0].starts_with("clipboard: 2 copy/copies"), "{}", lines[0]);
    assert_eq!(lines[1], "timing report over 2 run(s)");
    assert!(lines.iter().any(|line| line.contains("1 run(s) discarded")), "{lines:?}");
}

#[test]
fn the_success_line_is_exact() {
    assert_eq!(
        success_line(3, 640, 360, 921_600, 4_250_000),
        "[cliche] clipboard: run 3 copied 640x360 physical px (921600 RGBA byte(s)) in 4.2 ms - OUTSIDE the 150 ms budget, which ends at `painted`"
    );
}

#[test]
fn a_refused_write_is_thrown_away_and_a_taken_one_is_filed() {
    let mut meter = Meter::new();
    meter.begin();
    assert_eq!(
        meter.record_write(Err("busy".to_owned()), 1_000_000),
        Err("the clipboard refused the image: busy".to_owned())
    );
    meter.begin();
    let copied = meter.record_write(Ok(()), 4_000_000).expect("a write that was taken");

    assert_eq!((copied.elapsed, copied.copies), (4_000_000, 1));
    let lines = meter.report_lines();
    assert_eq!(lines[1], "timing report over 1 run(s)");
}
