use cliche::timing::{median, percentile, step_gaps, Step, StepStats, Timings, MAX_RUNS, MAX_STEPS_PER_RUN};
use std::time::Instant;

/// Milliseconds, in the nanoseconds the instrument counts in.
fn ms(value: u64) -> u64 {
    value * 1_000_000
}

#[test]
fn median_of_an_odd_count_is_the_middle_value_of_the_sorted_series() {
    let samples = [ms(30), ms(10), ms(20)];

    assert_eq!(median(&samples), Some(ms(20)));
}

#[test]
fn median_of_an_even_count_averages_the_two_middle_values() {
    let samples = [ms(40), ms(10), ms(30), ms(20)];

    assert_eq!(median(&samples), Some(ms(25)));
}

#[test]
fn an_even_median_is_not_truncated_to_whole_milliseconds() {
    let samples = [ms(10), ms(21)];

    assert_eq!(median(&samples), Some(15_500_000));
}

#[test]
fn there_is_no_median_of_an_empty_series() {
    assert_eq!(median(&[]), None, "zero would be a fabricated measurement");
}

#[test]
fn p95_of_twenty_samples_is_the_nineteenth_smallest() {
    const SHUFFLED: [u64; 20] = [
        7, 3, 20, 11, 1, 16, 5, 19, 9, 14, 2, 18, 6, 12, 4, 17, 8, 15, 10, 13,
    ];
    let samples: Vec<u64> = SHUFFLED.into_iter().map(ms).collect();

    assert_eq!(samples.len(), 20, "the hand-computed rank assumes n = 20");
    assert_eq!(percentile(&samples, 95), Some(ms(19)));
    assert_ne!(
        percentile(&samples, 95),
        Some(ms(20)),
        "p95 on 20 samples must not collapse onto the maximum"
    );
}

#[test]
fn p95_of_ten_samples_is_the_maximum_which_is_why_twenty_runs_are_required() {
    let samples: Vec<u64> = (1..=10).map(ms).collect();

    assert_eq!(percentile(&samples, 10), Some(ms(1)));
    assert_eq!(percentile(&samples, 95), Some(ms(10)));
    assert_eq!(percentile(&samples, 100), Some(ms(10)));
}

#[test]
fn a_percentile_rank_is_never_zero_and_never_past_the_end() {
    let samples = [ms(5), ms(1), ms(3)];

    assert_eq!(percentile(&samples, 0), Some(ms(1)), "clamped up to rank 1");
    assert_eq!(percentile(&samples, 100), Some(ms(5)));
    assert_eq!(percentile(&[], 95), None);
    assert_eq!(percentile(&[ms(42)], 95), Some(ms(42)));
}

#[test]
fn a_non_monotonic_offset_yields_zero_rather_than_a_wrapped_duration() {
    let steps = [
        Step { label: "capture", at: ms(10) },
        Step { label: "paint", at: ms(5) },
    ];

    let gaps = step_gaps(&steps);

    assert_eq!(gaps, vec![("capture", ms(10)), ("paint", 0)]);
}

#[test]
fn a_gap_is_the_time_of_the_step_itself_not_the_offset_from_the_start() {
    let steps = [
        Step { label: "capture", at: ms(10) },
        Step { label: "paint", at: ms(35) },
        Step { label: "clipboard", at: ms(40) },
    ];

    let gaps = step_gaps(&steps);

    assert_eq!(gaps, vec![("capture", ms(10)), ("paint", ms(25)), ("clipboard", ms(5))]);
}

#[test]
fn steps_keep_the_order_in_which_they_were_recorded() {
    let mut timings = Timings::new();
    timings.begin_run();
    timings.mark("shortcut");
    timings.mark("capture");
    timings.mark("paint");
    timings.finish_run();

    let labels: Vec<&str> = timings.report().steps.iter().map(|step| step.label).collect();

    assert_eq!(labels, vec!["shortcut", "capture", "paint"]);
}

#[test]
fn statistics_are_computed_per_step_across_every_run() {
    let mut timings = Timings::new();
    timings.file_run(&[("capture", ms(10)), ("paint", ms(15))]);
    timings.file_run(&[("capture", ms(20)), ("paint", ms(40))]);
    timings.file_run(&[("capture", ms(30)), ("paint", ms(33))]);

    let report = timings.report();

    assert_eq!(report.runs, 3);
    assert_eq!(
        report.steps,
        vec![
            StepStats { label: "capture", median: ms(20), p95: ms(30), samples: 3 },
            StepStats { label: "paint", median: ms(5), p95: ms(20), samples: 3 },
        ]
    );
    assert_eq!(report.total_median, ms(33));
    assert_eq!(report.total_p95, ms(40));
}

#[test]
fn a_step_missing_from_some_runs_reports_its_own_sample_count() {
    let mut timings = Timings::new();
    timings.file_run(&[("capture", ms(10)), ("clipboard", ms(30))]);
    timings.file_run(&[("capture", ms(20))]);

    let report = timings.report();

    assert_eq!(report.runs, 2);
    assert_eq!(report.steps[0].samples, 2);
    assert_eq!(report.steps[1].label, "clipboard");
    assert_eq!(report.steps[1].samples, 1, "a conditional step must not silently borrow the run count");
}

#[test]
fn a_report_without_any_run_says_so_instead_of_panicking() {
    let report = Timings::new().report();

    assert_eq!(report.runs, 0);
    assert!(report.steps.is_empty());
    assert_eq!(report.total_median, 0);
    assert_eq!(report.lines(), vec!["timing: no finished run to report on".to_owned()]);
}

#[test]
fn an_unfinished_run_is_absent_from_the_report() {
    let mut timings = Timings::new();
    timings.begin_run();
    timings.mark("shortcut");

    let report = timings.report();

    assert_eq!(report.runs, 0, "a run counts once it is finished, not before");
    assert!(report.steps.is_empty());
}

#[test]
fn recording_the_same_step_twice_keeps_the_first_and_counts_the_second() {
    let mut timings = Timings::new();
    timings.begin_run();
    timings.mark("paint");
    timings.mark("paint");
    timings.finish_run();

    let report = timings.report();

    assert_eq!(report.runs, 1);
    assert_eq!(report.steps.len(), 1, "one label, one line");
    assert_eq!(report.ignored_marks, 1, "the duplicate has to be visible");
}

#[test]
fn marking_outside_of_a_run_is_counted_not_panicked_on() {
    let mut timings = Timings::new();
    timings.mark("paint");
    timings.finish_run();
    timings.abandon_run();

    let report = timings.report();

    assert_eq!(report.runs, 0);
    assert_eq!(report.ignored_marks, 1);
    assert_eq!(report.discarded_runs, 0, "finishing or abandoning nothing is a no-op, not a discarded run");
}

#[test]
fn restarting_a_run_discards_the_open_one() {
    let mut timings = Timings::new();
    timings.begin_run();
    timings.mark("shortcut");
    timings.begin_run();
    timings.mark("shortcut");
    timings.finish_run();

    let report = timings.report();

    assert_eq!(report.runs, 1, "the abandoned half run must not be filed");
    assert_eq!(report.discarded_runs, 1);
}

#[test]
fn a_finished_run_with_no_step_is_discarded_rather_than_counted_as_zero() {
    let mut timings = Timings::new();
    timings.begin_run();
    timings.finish_run();

    let report = timings.report();

    assert_eq!(report.runs, 0);
    assert_eq!(report.discarded_runs, 1);
    assert_eq!(report.total_median, 0, "an empty run must not contribute a zero total to the aggregate");
}

#[test]
fn an_abandoned_run_is_not_reported_as_a_measurement() {
    let mut timings = Timings::new();
    timings.begin_run();
    timings.mark("shortcut");
    timings.abandon_run();

    let report = timings.report();

    assert_eq!(report.runs, 0, "Escape cancels, it does not measure");
    assert_eq!(report.discarded_runs, 1);
}

#[test]
fn the_history_stays_bounded() {
    let mut timings = Timings::new();
    for _ in 0..(MAX_RUNS + 25) {
        timings.begin_run();
        timings.mark("capture");
        timings.finish_run();
    }

    assert_eq!(timings.report().runs, MAX_RUNS);
}

const LABELS: [&str; 70] = [
    "s00", "s01", "s02", "s03", "s04", "s05", "s06", "s07", "s08", "s09", "s10", "s11", "s12",
    "s13", "s14", "s15", "s16", "s17", "s18", "s19", "s20", "s21", "s22", "s23", "s24", "s25",
    "s26", "s27", "s28", "s29", "s30", "s31", "s32", "s33", "s34", "s35", "s36", "s37", "s38",
    "s39", "s40", "s41", "s42", "s43", "s44", "s45", "s46", "s47", "s48", "s49", "s50", "s51",
    "s52", "s53", "s54", "s55", "s56", "s57", "s58", "s59", "s60", "s61", "s62", "s63", "s64",
    "s65", "s66", "s67", "s68", "s69",
];

#[test]
fn a_run_cannot_record_more_steps_than_the_cap() {
    let mut timings = Timings::new();
    timings.begin_run();
    for label in LABELS {
        timings.mark(label);
    }
    timings.finish_run();

    let report = timings.report();

    assert_eq!(report.steps.len(), MAX_STEPS_PER_RUN);
    assert_eq!(report.ignored_marks, LABELS.len() - MAX_STEPS_PER_RUN);
}

#[test]
fn the_report_lines_carry_the_figures_and_the_anomalies() {
    let mut timings = Timings::new();
    timings.file_run(&[("capture", ms(12)), ("paint", ms(30))]);
    timings.mark("stray");

    let lines = timings.report().lines();

    assert_eq!(lines[0], "timing report over 1 run(s)");
    assert!(
        lines[1].starts_with("  #1 capture") && lines[1].contains("median   12.0 ms"),
        "unexpected step line: {}",
        lines[1]
    );
    assert!(
        lines[3].contains("TOTAL") && lines[3].contains("median   30.0 ms"),
        "unexpected total line: {}",
        lines[3]
    );
    assert!(
        lines[4].contains("1 mark(s) ignored"),
        "an ignored mark must reach the printed report, not just the struct: {}",
        lines[4]
    );
}

#[test]
fn the_instrument_costs_far_less_than_what_it_measures() {
    const RUNS: usize = 2_000;
    let mut timings = Timings::new();

    let started = Instant::now();
    for _ in 0..RUNS {
        timings.begin_run();
        for label in ["shortcut", "capture", "encode", "paint", "clipboard"] {
            timings.mark(label);
        }
        timings.finish_run();
    }
    let elapsed = started.elapsed();

    assert!(
        elapsed.as_millis() < 500,
        "{RUNS} runs of 5 marks took {elapsed:?}; the instrument is no longer negligible"
    );
}

#[test]
fn every_line_of_a_report_is_exact_to_the_character() {
    let mut timings = Timings::new();
    timings.file_run(&[("capture", 12_340_000), ("paint", 30_000_000)]);
    timings.begin_run();
    timings.abandon_run();

    let lines = timings.report().lines();

    assert_eq!(
        lines,
        vec![
            "timing report over 1 run(s)".to_owned(),
            "  #1 capture              median   12.3 ms  p95   12.3 ms  (1 sample(s))".to_owned(),
            "  #2 paint                median   17.7 ms  p95   17.7 ms  (1 sample(s))".to_owned(),
            "  TOTAL                 median   30.0 ms  p95   30.0 ms  (nearest-rank p95)".to_owned(),
            "  note: 1 run(s) discarded (never finished, or empty)".to_owned(),
        ]
    );
}

#[test]
fn a_full_history_drops_its_oldest_run_first() {
    let mut timings = Timings::new();
    timings.begin_run();
    timings.mark("first");
    timings.finish_run();
    for _ in 0..MAX_RUNS {
        timings.begin_run();
        timings.mark("later");
        timings.finish_run();
    }

    let report = timings.report();

    assert_eq!(report.runs, MAX_RUNS);
    assert!(report.steps.iter().all(|step| step.label == "later"), "the oldest run must be the one dropped");
}

#[test]
fn asking_for_the_report_twice_gives_the_same_report_and_an_open_run_changes_nothing() {
    let mut timings = Timings::new();
    timings.file_run(&[("shortcut", 0), ("capture", 2_000_000), ("painted", 9_000_000)]);
    timings.file_run(&[("shortcut", 0), ("capture", 3_000_000), ("painted", 11_000_000)]);

    let first = timings.report();
    let second = timings.report();
    assert_eq!(first, second);

    timings.begin_run();
    timings.mark("shortcut");
    assert_eq!(timings.report(), first, "an open run must not reach the report");
}

#[test]
fn milliseconds_round_to_the_nearest_tenth_and_an_exact_half_to_the_even_one() {
    assert_eq!(cliche::text::millis_string(12_250_000), "12.2 ms");
    assert_eq!(cliche::text::millis_string(750_000), "0.8 ms");
    assert_eq!(cliche::text::millis_string(250_000), "0.2 ms");
    assert_eq!(cliche::text::millis_string(12_250_001), "12.3 ms");
    assert_eq!(cliche::text::millis_string(12_249_999), "12.2 ms");
    assert_eq!(cliche::text::millis_string(0), "0.0 ms");
}
