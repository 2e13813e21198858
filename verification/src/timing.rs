//! Latency instrumentation for the capture pipeline.
//!
//! Durations are carried as whole nanoseconds in a `u64`. A run is a list of
//! steps, each a label and its offset from the start of the run; the report
//! turns offsets into per-step gaps and aggregates them with a median and a
//! nearest-rank percentile.
use vstd::prelude::*;
use vstd::string::*;
use std::time::Instant;
use crate::order::{ascending, sorted_copy, lemma_ascending, lemma_ascending_unique, is_ascending};
use crate::text::{millis_text, pad_left, pad_right, decimal, push_decimal, push_padded_left, push_padded_right, same_text, millis_string};

verus! {

/// How many finished runs are kept.
pub const MAX_RUNS: usize = 200;

/// How many steps one run may record.
pub const MAX_STEPS_PER_RUN: usize = 64;

/// One recorded step: a label, and how long after the start of its run it
/// happened, in nanoseconds.
#[derive(Debug, Clone, Copy, PartialEq, Eq)]
pub struct Step {
    pub label: &'static str,
    pub at: u64,
}

/// The time a step itself took: its offset minus the previous step's offset,
/// never below zero; the first step's offset for the first step.
pub open spec fn gap_at(steps: Seq<Step>, i: int) -> u64 {
    if i == 0 {
        steps[0].at
    } else if steps[i].at >= steps[i - 1].at {
        (steps[i].at - steps[i - 1].at) as u64
    } else {
        0
    }
}

/// Each step's label with the time the step itself took.
pub open spec fn gaps(steps: Seq<Step>) -> Seq<(Seq<char>, u64)> {
    Seq::new(steps.len(), |i: int| (steps[i].label@, gap_at(steps, i)))
}

/// The middle of the sorted samples: the middle one on an odd count, the mean
/// (rounded down to the nanosecond) of the two middle ones on an even count.
pub open spec fn median_of(samples: Seq<u64>) -> Option<u64> {
    if samples.len() == 0 {
        None
    } else {
        let sorted = ascending(samples);
        let middle = samples.len() / 2;
        if samples.len() % 2 == 1 {
            Some(sorted[middle as int])
        } else {
            Some(((sorted[middle - 1] + sorted[middle as int]) / 2) as u64)
        }
    }
}

/// The nearest rank `ceil(p * n / 100)`, clamped to `1..=n`.
pub open spec fn nearest_rank(p: nat, n: nat) -> nat {
    let rank = (p * n + 99) / 100;
    if rank < 1 {
        1
    } else if rank > n {
        n
    } else {
        rank
    }
}

/// The sample at the nearest rank, counted from 1 in ascending order.
pub open spec fn percentile_of(samples: Seq<u64>, p: nat) -> Option<u64> {
    if samples.len() == 0 {
        None
    } else {
        Some(ascending(samples)[nearest_rank(p, samples.len()) - 1])
    }
}

/// Turns per-run offsets into per-step gaps: how long each step itself took.
pub fn step_gaps(steps: &[Step]) -> (result: Vec<(&'static str, u64)>)
    ensures
        result@.len() == steps@.len(),
        forall|i: int|
            0 <= i < steps@.len() ==> #[trigger] result@[i].0 == steps@[i].label
                && result@[i].1 == gap_at(steps@, i),
{
    let mut previous: u64 = 0;
    let mut result: Vec<(&'static str, u64)> = Vec::new();
    let mut i: usize = 0;
    while i < steps.len()
        invariant
            i <= steps@.len(),
            result@.len() == i,
            i > 0 ==> previous == steps@[i - 1].at,
            i == 0 ==> previous == 0,
            forall|k: int|
                0 <= k < i ==> (#[trigger] result@[k]).0 == steps@[k].label
                    && result@[k].1 == gap_at(steps@, k),
        decreases steps.len() - i,
    {
        let step = steps[i];
        let gap: u64 = if step.at >= previous { step.at - previous } else { 0 };
        let ghost before = result@;
        assert(step == steps@[i as int]);
        assert(gap == gap_at(steps@, i as int));
        result.push((step.label, gap));
        assert(result@[i as int] == (step.label, gap));
        assert forall|k: int| 0 <= k < i + 1 implies (#[trigger] result@[k]).0 == steps@[k].label
            && result@[k].1 == gap_at(steps@, k) by {
            if k < i {
                assert(before[k].0 == steps@[k].label && before[k].1 == gap_at(steps@, k));
                assert(result@[k] == before[k]);
            }
        }
        previous = step.at;
        i = i + 1;
    }
    result
}

/// Median of a series: `None` on an empty one, there is no median of nothing.
pub fn median(samples: &[u64]) -> (result: Option<u64>)
    ensures
        result == median_of(samples@),
{
    if samples.len() == 0 {
        return None;
    }
    let sorted = sorted_copy(samples);
    proof {
        lemma_ascending(samples@);
    }
    let middle = sorted.len() / 2;
    if sorted.len() % 2 == 1 {
        return Some(sorted[middle]);
    }
    let sum: u128 = sorted[middle - 1] as u128 + sorted[middle] as u128;
    Some((sum / 2) as u64)
}

/// Percentile by the nearest-rank method, inclusive: the sample at rank
/// `ceil(p * n / 100)`, counting from 1, clamped to `1..=n`.
pub fn percentile(samples: &[u64], p: u8) -> (result: Option<u64>)
    ensures
        result == percentile_of(samples@, p as nat),
{
    if samples.len() == 0 {
        return None;
    }
    let sorted = sorted_copy(samples);
    proof {
        lemma_ascending(samples@);
    }
    let n = sorted.len();
    let wide_p = p as u128;
    let wide_n = n as u128;
    assert(wide_p * wide_n <= 255 * 0xffff_ffff_ffff_ffffu128) by (nonlinear_arith)
        requires
            wide_p <= 255,
            wide_n <= 0xffff_ffff_ffff_ffffu128,
    ;
    let raw: u128 = (wide_p * wide_n + 99) / 100;
    let rank: usize = if raw < 1 {
        1
    } else if raw > n as u128 {
        n
    } else {
        raw as usize
    };
    Some(sorted[rank - 1])
}

/// Every step of every run, as label and gap, run after run.
pub open spec fn flat_gaps(runs: Seq<Seq<Step>>) -> Seq<(Seq<char>, u64)>
    decreases runs.len(),
{
    if runs.len() == 0 {
        Seq::empty()
    } else {
        flat_gaps(runs.drop_last()) + gaps(runs.last())
    }
}

/// The distinct labels of a list of gaps, in the order they first appear.
pub open spec fn first_seen(entries: Seq<(Seq<char>, u64)>) -> Seq<Seq<char>>
    decreases entries.len(),
{
    if entries.len() == 0 {
        Seq::empty()
    } else {
        let earlier = first_seen(entries.drop_last());
        if earlier.contains(entries.last().0) {
            earlier
        } else {
            earlier.push(entries.last().0)
        }
    }
}

/// The gaps recorded under `label`, in order.
pub open spec fn samples_of(entries: Seq<(Seq<char>, u64)>, label: Seq<char>) -> Seq<u64>
    decreases entries.len(),
{
    if entries.len() == 0 {
        Seq::empty()
    } else {
        let earlier = samples_of(entries.drop_last(), label);
        if entries.last().0 == label {
            earlier.push(entries.last().1)
        } else {
            earlier
        }
    }
}

/// The whole of each run that recorded something: its last offset.
pub open spec fn totals(runs: Seq<Seq<Step>>) -> Seq<u64>
    decreases runs.len(),
{
    if runs.len() == 0 {
        Seq::empty()
    } else {
        let earlier = totals(runs.drop_last());
        if runs.last().len() > 0 {
            earlier.push(runs.last().last().at)
        } else {
            earlier
        }
    }
}

/// A missing statistic reads as zero.
pub open spec fn or_zero(value: Option<u64>) -> u64 {
    match value {
        Some(v) => v,
        None => 0,
    }
}

/// The runs as sequences of steps.
pub open spec fn runs_view(runs: Seq<Vec<Step>>) -> Seq<Seq<Step>> {
    runs.map_values(|run: Vec<Step>| run@)
}

/// Statistics for one step, across every finished run that recorded it.
#[derive(Debug, Clone, PartialEq, Eq)]
pub struct StepStats {
    pub label: &'static str,
    /// Time this step itself took, in nanoseconds.
    pub median: u64,
    /// Nearest-rank 95th percentile, in nanoseconds.
    pub p95: u64,
    /// Runs that recorded this step.
    pub samples: usize,
}

/// What the instrument has to say. Plain data.
#[derive(Debug, Clone, PartialEq, Eq)]
pub struct Report {
    /// Finished runs the figures are computed on.
    pub runs: usize,
    /// Steps in the order they were first seen, which is the order of the pipeline.
    pub steps: Vec<StepStats>,
    /// Whole run, in nanoseconds.
    pub total_median: u64,
    pub total_p95: u64,
    pub discarded_runs: usize,
    pub ignored_marks: usize,
}

/// What one line of statistics says of the gaps recorded under `label`.
pub open spec fn summarizes(stats: StepStats, entries: Seq<(Seq<char>, u64)>, label: Seq<char>) -> bool {
    let samples = samples_of(entries, label);
    &&& stats.label@ == label
    &&& stats.median == or_zero(median_of(samples))
    &&& stats.p95 == or_zero(percentile_of(samples, 95))
    &&& stats.samples == samples.len()
}

/// The report of a list of finished runs and the two anomaly counters.
pub open spec fn reports_on(report: Report, runs: Seq<Seq<Step>>, discarded: nat, ignored: nat) -> bool {
    let entries = flat_gaps(runs);
    let order = first_seen(entries);
    &&& report.runs == runs.len()
    &&& report.steps@.len() == order.len()
    &&& forall|i: int| 0 <= i < order.len() ==> summarizes(#[trigger] report.steps@[i], entries, order[i])
    &&& report.total_median == or_zero(median_of(totals(runs)))
    &&& report.total_p95 == or_zero(percentile_of(totals(runs), 95))
    &&& report.discarded_runs == discarded
    &&& report.ignored_marks == ignored
}

proof fn lemma_first_seen_distinct(entries: Seq<(Seq<char>, u64)>)
    ensures
        forall|a: int, b: int|
            0 <= a < b < first_seen(entries).len() ==> first_seen(entries)[a] != first_seen(entries)[b],
    decreases entries.len(),
{
    if entries.len() > 0 {
        lemma_first_seen_distinct(entries.drop_last());
        let earlier = first_seen(entries.drop_last());
        let x = entries.last().0;
        if !earlier.contains(x) {
            assert forall|a: int| 0 <= a < earlier.len() implies earlier[a] != x by {
                if earlier[a] == x {
                    assert(earlier.contains(x));
                }
            }
        }
    }
}

/// Where `label` sits in `labels`, compared by text.
fn position_of(labels: &Vec<&'static str>, label: &'static str) -> (found: Option<usize>)
    ensures
        match found {
            Some(k) => k < labels@.len() && labels@[k as int]@ == label@,
            None => forall|k: int| 0 <= k < labels@.len() ==> labels@[k]@ != label@,
        },
{
    let mut k: usize = 0;
    while k < labels.len()
        invariant
            k <= labels@.len(),
            forall|j: int| 0 <= j < k ==> labels@[j]@ != label@,
        decreases labels.len() - k,
    {
        if same_text(labels[k], label) {
            return Some(k);
        }
        k = k + 1;
    }
    None
}

/// Aggregates finished runs: per-step median and p95 in first-seen order, and
/// the same two figures over whole runs.
pub fn aggregate(runs: &Vec<Vec<Step>>, discarded_runs: usize, ignored_marks: usize) -> (report: Report)
    ensures
        reports_on(report, runs_view(runs@), discarded_runs as nat, ignored_marks as nat),
{
    let ghost all = runs_view(runs@);
    let mut labels: Vec<&'static str> = Vec::new();
    let mut samples: Vec<Vec<u64>> = Vec::new();
    let mut total_list: Vec<u64> = Vec::new();
    let ghost mut entries: Seq<(Seq<char>, u64)> = Seq::empty();
    let mut r: usize = 0;
    while r < runs.len()
        invariant
            r <= runs@.len(),
            all == runs_view(runs@),
            entries == flat_gaps(all.subrange(0, r as int)),
            labels@.len() == first_seen(entries).len(),
            samples@.len() == labels@.len(),
            forall|k: int| 0 <= k < labels@.len() ==> (#[trigger] labels@[k])@ == first_seen(entries)[k],
            forall|k: int| 0 <= k < samples@.len() ==> (#[trigger] samples@[k])@ == samples_of(entries, first_seen(entries)[k]),
            total_list@ == totals(all.subrange(0, r as int)),
        decreases runs.len() - r,
    {
        let steps = &runs[r];
        let gap_list = step_gaps(steps.as_slice());
        let ghost start = entries;
        proof {
            assert(all[r as int] == steps@);
        }
        let mut j: usize = 0;
        while j < gap_list.len()
            invariant
                j <= gap_list@.len(),
                gap_list@.len() == steps@.len(),
                forall|i: int|
                    0 <= i < steps@.len() ==> (#[trigger] gap_list@[i]).0 == steps@[i].label
                        && gap_list@[i].1 == gap_at(steps@, i),
                entries == start + gaps(steps@).subrange(0, j as int),
                labels@.len() == first_seen(entries).len(),
                samples@.len() == labels@.len(),
                forall|k: int| 0 <= k < labels@.len() ==> (#[trigger] labels@[k])@ == first_seen(entries)[k],
                forall|k: int| 0 <= k < samples@.len() ==> (#[trigger] samples@[k])@ == samples_of(entries, first_seen(entries)[k]),
            decreases gap_list.len() - j,
        {
            let (label, gap) = gap_list[j];
            let ghost entry = (label@, gap);
            let ghost previous = entries;
            let ghost old_labels = labels@;
            let ghost old_samples = samples@;
            proof {
                assert(gaps(steps@)[j as int] == entry);
                assert(gaps(steps@).subrange(0, j + 1) =~= gaps(steps@).subrange(0, j as int).push(entry));
                entries = entries.push(entry);
                assert(entries.drop_last() =~= previous);
                lemma_first_seen_distinct(previous);
            }
            match position_of(&labels, label) {
                Some(k) => {
                    let mut grown = samples.remove(k);
                    grown.push(gap);
                    samples.insert(k, grown);
                    proof {
                        assert(first_seen(previous).contains(label@));
                        assert(first_seen(entries) == first_seen(previous));
                        assert forall|m: int| 0 <= m < samples@.len() implies (#[trigger] samples@[m])@ == samples_of(entries, first_seen(entries)[m]) by {
                            if m == k {
                            } else {
                                assert(samples@[m] == old_samples[m]);
                                assert(first_seen(previous)[m] != label@);
                            }
                        }
                    }
                },
                None => {
                    labels.push(label);
                    let mut fresh: Vec<u64> = Vec::new();
                    fresh.push(gap);
                    samples.push(fresh);
                    proof {
                        assert forall|m: int| 0 <= m < first_seen(previous).len() implies first_seen(previous)[m] != label@ by {
                            assert(old_labels[m]@ == first_seen(previous)[m]);
                        }
                        assert(!first_seen(previous).contains(label@));
                        assert(first_seen(entries) == first_seen(previous).push(label@));
                        assert(samples_of(previous, label@) =~= Seq::<u64>::empty()) by {
                            lemma_samples_of_absent(previous, label@);
                        }
                        assert forall|m: int| 0 <= m < samples@.len() implies (#[trigger] samples@[m])@ == samples_of(entries, first_seen(entries)[m]) by {
                            if m < old_samples.len() {
                                assert(samples@[m] == old_samples[m]);
                                assert(first_seen(previous)[m] != label@);
                            } else {
                                assert(fresh@ =~= seq![gap]);
                            }
                        }
                        assert forall|m: int| 0 <= m < labels@.len() implies (#[trigger] labels@[m])@ == first_seen(entries)[m] by {
                            if m < old_labels.len() {
                                assert(labels@[m] == old_labels[m]);
                            }
                        }
                    }
                },
            }
            j = j + 1;
        }
        if steps.len() > 0 {
            total_list.push(steps[steps.len() - 1].at);
        }
        proof {
            assert(gaps(steps@).subrange(0, steps@.len() as int) =~= gaps(steps@));
            assert(all.subrange(0, r + 1).drop_last() =~= all.subrange(0, r as int));
            assert(all.subrange(0, r + 1).last() == steps@);
        }
        r = r + 1;
    }
    proof {
        assert(all.subrange(0, runs@.len() as int) =~= all);
    }
    let mut steps_out: Vec<StepStats> = Vec::new();
    let mut k: usize = 0;
    while k < labels.len()
        invariant
            k <= labels@.len(),
            entries == flat_gaps(all),
            labels@.len() == first_seen(entries).len(),
            samples@.len() == labels@.len(),
            forall|m: int| 0 <= m < labels@.len() ==> (#[trigger] labels@[m])@ == first_seen(entries)[m],
            forall|m: int| 0 <= m < samples@.len() ==> (#[trigger] samples@[m])@ == samples_of(entries, first_seen(entries)[m]),
            steps_out@.len() == k,
            forall|m: int| 0 <= m < k ==> summarizes(#[trigger] steps_out@[m], entries, first_seen(entries)[m]),
        decreases labels.len() - k,
    {
        let series = samples[k].as_slice();
        let median_value = median(series);
        let p95_value = percentile(series, 95);
        let stats = StepStats {
            label: labels[k],
            median: match median_value {
                Some(v) => v,
                None => 0,
            },
            p95: match p95_value {
                Some(v) => v,
                None => 0,
            },
            samples: series.len(),
        };
        steps_out.push(stats);
        k = k + 1;
    }
    let total_median = median(total_list.as_slice());
    let total_p95 = percentile(total_list.as_slice(), 95);
    Report {
        runs: runs.len(),
        steps: steps_out,
        total_median: match total_median {
            Some(v) => v,
            None => 0,
        },
        total_p95: match total_p95 {
            Some(v) => v,
            None => 0,
        },
        discarded_runs,
        ignored_marks,
    }
}

proof fn lemma_samples_of_absent(entries: Seq<(Seq<char>, u64)>, label: Seq<char>)
    requires
        !first_seen(entries).contains(label),
    ensures
        samples_of(entries, label) == Seq::<u64>::empty(),
    decreases entries.len(),
{
    if entries.len() > 0 {
        let earlier = first_seen(entries.drop_last());
        if earlier.contains(entries.last().0) {
            assert(!earlier.contains(label));
        } else {
            assert(first_seen(entries) == earlier.push(entries.last().0));
            assert(first_seen(entries).last() == entries.last().0);
            assert(entries.last().0 != label);
            assert forall|x: Seq<char>| earlier.contains(x) implies first_seen(entries).contains(x) by {
                let i = choose|i: int| 0 <= i < earlier.len() && earlier[i] == x;
                assert(first_seen(entries)[i] == x);
            }
        }
        lemma_samples_of_absent(entries.drop_last(), label);
    }
}

/// The monotonic clock's instants, carried through and never looked into.
#[verifier::external_type_specification]
#[verifier::external_body]
pub struct ExInstant(std::time::Instant);

/// std's `Instant::now`: a reading of the monotonic clock. Nothing is stated
/// of the instant it returns.
#[verifier::external_body]
fn clock_now() -> Instant {
    Instant::now()
}

/// std's `Instant::elapsed`, in whole nanoseconds, saturating at `u64::MAX`.
/// It depends on the clock, so nothing is stated of the value.
#[verifier::external_body]
fn nanos_since(origin: &Instant) -> u64 {
    u64::try_from(origin.elapsed().as_nanos()).unwrap_or(u64::MAX)
}

/// One more, unless the counter is already at its maximum.
pub open spec fn bumped(count: usize) -> usize {
    if count < usize::MAX {
        (count + 1) as usize
    } else {
        count
    }
}

/// Whether some step of `steps` carries `label`.
pub open spec fn has_label(steps: Seq<Step>, label: Seq<char>) -> bool {
    exists|i: int| 0 <= i < steps.len() && (#[trigger] steps[i]).label@ == label
}

/// What marking `label` does to an instrument: a run in progress that does not
/// hold the label yet and has room gets one more step, carrying it; anything
/// else is counted as an ignored mark. The finished runs are never touched.
pub open spec fn marked(before: Timings, after: Timings, label: Seq<char>) -> bool {
    let recorded = before.open_run() is Some
        && !has_label(before.open_run().unwrap(), label)
        && before.open_run().unwrap().len() < MAX_STEPS_PER_RUN;
    &&& if recorded {
        let steps = before.open_run().unwrap();
        &&& after.open_run() is Some
        &&& after.open_run().unwrap().len() == steps.len() + 1
        &&& after.open_run().unwrap().drop_last() == steps
        &&& after.open_run().unwrap().last().label@ == label
        &&& after.open_run().unwrap().last().at == if after.last_reading() >= before.run_started() {
            (after.last_reading() - before.run_started()) as u64
        } else {
            0
        }
        &&& after.ignored() == before.ignored()
    } else {
        &&& after.open_run() == before.open_run()
        &&& after.ignored() == bumped(before.ignored())
    }
    &&& after.run_started() == before.run_started()
    &&& after.finished_runs() == before.finished_runs()
    &&& after.discarded() == before.discarded()
}

/// What opening a run does: an empty run is open, started at the clock
/// reading taken now; a run already open is dropped and counted as discarded.
pub open spec fn opened(before: Timings, after: Timings) -> bool {
    &&& after.open_run() == Some(Seq::<Step>::empty())
    &&& after.run_started() == after.last_reading()
    &&& after.finished_runs() == before.finished_runs()
    &&& after.discarded() == if before.open_run() is Some {
        bumped(before.discarded())
    } else {
        before.discarded()
    }
    &&& after.ignored() == before.ignored()
}

/// What closing the run in progress does: no run is open any more; a run
/// that recorded something is filed, the oldest making room when the history
/// is full; an empty one is counted as discarded; no run at all changes
/// nothing.
pub open spec fn finished(before: Timings, after: Timings) -> bool {
    &&& after.open_run() is None
    &&& after.ignored() == before.ignored()
    &&& match before.open_run() {
        None => {
            &&& after.finished_runs() == before.finished_runs()
            &&& after.discarded() == before.discarded()
        },
        Some(steps) => if steps.len() == 0 {
            &&& after.finished_runs() == before.finished_runs()
            &&& after.discarded() == bumped(before.discarded())
        } else {
            &&& after.discarded() == before.discarded()
            &&& after.finished_runs() == if before.finished_runs().len() >= MAX_RUNS {
                before.finished_runs().drop_first().push(steps)
            } else {
                before.finished_runs().push(steps)
            }
        },
    }
}

/// The instrument: an optional run in progress, the finished runs, and two
/// anomaly counters that the report surfaces.
pub struct Timings {
    origin: Instant,
    started: u64,
    reading: Ghost<u64>,
    open: Option<Vec<Step>>,
    finished: Vec<Vec<Step>>,
    discarded_runs: usize,
    ignored_marks: usize,
}

impl Timings {
    /// The run in progress, if any.
    pub closed spec fn open_run(&self) -> Option<Seq<Step>> {
        match self.open {
            Some(steps) => Some(steps@),
            None => None,
        }
    }

    /// The finished runs, oldest first.
    pub closed spec fn finished_runs(&self) -> Seq<Seq<Step>> {
        runs_view(self.finished@)
    }

    /// Runs started and never finished, plus finished runs that recorded nothing.
    pub closed spec fn discarded(&self) -> usize {
        self.discarded_runs
    }

    /// Marks that could not be recorded.
    pub closed spec fn ignored(&self) -> usize {
        self.ignored_marks
    }

    /// The clock reading, in nanoseconds since the instrument was made, at
    /// which the run in progress was opened.
    pub closed spec fn run_started(&self) -> u64 {
        self.started
    }

    /// The clock reading, in nanoseconds since the instrument was made, that
    /// the latest opening of a run or mark took.
    pub closed spec fn last_reading(&self) -> u64 {
        self.reading@
    }

    /// An instrument with nothing recorded.
    pub fn new() -> (timings: Self)
        ensures
            timings.open_run() is None,
            timings.finished_runs() == Seq::<Seq<Step>>::empty(),
            timings.discarded() == 0,
            timings.ignored() == 0,
    {
        let timings = Timings {
            origin: clock_now(),
            started: 0,
            reading: Ghost(0),
            open: None,
            finished: Vec::new(),
            discarded_runs: 0,
            ignored_marks: 0,
        };
        assert(timings.finished_runs() =~= Seq::<Seq<Step>>::empty());
        timings
    }

    /// Opens a run. A run already open is dropped, not finished, and counted
    /// as discarded.
    pub fn begin_run(&mut self)
        ensures
            opened(*old(self), *final(self)),
    {
        let started = nanos_since(&self.origin);
        self.reading = Ghost(started);
        if self.open.is_some() {
            self.discarded_runs = self.discarded_runs.saturating_add(1);
        }
        self.started = started;
        self.open = Some(Vec::new());
        assert(final(self).open_run().unwrap() =~= Seq::<Step>::empty());
    }

    /// Timestamps a step of the run in progress. Ignored, and counted, when no
    /// run is open, when the label was already recorded in this run, or when
    /// the run already holds the maximum number of steps.
    pub fn mark(&mut self, label: &'static str)
        ensures
            marked(*old(self), *final(self), label@),
    {
        let now = nanos_since(&self.origin);
        self.reading = Ghost(now);
        let started = self.started;
        let recorded = match self.open.take() {
            Some(mut steps) => {
                let mut duplicate = false;
                let mut i: usize = 0;
                while i < steps.len()
                    invariant
                        i <= steps@.len(),
                        duplicate == exists|k: int| 0 <= k < i && (#[trigger] steps@[k]).label@ == label@,
                    decreases steps.len() - i,
                {
                    if same_text(steps[i].label, label) {
                        duplicate = true;
                    }
                    i = i + 1;
                }
                let accepted = !duplicate && steps.len() < MAX_STEPS_PER_RUN;
                if accepted {
                    let at: u64 = if now >= started { now - started } else { 0 };
                    let ghost before = steps@;
                    steps.push(Step { label, at });
                    assert(steps@.drop_last() =~= before);
                }
                self.open = Some(steps);
                accepted
            },
            None => false,
        };
        if !recorded {
            self.ignored_marks = self.ignored_marks.saturating_add(1);
        }
    }

    /// Closes the run in progress and files it. A run that recorded no step is
    /// discarded instead; when the history is full the oldest run makes room.
    pub fn finish_run(&mut self)
        ensures
            finished(*old(self), *final(self)),
            old(self).finished_runs().len() <= MAX_RUNS ==> final(self).finished_runs().len() <= MAX_RUNS,
    {
        let ghost before = self.finished@;
        match self.open.take() {
            None => {},
            Some(steps) => {
                if steps.len() == 0 {
                    self.discarded_runs = self.discarded_runs.saturating_add(1);
                } else {
                    if self.finished.len() >= MAX_RUNS {
                        self.finished.remove(0);
                        assert(runs_view(self.finished@) =~= runs_view(before).drop_first());
                    }
                    let ghost middle = self.finished@;
                    self.finished.push(steps);
                    assert(runs_view(self.finished@) =~= runs_view(middle).push(steps@));
                }
            },
        }
    }

    /// Drops the run in progress without filing it, and counts it as discarded.
    pub fn abandon_run(&mut self)
        ensures
            final(self).open_run() is None,
            final(self).finished_runs() == old(self).finished_runs(),
            final(self).discarded() == if old(self).open_run() is Some {
                bumped(old(self).discarded())
            } else {
                old(self).discarded()
            },
            final(self).ignored() == old(self).ignored(),
    {
        if self.open.take().is_some() {
            self.discarded_runs = self.discarded_runs.saturating_add(1);
        }
    }

    /// Aggregates every finished run.
    pub fn report(&self) -> (report: Report)
        ensures
            reports_on(report, self.finished_runs(), self.discarded() as nat, self.ignored() as nat),
    {
        aggregate(&self.finished, self.discarded_runs, self.ignored_marks)
    }

    /// Files a ready-made run, bypassing the clock: offsets in nanoseconds,
    /// cumulative, exactly as `mark` would have recorded them.
    pub fn file_run(&mut self, steps: &[(&'static str, u64)])
        ensures
            final(self).finished_runs() == old(self).finished_runs().push(
                Seq::new(steps@.len(), |i: int| Step { label: steps@[i].0, at: steps@[i].1 }),
            ),
            final(self).open_run() == old(self).open_run(),
            final(self).discarded() == old(self).discarded(),
            final(self).ignored() == old(self).ignored(),
    {
        let mut run: Vec<Step> = Vec::new();
        let mut i: usize = 0;
        while i < steps.len()
            invariant
                i <= steps@.len(),
                run@ == Seq::new(i as nat, |k: int| Step { label: steps@[k].0, at: steps@[k].1 }),
            decreases steps.len() - i,
        {
            let (label, at) = steps[i];
            run.push(Step { label, at });
            i = i + 1;
            assert(run@ =~= Seq::new(i as nat, |k: int| Step { label: steps@[k].0, at: steps@[k].1 }));
        }
        let ghost before = self.finished@;
        self.finished.push(run);
        assert(runs_view(self.finished@) =~= runs_view(before).push(run@));
    }
}

/// The first line of a report over `runs` finished runs.
pub open spec fn header_line(runs: nat) -> Seq<char> {
    "timing report over "@ + decimal(runs) + " run(s)"@
}

/// The line of one step, ranked from 1.
pub open spec fn step_line(rank: nat, stats: StepStats) -> Seq<char> {
    "  #"@ + decimal(rank) + " "@ + pad_right(stats.label@, 20) + " median "@
        + pad_left(millis_text(stats.median as nat), 9) + "  p95 "@
        + pad_left(millis_text(stats.p95 as nat), 9) + "  ("@ + decimal(stats.samples as nat)
        + " sample(s))"@
}

/// The line of the whole run.
pub open spec fn total_line(median: u64, p95: u64) -> Seq<char> {
    "  "@ + pad_right("TOTAL"@, 21) + " median "@ + pad_left(millis_text(median as nat), 9)
        + "  p95 "@ + pad_left(millis_text(p95 as nat), 9) + "  (nearest-rank p95)"@
}

/// The notes on discarded runs and ignored marks, each only when non-zero.
pub open spec fn anomaly_lines_of(discarded: nat, ignored: nat) -> Seq<Seq<char>> {
    let first: Seq<Seq<char>> = if discarded > 0 {
        seq!["  note: "@ + decimal(discarded) + " run(s) discarded (never finished, or empty)"@]
    } else {
        Seq::empty()
    };
    let second: Seq<Seq<char>> = if ignored > 0 {
        seq!["  note: "@ + decimal(ignored) + " mark(s) ignored (no open run, duplicate, or cap reached)"@]
    } else {
        Seq::empty()
    };
    first + second
}

/// The lines a report renders as.
pub open spec fn report_lines(report: Report) -> Seq<Seq<char>> {
    let notes = anomaly_lines_of(report.discarded_runs as nat, report.ignored_marks as nat);
    if report.runs == 0 {
        seq!["timing: no finished run to report on"@] + notes
    } else {
        seq![header_line(report.runs as nat)]
            + Seq::new(report.steps@.len(), |i: int| step_line((i + 1) as nat, report.steps@[i]))
            + seq![total_line(report.total_median, report.total_p95)] + notes
    }
}

/// The texts of a list of strings.
pub open spec fn texts(lines: Seq<String>) -> Seq<Seq<char>> {
    lines.map_values(|line: String| line@)
}

impl Report {
    /// Renders the report as human-readable lines.
    pub fn lines(&self) -> (lines: Vec<String>)
        ensures
            texts(lines@) == report_lines(*self),
    {
        let mut lines: Vec<String> = Vec::new();
        if self.runs == 0 {
            lines.push(String::from_str("timing: no finished run to report on"));
        } else {
            let mut header = String::from_str("timing report over ");
            push_decimal(&mut header, self.runs as u64);
            header.append(" run(s)");
            lines.push(header);
            let mut i: usize = 0;
            while i < self.steps.len()
                invariant
                    i <= self.steps@.len(),
                    self.runs != 0,
                    texts(lines@) == seq![header_line(self.runs as nat)]
                        + Seq::new(i as nat, |k: int| step_line((k + 1) as nat, self.steps@[k])),
                decreases self.steps.len() - i,
            {
                let stats = &self.steps[i];
                let mut line = String::from_str("  #");
                push_decimal(&mut line, (i + 1) as u64);
                line.append(" ");
                push_padded_right(&mut line, stats.label, 20);
                line.append(" median ");
                let median_text = millis_string(stats.median);
                push_padded_left(&mut line, median_text.as_str(), 9);
                line.append("  p95 ");
                let p95_text = millis_string(stats.p95);
                push_padded_left(&mut line, p95_text.as_str(), 9);
                line.append("  (");
                push_decimal(&mut line, stats.samples as u64);
                line.append(" sample(s))");
                assert(line@ =~= step_line((i + 1) as nat, self.steps@[i as int]));
                let ghost before = lines@;
                lines.push(line);
                assert(texts(lines@) =~= texts(before).push(line@));
                i = i + 1;
                assert(texts(lines@) =~= seq![header_line(self.runs as nat)]
                    + Seq::new(i as nat, |k: int| step_line((k + 1) as nat, self.steps@[k])));
            }
            let mut total = String::from_str("  ");
            push_padded_right(&mut total, "TOTAL", 21);
            total.append(" median ");
            let median_text = millis_string(self.total_median);
            push_padded_left(&mut total, median_text.as_str(), 9);
            total.append("  p95 ");
            let p95_text = millis_string(self.total_p95);
            push_padded_left(&mut total, p95_text.as_str(), 9);
            total.append("  (nearest-rank p95)");
            lines.push(total);
        }
        let ghost body = texts(lines@);
        let notes = self.anomaly_lines();
        let mut j: usize = 0;
        while j < notes.len()
            invariant
                j <= notes@.len(),
                texts(lines@) == body + texts(notes@).subrange(0, j as int),
            decreases notes.len() - j,
        {
            let note = notes[j].clone();
            assert(note@ == texts(notes@)[j as int]);
            let ghost before = lines@;
            lines.push(note);
            assert(texts(lines@) =~= texts(before).push(note@));
            j = j + 1;
            assert(texts(lines@) =~= body + texts(notes@).subrange(0, j as int));
        }
        assert(texts(notes@).subrange(0, notes@.len() as int) =~= texts(notes@));
        assert(texts(lines@) =~= report_lines(*self));
        lines
    }

    /// The notes on discarded runs and ignored marks.
    pub fn anomaly_lines(&self) -> (lines: Vec<String>)
        ensures
            texts(lines@) == anomaly_lines_of(self.discarded_runs as nat, self.ignored_marks as nat),
    {
        let mut lines: Vec<String> = Vec::new();
        if self.discarded_runs > 0 {
            let mut line = String::from_str("  note: ");
            push_decimal(&mut line, self.discarded_runs as u64);
            line.append(" run(s) discarded (never finished, or empty)");
            lines.push(line);
        }
        if self.ignored_marks > 0 {
            let mut line = String::from_str("  note: ");
            push_decimal(&mut line, self.ignored_marks as u64);
            line.append(" mark(s) ignored (no open run, duplicate, or cap reached)");
            lines.push(line);
        }
        assert(texts(lines@) =~= anomaly_lines_of(self.discarded_runs as nat, self.ignored_marks as nat));
        lines
    }
}

/// A percentile is always one of the samples, never a value in between, and
/// the 100th is the largest of them.
pub proof fn law_percentile_is_a_sample(samples: Seq<u64>, p: nat)
    requires
        samples.len() > 0,
    ensures
        percentile_of(samples, p) matches Some(value) && samples.contains(value) && (p >= 100 ==> forall|i: int|
            0 <= i < samples.len() ==> samples[i] <= value),
{
    broadcast use vstd::seq_lib::group_to_multiset_ensures;

    lemma_ascending(samples);
    let sorted = ascending(samples);
    let rank = nearest_rank(p, samples.len());
    let value = sorted[rank - 1];
    assert(sorted.contains(value));
    assert(sorted.to_multiset().count(value) > 0);
    assert(samples.to_multiset().count(value) > 0);
    if p >= 100 {
        assert((p * samples.len() + 99) / 100 >= samples.len()) by (nonlinear_arith)
            requires
                p >= 100,
        ;
        assert forall|i: int| 0 <= i < samples.len() implies samples[i] <= value by {
            assert(samples.to_multiset().count(samples[i]) > 0);
            assert(sorted.to_multiset().count(samples[i]) > 0);
            assert(sorted.contains(samples[i]));
            let k = choose|k: int| 0 <= k < sorted.len() && sorted[k] == samples[i];
            assert(sorted[k] <= sorted[samples.len() - 1]);
        }
    }
}

/// What a report says, each step's label taken as its characters.
pub open spec fn report_view(report: Report) -> (nat, Seq<(Seq<char>, u64, u64, nat)>, u64, u64, nat, nat) {
    (
        report.runs as nat,
        report.steps@.map_values(|s: StepStats| (s.label@, s.median, s.p95, s.samples as nat)),
        report.total_median,
        report.total_p95,
        report.discarded_runs as nat,
        report.ignored_marks as nat,
    )
}

/// A report is a function of the finished runs and the two counters alone:
/// two reports of instruments whose finished runs and counters agree say the
/// same thing, whatever run is still open in either. Asking twice gives the
/// same report, and an open run contributes nothing to it.
pub proof fn law_report_depends_on_finished_runs_only(t1: Timings, t2: Timings, r1: Report, r2: Report)
    requires
        reports_on(r1, t1.finished_runs(), t1.discarded() as nat, t1.ignored() as nat),
        reports_on(r2, t2.finished_runs(), t2.discarded() as nat, t2.ignored() as nat),
        t1.finished_runs() == t2.finished_runs(),
        t1.discarded() == t2.discarded(),
        t1.ignored() == t2.ignored(),
    ensures
        report_view(r1) == report_view(r2),
{
    let entries = flat_gaps(t1.finished_runs());
    let order = first_seen(entries);
    assert forall|i: int| 0 <= i < order.len() implies r1.steps@[i].label@ == r2.steps@[i].label@
        && r1.steps@[i].median == r2.steps@[i].median && r1.steps@[i].p95 == r2.steps@[i].p95
        && r1.steps@[i].samples == r2.steps@[i].samples by {
        assert(summarizes(r1.steps@[i], entries, order[i]));
        assert(summarizes(r2.steps@[i], entries, order[i]));
    }
    assert(report_view(r1).1 =~= report_view(r2).1);
}

/// Whether `k` is the nearest rank of the `p`th percentile among `n` samples:
/// the least rank whose share `k / n` reaches `p / 100`, at least the first
/// and at most the last.
pub open spec fn is_nearest_rank(k: nat, p: nat, n: nat) -> bool {
    &&& 1 <= k <= n
    &&& (k == 1 || 100 * (k - 1) < p * n)
    &&& (k == n || p * n <= 100 * k)
}

proof fn lemma_rank_is_nearest(p: nat, n: nat, k: nat)
    requires
        is_nearest_rank(k, p, n),
    ensures
        nearest_rank(p, n) == k,
{
    let m = p * n;
    let raw = (m + 99) / 100;
    if k > 1 {
        assert(raw >= k) by (nonlinear_arith)
            requires
                100 * (k - 1) < m,
                raw == (m + 99) / 100,
                k > 1,
        ;
    }
    if k < n {
        assert(raw <= k) by (nonlinear_arith)
            requires
                m <= 100 * k,
                raw == (m + 99) / 100,
        ;
    }
}

/// The `p`th percentile of a non-empty series is the sample at its nearest
/// rank in ascending order: for whatever ascending arrangement `sorted` of the
/// same samples, and the least rank `k` with `100 * k >= p * n` (the first
/// when that is none, the last at most), it is `sorted[k - 1]`. So the 95th of
/// 19 samples is the largest, and of 20 samples the 19th smallest.
pub proof fn law_percentile_is_the_nearest_rank(samples: Seq<u64>, sorted: Seq<u64>, p: nat, k: nat)
    requires
        is_ascending(sorted),
        sorted.to_multiset() == samples.to_multiset(),
        is_nearest_rank(k, p, samples.len()),
    ensures
        percentile_of(samples, p) == Some(sorted[k - 1]),
{
    lemma_ascending(samples);
    lemma_ascending_unique(ascending(samples), sorted);
    lemma_rank_is_nearest(p, samples.len(), k);
}

/// The median of a non-empty series, over whatever ascending arrangement of
/// it: the middle sample on an odd count, the mean of the two middle ones,
/// rounded down, on an even count.
pub proof fn law_median_is_the_middle(samples: Seq<u64>, sorted: Seq<u64>)
    requires
        samples.len() > 0,
        is_ascending(sorted),
        sorted.to_multiset() == samples.to_multiset(),
    ensures
        median_of(samples) == Some(
            if samples.len() % 2 == 1 {
                sorted[(samples.len() / 2) as int]
            } else {
                ((sorted[samples.len() / 2 - 1] + sorted[(samples.len() / 2) as int]) / 2) as u64
            },
        ),
{
    lemma_ascending(samples);
    lemma_ascending_unique(ascending(samples), sorted);
}

/// Every step line of a report stands on the gaps of that step alone: for an
/// ascending arrangement `sorted` of the gaps recorded under its label, its
/// count is theirs, its p95 is the one at the nearest rank of the 95th
/// percentile (the 19th smallest of 20, never the largest unless the two
/// largest are equal), and its median is the middle of them.
pub proof fn law_step_figures_are_the_steps_own(
    report: Report,
    runs: Seq<Seq<Step>>,
    discarded: nat,
    ignored: nat,
    i: int,
    sorted: Seq<u64>,
    k: nat,
)
    requires
        reports_on(report, runs, discarded, ignored),
        0 <= i < report.steps@.len(),
        is_ascending(sorted),
        sorted.to_multiset() == samples_of(flat_gaps(runs), report.steps@[i].label@).to_multiset(),
        is_nearest_rank(k, 95, sorted.len()),
    ensures
        report.steps@[i].samples == sorted.len(),
        report.steps@[i].p95 == sorted[k - 1],
        report.steps@[i].median == if sorted.len() % 2 == 1 {
            sorted[(sorted.len() / 2) as int]
        } else {
            ((sorted[sorted.len() / 2 - 1] + sorted[(sorted.len() / 2) as int]) / 2) as u64
        },
{
    broadcast use vstd::seq_lib::group_to_multiset_ensures;

    let entries = flat_gaps(runs);
    let order = first_seen(entries);
    assert(summarizes(report.steps@[i], entries, order[i]));
    let samples = samples_of(entries, order[i]);
    assert(sorted.to_multiset().len() == sorted.len());
    assert(samples.to_multiset().len() == samples.len());
    law_percentile_is_the_nearest_rank(samples, sorted, 95, k);
    law_median_is_the_middle(samples, sorted);
}

/// The whole-run p95 of a report is the run total at the nearest rank of the
/// 95th percentile among the totals of the finished runs, in ascending order.
pub proof fn law_total_p95_is_the_nearest_rank(
    report: Report,
    runs: Seq<Seq<Step>>,
    discarded: nat,
    ignored: nat,
    sorted: Seq<u64>,
    k: nat,
)
    requires
        reports_on(report, runs, discarded, ignored),
        is_ascending(sorted),
        sorted.to_multiset() == totals(runs).to_multiset(),
        is_nearest_rank(k, 95, sorted.len()),
    ensures
        report.total_p95 == sorted[k - 1],
        report.total_median == if sorted.len() % 2 == 1 {
            sorted[(sorted.len() / 2) as int]
        } else {
            ((sorted[sorted.len() / 2 - 1] + sorted[(sorted.len() / 2) as int]) / 2) as u64
        },
{
    broadcast use vstd::seq_lib::group_to_multiset_ensures;

    assert(sorted.to_multiset().len() == sorted.len());
    assert(totals(runs).to_multiset().len() == totals(runs).len());
    law_percentile_is_the_nearest_rank(totals(runs), sorted, 95, k);
    law_median_is_the_middle(totals(runs), sorted);
}

/// In the rendering of a report with finished runs, the line of step `i`
/// shows its rank and label, then after `median` the millisecond text of the
/// step's median and after `p95` that of its p95, each right-aligned on nine
/// characters, then its sample count.
pub proof fn law_step_line_shows_each_figure_in_its_place(report: Report, i: int)
    requires
        report.runs > 0,
        0 <= i < report.steps@.len(),
    ensures
        report_lines(report)[i + 1] == "  #"@ + decimal((i + 1) as nat) + " "@ + pad_right(
            report.steps@[i].label@,
            20,
        ) + " median "@ + pad_left(millis_text(report.steps@[i].median as nat), 9) + "  p95 "@ + pad_left(
            millis_text(report.steps@[i].p95 as nat),
            9,
        ) + "  ("@ + decimal(report.steps@[i].samples as nat) + " sample(s))"@,
{
    let lines = report_lines(report);
    let body = Seq::new(report.steps@.len(), |j: int| step_line((j + 1) as nat, report.steps@[j]));
    assert(lines[i + 1] == body[i]);
}

/// A step's offset counts from the opening of its own run, never from the
/// making of the instrument: a mark right after `begin_run` records the time
/// between the two clock readings, so nothing when no time passed between
/// them, whatever time went by before the run was opened.
pub proof fn law_first_offset_counts_from_begin_run(t0: Timings, t1: Timings, t2: Timings, label: Seq<char>)
    requires
        opened(t0, t1),
        marked(t1, t2, label),
    ensures
        t2.open_run() matches Some(steps) && steps.len() == 1 && steps[0].label@ == label && steps[0].at == if t2.last_reading()
            >= t1.last_reading() {
            t2.last_reading() - t1.last_reading()
        } else {
            0
        },
        t2.last_reading() == t1.last_reading() ==> t2.open_run().unwrap()[0].at == 0,
{
    assert(!has_label(Seq::<Step>::empty(), label));
    assert(t2.open_run().unwrap().drop_last() == Seq::<Step>::empty());
}

/// Along a run opened by `begin_run` and followed by marks, every step a mark
/// records carries the clock reading of that mark minus the reading taken
/// when the run was opened, or zero were the clock to go back.
pub proof fn law_every_offset_counts_from_begin_run(states: Seq<Timings>, labels: Seq<Seq<char>>, j: int)
    requires
        states.len() == labels.len() + 2,
        opened(states[0], states[1]),
        forall|m: int| 0 <= m < labels.len() ==> marked(states[m + 1], states[m + 2], #[trigger] labels[m]),
        0 <= j < labels.len(),
        states[j + 2].open_run() != states[j + 1].open_run(),
    ensures
        states[j + 2].open_run().unwrap().last().at == if states[j + 2].last_reading() >= states[1].last_reading() {
            states[j + 2].last_reading() - states[1].last_reading()
        } else {
            0
        },
{
    assert(marked(states[j + 1], states[j + 2], labels[j]));
    lemma_marks_keep_the_run_start(states, labels, j + 1);
}

proof fn lemma_marks_keep_the_run_start(states: Seq<Timings>, labels: Seq<Seq<char>>, m: int)
    requires
        states.len() == labels.len() + 2,
        opened(states[0], states[1]),
        forall|x: int| 0 <= x < labels.len() ==> marked(states[x + 1], states[x + 2], #[trigger] labels[x]),
        1 <= m <= labels.len() + 1,
    ensures
        states[m].run_started() == states[1].last_reading(),
    decreases m,
{
    if m > 1 {
        assert(marked(states[m - 1], states[m], labels[m - 2]));
        lemma_marks_keep_the_run_start(states, labels, m - 1);
    }
}

/// In the rendering of a report with finished runs, the line after the steps
/// is the whole run's: `TOTAL`, then after `median` the millisecond text of
/// the total median and after `p95` that of the total p95.
pub proof fn law_total_line_shows_each_figure_in_its_place(report: Report)
    requires
        report.runs > 0,
    ensures
        report_lines(report)[report.steps@.len() as int + 1] == "  "@ + pad_right("TOTAL"@, 21) + " median "@ + pad_left(
            millis_text(report.total_median as nat),
            9,
        ) + "  p95 "@ + pad_left(millis_text(report.total_p95 as nat), 9) + "  (nearest-rank p95)"@,
{
}

/// The sum of a series of durations.
pub open spec fn sum_of(values: Seq<u64>) -> nat
    decreases values.len(),
{
    if values.len() == 0 {
        0
    } else {
        sum_of(values.drop_last()) + values.last() as nat
    }
}

/// The times the steps themselves took.
pub open spec fn gap_values(steps: Seq<Step>) -> Seq<u64> {
    Seq::new(steps.len(), |i: int| gaps(steps)[i].1)
}

/// The time each step took adds up to the run: along offsets that never go
/// back, the step gaps sum to the last offset, and each gap is the distance
/// from the step before.
pub proof fn law_step_gaps_add_up_to_the_run(steps: Seq<Step>)
    requires
        steps.len() > 0,
        forall|i: int, j: int| 0 <= i < j < steps.len() ==> steps[i].at <= steps[j].at,
    ensures
        sum_of(gap_values(steps)) == steps.last().at,
        forall|i: int| 0 < i < steps.len() ==> #[trigger] gap_values(steps)[i] + steps[i - 1].at == steps[i].at,
    decreases steps.len(),
{
    let shorter = steps.drop_last();
    assert(gap_values(steps).drop_last() =~= gap_values(shorter)) by {
        assert forall|i: int| 0 <= i < shorter.len() implies gap_at(steps, i) == gap_at(shorter, i) by {}
    }
    let n = steps.len() - 1;
    assert(gap_values(steps).last() == gap_at(steps, n));
    assert(sum_of(gap_values(steps)) == sum_of(gap_values(shorter)) + gap_at(steps, n));
    if shorter.len() > 0 {
        law_step_gaps_add_up_to_the_run(shorter);
        assert(steps[n - 1].at <= steps[n].at);
        assert(shorter.last() == steps[n - 1]);
    } else {
        assert(sum_of(gap_values(shorter)) == 0);
    }
    assert forall|i: int| 0 < i < steps.len() implies #[trigger] gap_values(steps)[i] + steps[i - 1].at == steps[i].at by {
        assert(steps[i - 1].at <= steps[i].at);
    }
}

} // verus!
