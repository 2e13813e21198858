//! Putting a cut region on the system clipboard: the size rule that tells a
//! drag from a click, the checks made before a buffer meets a foreign API,
//! and the clipboard step's own instrument, kept apart from the pipeline's.
use vstd::prelude::*;
use vstd::string::*;
use crate::capture::{Frame, rgba_len};
use crate::text::{decimal, millis_text, push_decimal, push_millis};
use crate::timing::{finished, marked, report_lines, reports_on, texts, Timings, Report};

verus! {

/// Timing label for the clipboard write. Not one of the pipeline's labels: it
/// belongs to another instrument and another report.
pub const MARK_CLIPBOARD: &'static str = "clipboard";

/// Bytes per pixel in RGBA8, as the clipboard reads it.
pub const IMAGE_BYTES_PER_PIXEL: u64 = 4;

/// The smallest selection worth putting on the clipboard, in physical pixels
/// of area: 64, an 8 x 8 square. It sits between the biggest plausible
/// accidental click (4 x 4) and the smallest deliberate capture (16 x 16), four
/// times away from each.
pub const MIN_COPYABLE_AREA_PX: u64 = 64;

/// The area of a `width` x `height` rectangle, computed in 64 bits.
fn area_of(width: u32, height: u32) -> (area: u64)
    ensures
        area == width * height,
{
    assert(width as u64 * height as u64 <= 0xffff_ffffu64 * 0xffff_ffffu64) by (nonlinear_arith)
        requires
            width <= 0xffff_ffffu64,
            height <= 0xffff_ffffu64,
    ;
    width as u64 * height as u64
}

/// Whether a selection of this size is big enough to be worth the clipboard.
/// The threshold itself is accepted, and the area is computed without
/// wrapping.
pub fn is_worth_copying(width: u32, height: u32) -> (worth: bool)
    ensures
        worth == (width * height >= MIN_COPYABLE_AREA_PX),
{
    let area: u64 = area_of(width, height);
    area >= MIN_COPYABLE_AREA_PX
}

/// The refusal of a selection too small to copy.
pub open spec fn too_small_text(width: u32, height: u32) -> Seq<char> {
    "a selection of "@ + decimal(width as nat) + "x"@ + decimal(height as nat) + " physical px covers "@
        + decimal(width as nat * height as nat) + " px, below the 64 px this tool treats as a deliberate drag; the clipboard was NOT touched"@
}

/// The refusal, naming the size, the area and the threshold.
pub fn too_small_line(width: u32, height: u32) -> (line: String)
    ensures
        line@ == too_small_text(width, height),
{
    let area: u64 = area_of(width, height);
    let mut line = String::from_str("a selection of ");
    push_decimal(&mut line, width as u64);
    line.append("x");
    push_decimal(&mut line, height as u64);
    line.append(" physical px covers ");
    push_decimal(&mut line, area);
    line.append(
        " px, below the 64 px this tool treats as a deliberate drag; the clipboard was NOT touched",
    );
    line
}

/// Why an image with a zero dimension cannot go on the clipboard.
pub open spec fn empty_image_text(width: u32, height: u32) -> Seq<char> {
    "an image of "@ + decimal(width as nat) + "x"@ + decimal(height as nat)
        + " has no pixels; it cannot go on the clipboard"@
}

/// Why a buffer whose length contradicts its dimensions is refused.
pub open spec fn image_length_text(actual: nat, width: u32, height: u32) -> Seq<char> {
    decimal(actual) + " byte(s) cannot describe a "@ + decimal(width as nat) + "x"@ + decimal(height as nat)
        + " RGBA image, which needs "@ + decimal(rgba_len(width as nat, height as nat))
}

/// The checks made on RGBA bytes before they are wrapped in the clipboard's
/// image type, which stores them on trust: no zero dimension, and exactly
/// `width * height * 4` bytes.
pub fn check_image(width: u32, height: u32, rgba: &[u8]) -> (checked: Result<(), String>)
    requires
        rgba_len(width as nat, height as nat) <= u64::MAX,
    ensures
        match checked {
            Ok(()) => width > 0 && height > 0 && rgba@.len() == rgba_len(width as nat, height as nat),
            Err(message) => if width == 0 || height == 0 {
                message@ == empty_image_text(width, height)
            } else {
                rgba@.len() != rgba_len(width as nat, height as nat) && message@ == image_length_text(
                    rgba@.len(),
                    width,
                    height,
                )
            },
        },
{
    if width == 0 || height == 0 {
        let mut message = String::from_str("an image of ");
        push_decimal(&mut message, width as u64);
        message.append("x");
        push_decimal(&mut message, height as u64);
        message.append(" has no pixels; it cannot go on the clipboard");
        return Err(message);
    }
    let expected: u64 = width as u64 * height as u64 * IMAGE_BYTES_PER_PIXEL;
    let actual: u64 = rgba.len() as u64;
    if actual != expected {
        let mut message = String::new();
        push_decimal(&mut message, actual);
        message.append(" byte(s) cannot describe a ");
        push_decimal(&mut message, width as u64);
        message.append("x");
        push_decimal(&mut message, height as u64);
        message.append(" RGBA image, which needs ");
        push_decimal(&mut message, expected);
        assert(message@ =~= image_length_text(rgba@.len(), width, height));
        return Err(message);
    }
    Ok(())
}

/// What a cut has to pass before it may reach the clipboard: the size is
/// judged first, so a click is refused before anything else is looked at.
pub fn check_cut(cut: &Frame) -> (checked: Result<(), String>)
    ensures
        match checked {
            Ok(()) => cut@.width * cut@.height >= MIN_COPYABLE_AREA_PX,
            Err(message) => cut@.width * cut@.height < MIN_COPYABLE_AREA_PX && message@ == too_small_text(
                cut@.width,
                cut@.height,
            ),
        },
{
    let width = cut.width();
    let height = cut.height();
    if !is_worth_copying(width, height) {
        return Err(too_small_line(width, height));
    }
    let pixels = cut.pixels();
    let length: usize = pixels.len();
    match check_image(width, height, pixels) {
        Ok(()) => Ok(()),
        Err(message) => {
            assert(false);
            Err(message)
        },
    }
}

/// What a successful copy is worth reporting.
#[derive(Debug, Clone, Copy, PartialEq, Eq)]
pub struct Copied {
    /// How long the write itself took, in nanoseconds.
    pub elapsed: u64,
    /// How many copies this process has filed.
    pub copies: usize,
}

/// The first line of the clipboard report, which says it is not the
/// pipeline's.
pub open spec fn meter_header(copies: nat) -> Seq<char> {
    "clipboard: "@ + decimal(copies)
        + " copy/copies - this step is OUTSIDE the 150 ms budget, which ends at `painted`. It happens after the user's drag, at human speed; do NOT add it to the pipeline total."@
}

/// The clipboard step's own instrument: a timing instrument of its own and a
/// count of the copies filed.
pub struct Meter {
    timings: Timings,
    copies: usize,
}

impl Meter {
    /// The instrument the meter files its step into.
    pub closed spec fn instrument(&self) -> Timings {
        self.timings
    }

    /// How many copies have been filed.
    pub closed spec fn filed_copies(&self) -> usize {
        self.copies
    }

    /// A meter with nothing recorded.
    pub fn new() -> (meter: Self)
        ensures
            meter.instrument().open_run() is None,
            meter.instrument().finished_runs().len() == 0,
            meter.instrument().discarded() == 0,
            meter.instrument().ignored() == 0,
            meter.filed_copies() == 0,
    {
        Meter { timings: Timings::new(), copies: 0 }
    }

    /// Opens the step.
    pub fn begin(&mut self)
        ensures
            final(self).instrument().open_run() == Some(Seq::<crate::timing::Step>::empty()),
            final(self).instrument().finished_runs() == old(self).instrument().finished_runs(),
            final(self).instrument().discarded() == if old(self).instrument().open_run() is Some {
                crate::timing::bumped(old(self).instrument().discarded())
            } else {
                old(self).instrument().discarded()
            },
            final(self).instrument().ignored() == old(self).instrument().ignored(),
            final(self).filed_copies() == old(self).filed_copies(),
    {
        self.timings.begin_run();
    }

    /// Files a successful write and returns how many have been filed,
    /// saturating.
    pub fn filed(&mut self) -> (copies: usize)
        ensures
            exists|middle: Timings|
                marked(old(self).instrument(), middle, MARK_CLIPBOARD@) && finished(middle, final(self).instrument()),
            copies == final(self).filed_copies(),
            copies == crate::timing::bumped(old(self).filed_copies()),
    {
        self.timings.mark(MARK_CLIPBOARD);
        let ghost middle = self.timings;
        self.timings.finish_run();
        self.copies = self.copies.saturating_add(1);
        assert(marked(old(self).instrument(), middle, MARK_CLIPBOARD@) && finished(middle, self.instrument()));
        self.copies
    }

    /// Throws a failed write away: it has no latency to report.
    pub fn abandoned(&mut self)
        ensures
            final(self).instrument().open_run() is None,
            final(self).instrument().finished_runs() == old(self).instrument().finished_runs(),
            final(self).instrument().discarded() == if old(self).instrument().open_run() is Some {
                crate::timing::bumped(old(self).instrument().discarded())
            } else {
                old(self).instrument().discarded()
            },
            final(self).instrument().ignored() == old(self).instrument().ignored(),
            final(self).filed_copies() == old(self).filed_copies(),
    {
        self.timings.abandon_run();
    }

    /// Files what the clipboard answered to one write that took `elapsed`
    /// nanoseconds: a refusal is thrown away and comes back as the error to
    /// show; a success is filed and counted.
    pub fn record_write(&mut self, written: Result<(), String>, elapsed: u64) -> (copied: Result<Copied, String>)
        ensures
            match written {
                Ok(()) => {
                    &&& copied matches Ok(c) && c.elapsed == elapsed && c.copies == final(self).filed_copies()
                    &&& final(self).filed_copies() == crate::timing::bumped(old(self).filed_copies())
                    &&& exists|middle: Timings|
                        marked(old(self).instrument(), middle, MARK_CLIPBOARD@) && finished(middle, final(self).instrument())
                },
                Err(error) => {
                    &&& copied matches Err(message) && message@ == "the clipboard refused the image: "@ + error@
                    &&& final(self).instrument().open_run() is None
                    &&& final(self).instrument().finished_runs() == old(self).instrument().finished_runs()
                    &&& final(self).filed_copies() == old(self).filed_copies()
                },
            },
    {
        match written {
            Ok(()) => {
                let copies = self.filed();
                Ok(Copied { elapsed, copies })
            },
            Err(error) => {
                self.abandoned();
                let mut message = String::from_str("the clipboard refused the image: ");
                message.append(error.as_str());
                Err(message)
            },
        }
    }

    /// The report, headed by the one line that stops it being read as the
    /// pipeline's.
    pub fn report_lines(&self) -> (lines: Vec<String>)
        ensures
            exists|report: Report|
                reports_on(
                    report,
                    self.instrument().finished_runs(),
                    self.instrument().discarded() as nat,
                    self.instrument().ignored() as nat,
                ) && texts(lines@) == seq![meter_header(self.filed_copies() as nat)] + report_lines(report),
    {
        let mut header = String::from_str("clipboard: ");
        push_decimal(&mut header, self.copies as u64);
        header.append(
            " copy/copies - this step is OUTSIDE the 150 ms budget, which ends at `painted`. It happens after the user's drag, at human speed; do NOT add it to the pipeline total.",
        );
        let report = self.timings.report();
        let rest = report.lines();
        let mut lines: Vec<String> = Vec::new();
        lines.push(header);
        let mut i: usize = 0;
        while i < rest.len()
            invariant
                i <= rest@.len(),
                texts(lines@) == seq![meter_header(self.copies as nat)] + texts(rest@).subrange(0, i as int),
            decreases rest.len() - i,
        {
            let ghost before = lines@;
            lines.push(rest[i].clone());
            assert(texts(lines@) =~= texts(before).push(rest@[i as int]@));
            i = i + 1;
            assert(texts(rest@).subrange(0, i as int) =~= texts(rest@).subrange(0, i - 1).push(rest@[i - 1]@));
        }
        assert(texts(rest@).subrange(0, rest@.len() as int) =~= texts(rest@));
        assert(reports_on(
            report,
            self.instrument().finished_runs(),
            self.instrument().discarded() as nat,
            self.instrument().ignored() as nat,
        ) && texts(lines@) == seq![meter_header(self.filed_copies() as nat)] + report_lines(report));
        lines
    }
}

/// The line printed when a copy succeeds.
pub open spec fn success_text(run: u64, width: u32, height: u32, bytes: usize, elapsed: u64) -> Seq<char> {
    "[cliche] clipboard: run "@ + decimal(run as nat) + " copied "@ + decimal(width as nat) + "x"@
        + decimal(height as nat) + " physical px ("@ + decimal(bytes as nat) + " RGBA byte(s)) in "@
        + millis_text(elapsed as nat) + " - OUTSIDE the 150 ms budget, which ends at `painted`"@
}

/// The line printed when a copy succeeds, with the write's duration in
/// nanoseconds shown as milliseconds with one decimal.
pub fn success_line(run: u64, width: u32, height: u32, bytes: usize, elapsed: u64) -> (line: String)
    ensures
        line@ == success_text(run, width, height, bytes, elapsed),
{
    let mut line = String::from_str("[cliche] clipboard: run ");
    push_decimal(&mut line, run);
    line.append(" copied ");
    push_decimal(&mut line, width as u64);
    line.append("x");
    push_decimal(&mut line, height as u64);
    line.append(" physical px (");
    push_decimal(&mut line, bytes as u64);
    line.append(" RGBA byte(s)) in ");
    push_millis(&mut line, elapsed);
    line.append(" - OUTSIDE the 150 ms budget, which ends at `painted`");
    line
}

} // verus!
