//! The veil: a preheated, hidden, full-screen window that paints the frozen
//! screen, the two transports that carry the pixels to it, and the state that
//! decides which run may be shown, served, cut or released.
//!
//! The window, the webview and the clock belong to the application; every
//! decision they wait on is taken here, over plain values.
use vstd::prelude::*;
use vstd::string::*;
use crate::capture::{crop, encode_bmp, encode_png, bmp_header, bmp_refusal, png_encoding, Frame, FrameView, MARK_CAPTURE};
use crate::clipboard::{is_worth_copying, too_small_line, too_small_text, MIN_COPYABLE_AREA_PX};
use crate::geometry::PhysicalRect;
use crate::ipc::{ensure_from, wrong_window_text};
use crate::settings::{is_white, is_white_char, white_end};
use crate::text::{chars_of, decimal, push_char, push_decimal, push_range};
use crate::timing::{bumped, finished, marked, Timings};

verus! {

/// Label of the veil window.
pub const VEIL_WINDOW_LABEL: &'static str = "veil";

/// Name of the custom URI scheme the frozen frame is served on.
pub const VEIL_SCHEME: &'static str = "cliche";

/// The origin WebView2 turns the scheme into on Windows.
pub const VEIL_ORIGIN: &'static str = "http://cliche.localhost";

/// Timing label for building and staging the payload.
pub const MARK_TRANSPORT: &'static str = "transport";

/// Timing label for the page reporting the frame decoded, window still hidden.
pub const MARK_DECODED: &'static str = "decoded";

/// Timing label for the window becoming visible.
pub const MARK_SHOWN: &'static str = "shown";

/// Timing label for the webview's paint acknowledgement.
pub const MARK_PAINTED: &'static str = "painted";

/// Environment variable choosing the transport, read once at startup.
pub const TRANSPORT_ENV: &'static str = "CLICHE_TRANSPORT";

/// Environment variable asking for a number of automated runs.
pub const BENCH_ENV: &'static str = "CLICHE_BENCH";

/// How long after the page was handed the frame the veil is shown anyway, in
/// nanoseconds: 250 ms. A run rescued this way is abandoned, never measured.
pub const SHOW_FALLBACK_NANOS: u64 = 250_000_000;

/// The decode p95 the fallback is chosen against, in nanoseconds: 94.3 ms,
/// measured over 18 clean runs. A justification, not a value the application
/// reads.
pub const DECODE_P95_MEASURED_NANOS: u64 = 94_300_000;

/// How long a benchmark run waits for its acknowledgement, in nanoseconds.
pub const BENCH_RUN_TIMEOUT_NANOS: u64 = 3_000_000_000;

/// How long the veil stays hidden between benchmark runs, in nanoseconds.
pub const BENCH_SETTLE_NANOS: u64 = 400_000_000;

/// How long the benchmark waits after startup before its first run, in
/// nanoseconds.
pub const BENCH_WARMUP_NANOS: u64 = 3_000_000_000;

/// Prefix of a transport-B data URL.
pub const DATA_URL_PREFIX: &'static str = "data:image/png;base64,";

/// How the frozen frame reaches the page.
#[derive(Debug, Clone, Copy, PartialEq, Eq, Structural)]
pub enum Transport {
    /// A: a BMP served from memory on the custom scheme.
    CustomProtocolBmp,
    /// B: a PNG, in base64, pushed into the page as a `data:` URL.
    DataUrlPng,
}

/// Value accepted for transport A.
pub const NAME_BMP: &'static str = "bmp";

/// Value accepted for transport B.
pub const NAME_PNG: &'static str = "png";

/// `c` with an ASCII capital letter turned into its small letter.
pub open spec fn ascii_lower(c: char) -> u32 {
    if 'A' <= c && c <= 'Z' {
        (c as u32 + 32) as u32
    } else {
        c as u32
    }
}

/// Whether two texts are equal once ASCII letters are compared without case.
pub open spec fn same_ignoring_ascii_case(a: Seq<char>, b: Seq<char>) -> bool {
    a.len() == b.len() && forall|i: int| 0 <= i < a.len() ==> #[trigger] ascii_lower(a[i]) == ascii_lower(b[i])
}

/// Where a text ends once trailing white space is dropped.
pub open spec fn white_start(text: Seq<char>, j: int) -> int
    decreases j,
{
    if 0 < j <= text.len() && is_white(text[j - 1]) {
        white_start(text, j - 1)
    } else {
        j
    }
}

/// A text with its leading and trailing white space removed, as `str::trim`
/// does it.
pub open spec fn trimmed(text: Seq<char>) -> Seq<char> {
    let rest = text.subrange(white_end(text, 0), text.len() as int);
    rest.subrange(0, white_start(rest, rest.len() as int))
}

/// The warning printed when the transport value is not understood.
pub open spec fn transport_warning_text(raw: Seq<char>) -> Seq<char> {
    "[cliche] veil: CLICHE_TRANSPORT=\""@ + raw
        + "\" is not understood; expected \"bmp\" or \"png\". FALLING BACK to \"bmp\" - the figures below are transport A, whatever you meant to measure."@
}

/// What the transport variable selects.
pub open spec fn transport_choice(raw: Option<Seq<char>>) -> (Transport, Option<Seq<char>>) {
    match raw {
        None => (Transport::CustomProtocolBmp, None),
        Some(text) => if same_ignoring_ascii_case(trimmed(text), "bmp"@) {
            (Transport::CustomProtocolBmp, None)
        } else if same_ignoring_ascii_case(trimmed(text), "png"@) {
            (Transport::DataUrlPng, None)
        } else {
            (Transport::CustomProtocolBmp, Some(transport_warning_text(text)))
        },
    }
}

/// An optional text, as characters.
pub open spec fn optional_text(text: Option<String>) -> Option<Seq<char>> {
    match text {
        Some(t) => Some(t@),
        None => None,
    }
}

/// An optional borrowed text, as characters.
pub open spec fn optional_str(text: Option<&str>) -> Option<Seq<char>> {
    match text {
        Some(t) => Some(t@),
        None => None,
    }
}

/// The code of `c` with an ASCII capital turned small, in executable form.
fn lower_code(c: char) -> (code: u32)
    ensures
        code == ascii_lower(c),
{
    if 'A' <= c && c <= 'Z' {
        c as u32 + 32
    } else {
        c as u32
    }
}

/// Whether `a` from `start` to `end` spells `b`, ASCII letters compared
/// without case.
fn same_ignoring_case_in(a: &Vec<char>, start: usize, end: usize, b: &str) -> (same: bool)
    requires
        start <= end <= a@.len(),
    ensures
        same == same_ignoring_ascii_case(a@.subrange(start as int, end as int), b@),
{
    let wanted = chars_of(b);
    let ghost part = a@.subrange(start as int, end as int);
    if end - start != wanted.len() {
        return false;
    }
    let mut i: usize = 0;
    while i < wanted.len()
        invariant
            wanted@ == b@,
            part == a@.subrange(start as int, end as int),
            end - start == wanted@.len(),
            end <= a@.len(),
            i <= wanted@.len(),
            forall|k: int| 0 <= k < i ==> #[trigger] ascii_lower(part[k]) == ascii_lower(wanted@[k]),
        decreases wanted.len() - i,
    {
        if lower_code(a[start + i]) != lower_code(wanted[i]) {
            assert(part[i as int] == a@[start + i]);
            return false;
        }
        assert(part[i as int] == a@[start + i]);
        i = i + 1;
    }
    true
}

/// Where the trimmed text lies in `chars`: after leading white space, before
/// trailing white space.
fn trim_bounds(chars: &Vec<char>) -> (bounds: (usize, usize))
    ensures
        bounds.0 <= bounds.1 <= chars@.len(),
        chars@.subrange(bounds.0 as int, bounds.1 as int) == trimmed(chars@),
{
    let n = chars.len();
    let mut start: usize = 0;
    while start < n && is_white_char(chars[start])
        invariant
            n == chars@.len(),
            start <= n,
            white_end(chars@, 0) == white_end(chars@, start as int),
        decreases n - start,
    {
        start = start + 1;
    }
    let ghost rest = chars@.subrange(start as int, n as int);
    let mut end: usize = n;
    while end > start && is_white_char(chars[end - 1])
        invariant
            n == chars@.len(),
            start <= end <= n,
            rest == chars@.subrange(start as int, n as int),
            white_start(rest, rest.len() as int) == white_start(rest, end - start),
        decreases end,
    {
        assert(rest[end - start - 1] == chars@[end - 1]);
        end = end - 1;
    }
    proof {
        if end > start {
            assert(rest[end - start - 1] == chars@[end - 1]);
        }
        assert(white_start(rest, end - start) == end - start);
        assert(rest.subrange(0, end - start) =~= chars@.subrange(start as int, end as int));
    }
    (start, end)
}

impl Transport {
    /// Reads the transport out of a raw environment value: absent means A;
    /// `bmp` or `png`, trimmed and in any case, select one; anything else falls
    /// back to A with a line saying so.
    pub fn parse(raw: Option<&str>) -> (chosen: (Transport, Option<String>))
        ensures
            (chosen.0, optional_text(chosen.1)) == transport_choice(optional_str(raw)),
    {
        let text = match raw {
            None => return (Transport::CustomProtocolBmp, None),
            Some(text) => text,
        };
        let chars = chars_of(text);
        let (start, end) = trim_bounds(&chars);
        if same_ignoring_case_in(&chars, start, end, NAME_BMP) {
            (Transport::CustomProtocolBmp, None)
        } else if same_ignoring_case_in(&chars, start, end, NAME_PNG) {
            (Transport::DataUrlPng, None)
        } else {
            let mut warning = String::from_str("[cliche] veil: CLICHE_TRANSPORT=\"");
            warning.append(text);
            warning.append(
                "\" is not understood; expected \"bmp\" or \"png\". FALLING BACK to \"bmp\" - the figures below are transport A, whatever you meant to measure.",
            );
            (Transport::CustomProtocolBmp, Some(warning))
        }
    }

    /// How the transport names itself in the report header.
    pub fn describe(self) -> (name: &'static str)
        ensures
            name@ == match self {
                Transport::CustomProtocolBmp => "A - custom protocol, BMP (header + memcpy)"@,
                Transport::DataUrlPng => "B - data URL, PNG + base64"@,
            },
    {
        match self {
            Transport::CustomProtocolBmp => "A - custom protocol, BMP (header + memcpy)",
            Transport::DataUrlPng => "B - data URL, PNG + base64",
        }
    }
}

/// The value of a run of decimal digits.
pub open spec fn digits_value(digits: Seq<char>) -> nat
    decreases digits.len(),
{
    if digits.len() == 0 {
        0
    } else {
        digits_value(digits.drop_last()) * 10 + (digits.last() as nat - 48) as nat
    }
}

/// Whether every character is an ASCII digit.
pub open spec fn all_digits(text: Seq<char>) -> bool {
    forall|i: int| 0 <= i < text.len() ==> '0' <= #[trigger] text[i] && text[i] <= '9'
}

/// The value of an unsigned integer as std's `FromStr` reads it: an optional
/// `+`, then one or more ASCII digits and nothing else.
pub open spec fn unsigned_value(text: Seq<char>) -> Option<nat> {
    let body = if text.len() > 0 && text[0] == '+' {
        text.drop_first()
    } else {
        text
    };
    if body.len() > 0 && all_digits(body) {
        Some(digits_value(body))
    } else {
        None
    }
}

/// Whether a text reads as an unsigned integer no larger than `limit`.
pub open spec fn reads_within(text: Seq<char>, limit: nat) -> bool {
    match unsigned_value(text) {
        Some(value) => value <= limit,
        None => false,
    }
}

/// std's `str::parse::<u64>`, as its documentation states it: an optional `+`
/// followed by decimal digits only, and a value that fits. What the error text
/// says is left unstated.
#[verifier::external_body]
fn read_u64(text: &str) -> (read: Result<u64, String>)
    ensures
        match read {
            Ok(value) => unsigned_value(text@) == Some(value as nat),
            Err(_) => !reads_within(text@, u64::MAX as nat),
        },
{
    text.parse::<u64>().map_err(|error| error.to_string())
}

/// std's `str::parse::<usize>`, as its documentation states it: an optional
/// `+` followed by decimal digits only, and a value that fits. What the error
/// text says is left unstated.
#[verifier::external_body]
fn read_usize(text: &str) -> (read: Result<usize, String>)
    ensures
        match read {
            Ok(value) => unsigned_value(text@) == Some(value as nat),
            Err(_) => !reads_within(text@, usize::MAX as nat),
        },
{
    text.parse::<usize>().map_err(|error| error.to_string())
}

/// The run number in a frame path, `/frame/<n>.bmp`, as characters.
pub open spec fn frame_number_text(path: Seq<char>) -> Option<Seq<char>> {
    if "/frame/"@.is_prefix_of(path) {
        let rest = path.subrange(7, path.len() as int);
        if ".bmp"@.is_suffix_of(rest) {
            Some(rest.subrange(0, rest.len() - 4))
        } else {
            None
        }
    } else {
        None
    }
}

/// The run number a frame path names, if it names one.
pub open spec fn frame_path_run(path: Seq<char>) -> Option<u64> {
    match frame_number_text(path) {
        Some(number) => if reads_within(number, u64::MAX as nat) {
            Some(unsigned_value(number).unwrap() as u64)
        } else {
            None
        },
        None => None,
    }
}

/// Whether `chars` ends with the characters of `suffix`.
fn ends_with_text(chars: &Vec<char>, from: usize, suffix: &str) -> (ends: bool)
    requires
        from <= chars@.len(),
    ensures
        ends == suffix@.is_suffix_of(chars@.subrange(from as int, chars@.len() as int)),
{
    let wanted = chars_of(suffix);
    let ghost rest = chars@.subrange(from as int, chars@.len() as int);
    let n = chars.len();
    if wanted.len() > n - from {
        return false;
    }
    let offset = n - wanted.len();
    let mut i: usize = 0;
    while i < wanted.len()
        invariant
            wanted@ == suffix@,
            n == chars@.len(),
            rest == chars@.subrange(from as int, n as int),
            offset + wanted@.len() == n,
            from <= offset,
            i <= wanted@.len(),
            forall|k: int| 0 <= k < i ==> chars@[offset + k] == wanted@[k],
        decreases wanted.len() - i,
    {
        if chars[offset + i] != wanted[i] {
            assert(rest.subrange(rest.len() - wanted@.len(), rest.len() as int)[i as int] == chars@[offset + i]);
            return false;
        }
        i = i + 1;
    }
    assert(rest.subrange(rest.len() - wanted@.len(), rest.len() as int) =~= wanted@);
    true
}

/// Reads the run number out of `/frame/<n>.bmp`; `None` for any other path,
/// so an unexpected path is refused rather than answered.
pub fn parse_frame_path(path: &str) -> (run: Option<u64>)
    ensures
        run == frame_path_run(path@),
{
    let chars = chars_of(path);
    proof {
        reveal_strlit("/frame/");
        reveal_strlit(".bmp");
    }
    if !crate::text::starts_with_text(&chars, "/frame/") {
        return None;
    }
    if !ends_with_text(&chars, 7, ".bmp") {
        return None;
    }
    let mut number = String::new();
    push_range(&mut number, &chars, 7, chars.len() - 4);
    assert(number@ =~= chars@.subrange(7, chars@.len() as int).subrange(0, chars@.len() - 7 - 4));
    match read_u64(number.as_str()) {
        Ok(value) => Some(value),
        Err(_) => None,
    }
}

/// The line printed when the benchmark count asks for nothing.
pub open spec fn bench_zero_text() -> Seq<char> {
    "[cliche] bench: CLICHE_BENCH=0 asks for no run; nothing scheduled"@
}

/// The line printed when the benchmark count is not a count.
pub open spec fn bench_refusal_text(raw: Seq<char>, reason: Seq<char>) -> Seq<char> {
    "[cliche] bench: CLICHE_BENCH=\""@ + raw + "\" is not a run count ("@ + reason
        + "); NO benchmark was scheduled"@
}

/// Whether a line is the refusal of the benchmark count `raw`.
pub open spec fn is_bench_refusal(line: Option<String>, raw: Seq<char>) -> bool {
    match line {
        Some(text) => exists|reason: Seq<char>| text@ == bench_refusal_text(raw, reason),
        None => false,
    }
}

/// Reads the benchmark count: absent asks for nothing; a positive count,
/// trimmed, schedules that many runs; zero and anything that is not a count
/// are reported rather than ignored.
pub fn parse_bench(raw: Option<&str>) -> (asked: (Option<usize>, Option<String>))
    ensures
        match raw {
            None => asked.0 is None && asked.1 is None,
            Some(text) => match unsigned_value(trimmed(text@)) {
                Some(value) => if value > usize::MAX {
                    asked.0 is None && is_bench_refusal(asked.1, text@)
                } else if value == 0 {
                    asked.0 is None && optional_text(asked.1) == Some(bench_zero_text())
                } else {
                    asked.0 == Some(value as usize) && asked.1 is None
                },
                None => asked.0 is None && is_bench_refusal(asked.1, text@),
            },
        },
{
    let text = match raw {
        None => return (None, None),
        Some(text) => text,
    };
    let chars = chars_of(text);
    let (start, end) = trim_bounds(&chars);
    let mut inner = String::new();
    push_range(&mut inner, &chars, start, end);
    match read_usize(inner.as_str()) {
        Ok(0) => (None, Some(String::from_str("[cliche] bench: CLICHE_BENCH=0 asks for no run; nothing scheduled"))),
        Ok(runs) => (Some(runs), None),
        Err(reason) => {
            let mut line = String::from_str("[cliche] bench: CLICHE_BENCH=\"");
            line.append(text);
            line.append("\" is not a run count (");
            line.append(reason.as_str());
            line.append("); NO benchmark was scheduled");
            assert(line@ == bench_refusal_text(text@, reason@));
            (None, Some(line))
        },
    }
}

/// The base64 symbol for a six-bit value: `A`-`Z`, `a`-`z`, `0`-`9`, `+`, `/`.
pub open spec fn b64_symbol(v: nat) -> char {
    if v < 26 {
        (65 + v) as char
    } else if v < 52 {
        (97 + v - 26) as char
    } else if v < 62 {
        (48 + v - 52) as char
    } else if v == 62 {
        '+'
    } else {
        '/'
    }
}

/// The four symbols of three bytes.
pub open spec fn quad(a: u8, b: u8, c: u8) -> Seq<char> {
    let g = a as nat * 65536 + b as nat * 256 + c as nat;
    seq![b64_symbol(g / 262144), b64_symbol(g / 4096 % 64), b64_symbol(g / 64 % 64), b64_symbol(g % 64)]
}

/// The symbols of the first `k` whole groups of three bytes.
pub open spec fn groups(bytes: Seq<u8>, k: nat) -> Seq<char>
    decreases k,
{
    if k == 0 {
        Seq::empty()
    } else {
        groups(bytes, (k - 1) as nat) + quad(bytes[3 * k - 3], bytes[3 * k - 2], bytes[3 * k - 1])
    }
}

/// Standard, padded base64 (RFC 4648): every group of three bytes becomes four
/// symbols, and a last group of one or two bytes is padded with `=`.
pub open spec fn base64(bytes: Seq<u8>) -> Seq<char> {
    let k = bytes.len() / 3;
    let full = groups(bytes, k);
    if bytes.len() % 3 == 0 {
        full
    } else if bytes.len() % 3 == 1 {
        let g = bytes[3 * k as int] as nat * 65536;
        full + seq![b64_symbol(g / 262144), b64_symbol(g / 4096 % 64), '=', '=']
    } else {
        let g = bytes[3 * k as int] as nat * 65536 + bytes[3 * k + 1int] as nat * 256;
        full + seq![b64_symbol(g / 262144), b64_symbol(g / 4096 % 64), b64_symbol(g / 64 % 64), '=']
    }
}

/// Whether a character belongs to base64's output: the 64 symbols and `=`.
pub open spec fn is_base64_output(c: char) -> bool {
    ('A' <= c && c <= 'Z') || ('a' <= c && c <= 'z') || ('0' <= c && c <= '9') || c == '+' || c == '/' || c == '='
}

/// The symbol of a six-bit value, in executable form.
fn b64_char(v: u32) -> (c: char)
    requires
        v < 64,
    ensures
        c == b64_symbol(v as nat),
{
    if v < 26 {
        ((65 + v) as u8) as char
    } else if v < 52 {
        ((97 + v - 26) as u8) as char
    } else if v < 62 {
        ((48 + v - 52) as u8) as char
    } else if v == 62 {
        '+'
    } else {
        '/'
    }
}

proof fn lemma_symbol_in_alphabet(v: nat)
    requires
        v < 64,
    ensures
        is_base64_output(b64_symbol(v)),
{
}

proof fn lemma_groups_in_alphabet(bytes: Seq<u8>, k: nat)
    requires
        3 * k <= bytes.len(),
    ensures
        groups(bytes, k).len() == 4 * k,
        forall|i: int| 0 <= i < groups(bytes, k).len() ==> is_base64_output(#[trigger] groups(bytes, k)[i]),
    decreases k,
{
    if k > 0 {
        lemma_groups_in_alphabet(bytes, (k - 1) as nat);
        let g = bytes[3 * k - 3] as nat * 65536 + bytes[3 * k - 2] as nat * 256 + bytes[3 * k - 1] as nat;
        lemma_symbol_in_alphabet(g / 262144);
        lemma_symbol_in_alphabet(g / 4096 % 64);
        lemma_symbol_in_alphabet(g / 64 % 64);
        lemma_symbol_in_alphabet(g % 64);
        let before = groups(bytes, (k - 1) as nat);
        let q = quad(bytes[3 * k - 3], bytes[3 * k - 2], bytes[3 * k - 1]);
        assert forall|i: int| 0 <= i < groups(bytes, k).len() implies is_base64_output(#[trigger] groups(bytes, k)[i]) by {
            if i < before.len() {
                assert(groups(bytes, k)[i] == before[i]);
            } else {
                assert(groups(bytes, k)[i] == q[i - before.len()]);
            }
        }
    }
}

/// Base64's output never leaves its alphabet, so it can never break out of a
/// double-quoted JavaScript string: no quote, no backslash, no line break.
pub proof fn law_base64_stays_in_its_alphabet(bytes: Seq<u8>)
    ensures
        forall|i: int| 0 <= i < base64(bytes).len() ==> is_base64_output(#[trigger] base64(bytes)[i]),
        base64(bytes).len() == 4 * ((bytes.len() + 2) / 3),
{
    let k = bytes.len() / 3;
    lemma_groups_in_alphabet(bytes, k);
    let full = groups(bytes, k);
    let out = base64(bytes);
    if bytes.len() % 3 == 1 {
        let g = bytes[3 * k as int] as nat * 65536;
        lemma_symbol_in_alphabet(g / 262144);
        lemma_symbol_in_alphabet(g / 4096 % 64);
    } else if bytes.len() % 3 == 2 {
        let g = bytes[3 * k as int] as nat * 65536 + bytes[3 * k + 1int] as nat * 256;
        lemma_symbol_in_alphabet(g / 262144);
        lemma_symbol_in_alphabet(g / 4096 % 64);
        lemma_symbol_in_alphabet(g / 64 % 64);
    }
    assert forall|i: int| 0 <= i < out.len() implies is_base64_output(#[trigger] out[i]) by {
        if i < full.len() {
            assert(out[i] == full[i]);
        }
    }
}

/// Appends the four symbols of a group value below 2^24.
fn push_group(out: &mut String, group: u32, symbols: usize)
    requires
        group < 16777216,
        2 <= symbols <= 4,
    ensures
        final(out)@ == old(out)@ + seq![
            b64_symbol(group as nat / 262144),
            b64_symbol(group as nat / 4096 % 64),
            b64_symbol(group as nat / 64 % 64),
            b64_symbol(group as nat % 64),
        ].subrange(0, symbols as int),
{
    let ghost start = out@;
    let ghost all = seq![
        b64_symbol(group as nat / 262144),
        b64_symbol(group as nat / 4096 % 64),
        b64_symbol(group as nat / 64 % 64),
        b64_symbol(group as nat % 64),
    ];
    push_char(out, b64_char(group / 262144));
    push_char(out, b64_char(group / 4096 % 64));
    if symbols >= 3 {
        push_char(out, b64_char(group / 64 % 64));
    }
    if symbols == 4 {
        push_char(out, b64_char(group % 64));
    }
    assert(out@ =~= start + all.subrange(0, symbols as int));
}

/// Appends `bytes` to `out` as standard, padded base64.
pub fn push_base64(bytes: &[u8], out: &mut String)
    ensures
        final(out)@ == old(out)@ + base64(bytes@),
{
    let ghost start = out@;
    let n = bytes.len();
    let whole = n / 3;
    let mut k: usize = 0;
    while k < whole
        invariant
            n == bytes@.len(),
            whole == n / 3,
            k <= whole,
            out@ == start + groups(bytes@, k as nat),
        decreases whole - k,
    {
        let first = bytes[3 * k];
        let second = bytes[3 * k + 1];
        let third = bytes[3 * k + 2];
        let group: u32 = first as u32 * 65536 + second as u32 * 256 + third as u32;
        push_group(out, group, 4);
        k = k + 1;
        assert(out@ =~= start + groups(bytes@, k as nat));
    }
    let rest = n - 3 * whole;
    if rest == 1 {
        let group: u32 = bytes[3 * whole] as u32 * 65536;
        push_group(out, group, 2);
        push_char(out, '=');
        push_char(out, '=');
    } else if rest == 2 {
        let group: u32 = bytes[3 * whole] as u32 * 65536 + bytes[3 * whole + 1] as u32 * 256;
        push_group(out, group, 3);
        push_char(out, '=');
    }
    assert(out@ =~= start + base64(bytes@));
}

/// Whether a run may be made visible, given the run the pipeline is on and the
/// highest run already shown: it must be the current run, not yet shown, and
/// not zero.
pub fn may_show(current_run: u64, already_shown: u64, run: u64) -> (allowed: bool)
    ensures
        allowed == (run != 0 && run == current_run && run > already_shown),
{
    run != 0 && run == current_run && run > already_shown
}

/// What the custom scheme answers for one request.
#[derive(Debug)]
pub enum Served {
    /// The request came from a webview that is not the veil: 403, and the
    /// line to print.
    Refused(String),
    /// The staged frame, taken: 200 with these bytes.
    Frame(Vec<u8>),
    /// Nothing staged for this path: 404, and the line to print.
    Missing(String),
}

/// Where the bench stands while it waits for a run to be painted.
#[derive(Debug, Clone, Copy, PartialEq, Eq, Structural)]
pub enum BenchWait {
    /// The page acknowledged the run: on to the next one.
    Painted,
    /// Not yet, and there is time left: wait a little more.
    Waiting,
    /// Not within the time a run is given: the run is abandoned.
    Abandon,
}

/// What the bench makes of one look at the painted count: moved since the run
/// began, still within its time, or out of it.
pub fn bench_wait(painted_before: usize, painted_now: usize, waited_nanos: u64) -> (next: BenchWait)
    ensures
        next == if painted_now != painted_before {
            BenchWait::Painted
        } else if waited_nanos >= BENCH_RUN_TIMEOUT_NANOS {
            BenchWait::Abandon
        } else {
            BenchWait::Waiting
        },
{
    if painted_now != painted_before {
        BenchWait::Painted
    } else if waited_nanos >= BENCH_RUN_TIMEOUT_NANOS {
        BenchWait::Abandon
    } else {
        BenchWait::Waiting
    }
}

/// The body sent with a refusal of the custom scheme.
pub const REFUSED_BODY: &'static str = "this scheme is not served here";

/// The body sent when nothing is staged for the requested path.
pub const MISSING_BODY: &'static str = "no frame staged for this URL";

/// The `Cache-Control` value every answer of the custom scheme carries: a
/// frame is served once and must not be kept anywhere.
pub const NO_STORE: &'static str = "no-store";

/// Header names and values, as characters.
pub open spec fn header_texts(headers: Seq<(&'static str, &'static str)>) -> Seq<(Seq<char>, Seq<char>)> {
    headers.map_values(|h: (&'static str, &'static str)| (h.0@, h.1@))
}

/// The headers of an answer of the custom scheme, and no other: its content
/// type and `no-store`. No `Access-Control-Allow-Origin`, so that no script
/// of another origin can read the bytes.
pub open spec fn reply_headers(content_type: Seq<char>) -> Seq<(Seq<char>, Seq<char>)> {
    seq![("Content-Type"@, content_type), ("Cache-Control"@, NO_STORE@)]
}

/// How an answer of the custom scheme goes back over HTTP, and what the
/// terminal is told.
pub struct SchemeReply {
    /// The HTTP status.
    pub status: u16,
    /// Every header of the response, name and value, in order.
    pub headers: Vec<(&'static str, &'static str)>,
    /// The body.
    pub body: Vec<u8>,
    /// The line the terminal gets, if any.
    pub line: Option<String>,
}

/// The two headers of a reply with this content type.
fn headers_for(content_type: &'static str) -> (headers: Vec<(&'static str, &'static str)>)
    ensures
        header_texts(headers@) == reply_headers(content_type@),
{
    let headers = vec![("Content-Type", content_type), ("Cache-Control", NO_STORE)];
    assert(header_texts(headers@) =~= reply_headers(content_type@));
    headers
}

/// The answer for a path nothing is staged for, with its line.
pub fn nothing_staged(path: &str) -> (answer: Served)
    ensures
        answer matches Served::Missing(line) && line@ == nothing_staged_text(path@),
{
    let mut line = String::from_str("[cliche] veil: nothing staged for `");
    line.append(path);
    line.append("`; serving 404");
    Served::Missing(line)
}

impl Served {
    /// The reply to an answer: 403 for another webview, 200 with the frame's
    /// bytes, 404 when nothing is staged; the two refusals in plain text, with
    /// their line for the terminal. Every reply is `no-store`, and none allows
    /// another origin to read it.
    pub fn reply(self) -> (reply: SchemeReply)
        ensures
            match self {
                Served::Refused(line) => {
                    &&& reply.status == 403
                    &&& header_texts(reply.headers@) == reply_headers("text/plain"@)
                    &&& reply.body@ == REFUSED_BODY.spec_bytes()
                    &&& reply.line == Some(line)
                },
                Served::Frame(bytes) => {
                    &&& reply.status == 200
                    &&& header_texts(reply.headers@) == reply_headers("image/bmp"@)
                    &&& reply.body@ == bytes@
                    &&& reply.line is None
                },
                Served::Missing(line) => {
                    &&& reply.status == 404
                    &&& header_texts(reply.headers@) == reply_headers("text/plain"@)
                    &&& reply.body@ == MISSING_BODY.spec_bytes()
                    &&& reply.line == Some(line)
                },
            },
    {
        match self {
            Served::Refused(line) => SchemeReply {
                status: 403,
                headers: headers_for("text/plain"),
                body: REFUSED_BODY.as_bytes_vec(),
                line: Some(line),
            },
            Served::Frame(bytes) => SchemeReply {
                status: 200,
                headers: headers_for("image/bmp"),
                body: bytes,
                line: None,
            },
            Served::Missing(line) => SchemeReply {
                status: 404,
                headers: headers_for("text/plain"),
                body: MISSING_BODY.as_bytes_vec(),
                line: Some(line),
            },
        }
    }
}

/// What the application does next about the veil window.
#[derive(Debug, Clone, Copy, PartialEq, Eq, Structural)]
pub enum Next {
    /// Nothing: the run is not this caller's to show.
    Ignore,
    /// Nothing more: the run could not be shown and has been ended.
    Abandoned,
    /// Show the window, then report how it went.
    Show,
}

/// A capture ready to be handed to the page.
pub struct Prepared {
    /// The run number of this capture.
    pub run: u64,
    /// The script that hands the image to the page.
    pub script: String,
    /// The frozen frame, kept so that a selection can be cut out of it.
    pub frame: Frame,
}

/// The shared state of the veil.
pub struct Veil {
    transport: Transport,
    pending: Option<(u64, Vec<u8>)>,
    frame: Option<(u64, Frame)>,
    generation: u64,
    shown: u64,
    painted: usize,
}

/// One more, wrapping at the top of the range.
pub open spec fn wrapped(value: u64) -> u64 {
    if value == u64::MAX {
        0
    } else {
        (value + 1) as u64
    }
}

/// The larger of two run numbers.
pub open spec fn larger(a: u64, b: u64) -> u64 {
    if a >= b {
        a
    } else {
        b
    }
}

/// The URL a transport-A frame is served at.
pub open spec fn frame_url(run: u64) -> Seq<char> {
    "http://cliche.localhost"@ + "/frame/"@ + decimal(run as nat) + ".bmp"@
}

/// The script that hands the page its image.
pub open spec fn show_script(source: Seq<char>, run: u64) -> Seq<char> {
    "window.__clicheShow(\""@ + source + "\","@ + decimal(run as nat) + ")"@
}

/// The line printed when a request for the frame comes from another webview.
pub open spec fn serve_refusal_text(caller: Seq<char>) -> Seq<char> {
    "[cliche] veil: "@ + wrong_window_text("cliche"@, "veil"@, caller)
}

/// The line printed when nothing is staged for a path.
pub open spec fn nothing_staged_text(path: Seq<char>) -> Seq<char> {
    "[cliche] veil: nothing staged for `"@ + path + "`; serving 404"@
}

/// Why a selection cannot be cut when no frame is on screen.
pub open spec fn no_frame_text() -> Seq<char> {
    "no frozen frame is being shown; there is nothing to cut"@
}

/// Why a selection drawn on one run is not cut out of another run's frame.
pub open spec fn stale_selection_text(run: u64, staged: u64) -> Seq<char> {
    "the selection belongs to run "@ + decimal(run as nat) + ", but run "@ + decimal(staged as nat)
        + " is the frame on screen; it was not cut"@
}

impl Veil {
    /// The transport chosen at startup.
    pub closed spec fn transport_spec(&self) -> Transport {
        self.transport
    }

    /// The run whose payload is staged for the custom scheme, and its bytes.
    pub closed spec fn pending_view(&self) -> Option<(u64, Seq<u8>)> {
        match self.pending {
            Some((run, bytes)) => Some((run, bytes@)),
            None => None,
        }
    }

    /// The run whose frame is on screen, and the frame.
    pub closed spec fn frame_view(&self) -> Option<(u64, FrameView)> {
        match self.frame {
            Some((run, frame)) => Some((run, frame@)),
            None => None,
        }
    }

    /// The run the pipeline is on.
    pub closed spec fn generation(&self) -> u64 {
        self.generation
    }

    /// The highest run already made visible, or zero.
    pub closed spec fn shown_up_to(&self) -> u64 {
        self.shown
    }

    /// How many runs reached `painted`.
    pub closed spec fn painted_count(&self) -> usize {
        self.painted
    }

    /// A veil that holds nothing and has run nothing.
    pub fn new(transport: Transport) -> (veil: Self)
        ensures
            veil.transport_spec() == transport,
            veil.pending_view() is None,
            veil.frame_view() is None,
            veil.generation() == 0,
            veil.shown_up_to() == 0,
            veil.painted_count() == 0,
    {
        Veil { transport, pending: None, frame: None, generation: 0, shown: 0, painted: 0 }
    }

    pub fn transport(&self) -> (transport: Transport)
        ensures
            transport == self.transport_spec(),
    {
        self.transport
    }

    /// Opens the next run number and returns it, saturating.
    pub fn next_run(&mut self) -> (run: u64)
        ensures
            final(self).generation() == wrapped(old(self).generation()),
            run == if old(self).generation() == u64::MAX {
                u64::MAX
            } else {
                (old(self).generation() + 1) as u64
            },
            final(self).transport_spec() == old(self).transport_spec(),
            final(self).pending_view() == old(self).pending_view(),
            final(self).frame_view() == old(self).frame_view(),
            final(self).shown_up_to() == old(self).shown_up_to(),
            final(self).painted_count() == old(self).painted_count(),
    {
        let previous = self.generation;
        self.generation = if previous == u64::MAX {
            0
        } else {
            previous + 1
        };
        if previous == u64::MAX {
            u64::MAX
        } else {
            previous + 1
        }
    }

    /// Claims the right to make the veil visible for `run`: granted once per
    /// run number, and never for a run the pipeline has moved past.
    pub fn claim_show(&mut self, run: u64) -> (granted: bool)
        ensures
            claimed(*old(self), *final(self), run, granted),
    {
        if !may_show(self.generation, self.shown, run) {
            return false;
        }
        let previous = self.shown;
        if run > self.shown {
            self.shown = run;
        }
        previous < run
    }

    /// Drops everything a run is holding, the frozen frame and the staged
    /// payload both, and burns the show claim of `run`, and of no later run.
    pub fn release(&mut self, run: u64)
        ensures
            released(*old(self), *final(self), run),
    {
        self.pending = None;
        self.frame = None;
        if run > self.shown {
            self.shown = run;
        }
    }

    /// The run the pipeline is on, for the one caller that has no run of its
    /// own.
    pub fn current_run(&self) -> (run: u64)
        ensures
            run == self.generation(),
    {
        self.generation
    }

    /// Whether a payload is staged for the custom scheme.
    pub fn has_pending(&self) -> (staged: bool)
        ensures
            staged == (self.pending_view() is Some),
    {
        self.pending.is_some()
    }

    /// Whether a frozen frame is held for a selection.
    pub fn holds_frame(&self) -> (held: bool)
        ensures
            held == (self.frame_view() is Some),
    {
        self.frame.is_some()
    }

    /// Stages a payload for the custom scheme, replacing any other.
    pub fn stage(&mut self, run: u64, bytes: Vec<u8>)
        ensures
            final(self).pending_view() == Some((run, bytes@)),
            unchanged_but_pending(*old(self), *final(self)),
    {
        self.pending = Some((run, bytes));
    }

    /// Keeps the frozen frame of `run`, so that a selection can be cut out of
    /// it.
    pub fn keep_frame(&mut self, run: u64, frame: Frame)
        ensures
            final(self).frame_view() == Some((run, frame@)),
            final(self).pending_view() == old(self).pending_view(),
            final(self).generation() == old(self).generation(),
            final(self).shown_up_to() == old(self).shown_up_to(),
            final(self).painted_count() == old(self).painted_count(),
            final(self).transport_spec() == old(self).transport_spec(),
    {
        self.frame = Some((run, frame));
    }

    /// Drops the frozen frame once the capture is over.
    pub fn drop_frame(&mut self)
        ensures
            final(self).frame_view() is None,
            final(self).pending_view() == old(self).pending_view(),
            final(self).generation() == old(self).generation(),
            final(self).shown_up_to() == old(self).shown_up_to(),
            final(self).painted_count() == old(self).painted_count(),
            final(self).transport_spec() == old(self).transport_spec(),
    {
        self.frame = None;
    }

    /// Serves the staged frame on the custom scheme. Another webview than the
    /// veil is refused first; the bytes are taken, not copied, and only for the
    /// exact run number the path names, so a frame is served once.
    pub fn serve(&mut self, caller: &str, path: &str) -> (answer: Served)
        ensures
            served(*old(self), *final(self), caller@, path@, answer),
    {
        match ensure_from(caller, VEIL_WINDOW_LABEL, VEIL_SCHEME) {
            Ok(()) => {},
            Err(refused) => {
                let mut line = String::from_str("[cliche] veil: ");
                line.append(refused.as_str());
                return Served::Refused(line);
            },
        }
        let requested = parse_frame_path(path);
        let matches = match (&requested, &self.pending) {
            (Some(wanted), Some((staged, _))) => *wanted == *staged,
            _ => false,
        };
        if matches {
            match self.pending.take() {
                Some((_, bytes)) => return Served::Frame(bytes),
                None => {},
            }
        }
        nothing_staged(path)
    }

    /// Takes a grabbed frame through the capture and transport steps of a run
    /// the caller has already opened: the run number is taken, the payload is
    /// built for the chosen transport (a staged BMP, or a PNG data URL), and the
    /// script that hands it to the page is written. A failed grab or encode
    /// abandons the run and comes back as the line to print.
    pub fn prepare(&mut self, timings: &mut Timings, grabbed: Result<Frame, String>) -> (ready: Result<Prepared, String>)
        ensures
            prepared(*old(self), *final(self), *old(timings), *final(timings), grabbed, ready),
    {
        let frame = match grabbed {
            Ok(frame) => frame,
            Err(reason) => {
                timings.abandon_run();
                let mut line = String::from_str("[cliche] veil: capture failed: ");
                line.append(reason.as_str());
                return Err(line);
            },
        };
        timings.mark(MARK_CAPTURE);
        let ghost captured = *timings;
        let run = self.next_run();
        let ghost numbered = *self;
        let source = match self.transport {
            Transport::CustomProtocolBmp => match encode_bmp(&frame) {
                Ok(bmp) => {
                    self.stage(run, bmp);
                    let mut url = String::from_str(VEIL_ORIGIN);
                    url.append("/frame/");
                    push_decimal(&mut url, run);
                    url.append(".bmp");
                    url
                },
                Err(reason) => {
                    timings.abandon_run();
                    let mut line = String::from_str("[cliche] veil: BMP failed: ");
                    line.append(reason.as_str());
                    return Err(line);
                },
            },
            Transport::DataUrlPng => match encode_png(&frame) {
                Ok(png) => {
                    let mut url = String::from_str(DATA_URL_PREFIX);
                    push_base64(png.as_slice(), &mut url);
                    url
                },
                Err(reason) => {
                    timings.abandon_run();
                    let mut line = String::from_str("[cliche] veil: PNG failed: ");
                    line.append(reason.as_str());
                    return Err(line);
                },
            },
        };
        timings.mark(MARK_TRANSPORT);
        let mut script = String::from_str("window.__clicheShow(\"");
        script.append(source.as_str());
        script.append("\",");
        push_decimal(&mut script, run);
        push_char(&mut script, ')');
        proof {
            reveal_strlit(")");
        }
        assert(script@ =~= show_script(source@, run));
        Ok(Prepared { run, script, frame })
    }

    /// The page's acknowledgement that run `run` is decoded. The show claim
    /// is taken first: a stale acknowledgement, or the loser of the race
    /// against the fallback, is ignored. With no window to show, the run is
    /// ended; otherwise `decoded` is marked and the window is to be shown.
    pub fn on_decoded(&mut self, timings: &mut Timings, run: u64, window_found: bool) -> (next: Next)
        ensures
            acknowledged(*old(self), *final(self), *old(timings), *final(timings), run, window_found, next, MARK_DECODED@),
    {
        if !self.claim_show(run) {
            return Next::Ignore;
        }
        if !window_found {
            self.end_run(timings, run);
            return Next::Abandoned;
        }
        timings.mark(MARK_DECODED);
        Next::Show
    }

    /// How showing the window for an acknowledged run went: a refusal ends
    /// the run and comes back as the line to print; success marks `shown`.
    pub fn after_show(&mut self, timings: &mut Timings, run: u64, shown: Result<(), String>) -> (line: Option<String>)
        ensures
            match shown {
                Ok(()) => line is None && *final(self) == *old(self) && marked(*old(timings), *final(timings), MARK_SHOWN@),
                Err(error) => {
                    &&& line matches Some(text) && text@ == "[cliche] veil: could not show the veil: "@ + error@
                    &&& released(*old(self), *final(self), run)
                    &&& final(timings).open_run() is None
                    &&& final(timings).finished_runs() == old(timings).finished_runs()
                },
            },
    {
        match shown {
            Ok(()) => {
                timings.mark(MARK_SHOWN);
                None
            },
            Err(error) => {
                self.end_run(timings, run);
                let mut line = String::from_str("[cliche] veil: could not show the veil: ");
                line.append(error.as_str());
                Some(line)
            },
        }
    }

    /// The fallback timer of run `run` went off. If the page got there first,
    /// or the capture was released, nothing happens; with no window, the run
    /// is ended; otherwise the window is to be shown, unmeasured.
    pub fn on_fallback(&mut self, timings: &mut Timings, run: u64, window_found: bool) -> (next: Next)
        ensures
            fallback_fired(*old(self), *final(self), *old(timings), *final(timings), run, window_found, next),
    {
        if !self.claim_show(run) {
            return Next::Ignore;
        }
        if !window_found {
            self.end_run(timings, run);
            return Next::Abandoned;
        }
        Next::Show
    }

    /// How the fallback's show went. Either way the run is thrown away: it
    /// has no `decoded` and no `shown`, so it is not a measurement. A refusal
    /// also releases the capture, and comes back as the line to print.
    pub fn after_fallback_show(&mut self, timings: &mut Timings, run: u64, shown: Result<(), String>) -> (line: Option<String>)
        ensures
            final(timings).open_run() is None,
            final(timings).finished_runs() == old(timings).finished_runs(),
            match shown {
                Ok(()) => line is None && *final(self) == *old(self),
                Err(error) => {
                    &&& line matches Some(text) && text@ == "[cliche] veil: fallback could not show the veil: "@ + error@
                    &&& released(*old(self), *final(self), run)
                },
            },
    {
        match shown {
            Ok(()) => {
                timings.abandon_run();
                None
            },
            Err(error) => {
                self.end_run(timings, run);
                let mut line = String::from_str("[cliche] veil: fallback could not show the veil: ");
                line.append(error.as_str());
                Some(line)
            },
        }
    }

    /// Ends a run that will not be shown: abandoned in the instrument, and
    /// everything it held released.
    pub fn end_run(&mut self, timings: &mut Timings, run: u64)
        ensures
            released(*old(self), *final(self), run),
            final(timings).open_run() is None,
            final(timings).finished_runs() == old(timings).finished_runs(),
            final(timings).discarded() == if old(timings).open_run() is Some {
                bumped(old(timings).discarded())
            } else {
                old(timings).discarded()
            },
    {
        timings.abandon_run();
        self.release(run);
    }

    /// Files a painted run: the last mark, the run closed, the count of
    /// painted runs raised, saturating, and returned.
    pub fn file_painted(&mut self, timings: &mut Timings) -> (painted: usize)
        ensures
            painted == final(self).painted_count(),
            painted == bumped(old(self).painted_count()),
            final(self).generation() == old(self).generation(),
            final(self).shown_up_to() == old(self).shown_up_to(),
            final(self).pending_view() == old(self).pending_view(),
            final(self).frame_view() == old(self).frame_view(),
            final(self).transport_spec() == old(self).transport_spec(),
            exists|middle: Timings| marked(*old(timings), middle, MARK_PAINTED@) && finished(middle, *final(timings)),
    {
        timings.mark(MARK_PAINTED);
        let ghost middle = *timings;
        timings.finish_run();
        self.painted = self.painted.saturating_add(1);
        assert(marked(*old(timings), middle, MARK_PAINTED@) && finished(middle, *timings));
        self.painted
    }

    /// Escape: the run is abandoned, and what the capture on screen holds is
    /// released under the run the pipeline is on.
    pub fn dismiss(&mut self, timings: &mut Timings)
        ensures
            released(*old(self), *final(self), old(self).generation()),
            final(timings).open_run() is None,
            final(timings).finished_runs() == old(timings).finished_runs(),
            final(timings).discarded() == if old(timings).open_run() is Some {
                bumped(old(timings).discarded())
            } else {
                old(timings).discarded()
            },
    {
        timings.abandon_run();
        let run = self.current_run();
        self.release(run);
    }

    /// Cuts the user's selection, already in physical pixels, out of the
    /// frozen frame. A click is refused before anything is cut; a selection
    /// with no frame on screen, or drawn on another run's frame, is refused;
    /// otherwise the crop decides. Nothing is released here: a retry needs the
    /// frame.
    pub fn cut_selection(&self, run: u64, rect: PhysicalRect) -> (cut: Result<Frame, String>)
        ensures
            ({
                let r = rect@;
                match cut {
                    Ok(c) => {
                        &&& r.width * r.height >= MIN_COPYABLE_AREA_PX
                        &&& self.frame_view() matches Some((staged, f))
                        &&& staged == run
                        &&& c@.width == r.width && c@.height == r.height
                        &&& c@.pixels == crate::capture::cropped_rows(
                            f.pixels,
                            f.width as nat,
                            r.x as nat,
                            r.y as nat,
                            r.width as nat,
                            r.height as nat,
                        )
                    },
                    Err(message) => if r.width * r.height < MIN_COPYABLE_AREA_PX {
                        message@ == too_small_text(r.width, r.height)
                    } else {
                        match self.frame_view() {
                            None => message@ == no_frame_text(),
                            Some((staged, f)) => if staged != run {
                                message@ == stale_selection_text(run, staged)
                            } else {
                                !crate::capture::fits_inside(
                                    r.x as nat,
                                    r.y as nat,
                                    r.width as nat,
                                    r.height as nat,
                                    f.width as nat,
                                    f.height as nat,
                                ) && message@ == crate::capture::outside_message(
                                    r.x as nat,
                                    r.y as nat,
                                    r.width as nat,
                                    r.height as nat,
                                    f.width as nat,
                                    f.height as nat,
                                )
                            },
                        }
                    },
                }
            }),
    {
        let width = rect.width();
        let height = rect.height();
        if !is_worth_copying(width, height) {
            return Err(too_small_line(width, height));
        }
        match &self.frame {
            None => Err(String::from_str("no frozen frame is being shown; there is nothing to cut")),
            Some((staged, frame)) => {
                if *staged != run {
                    let mut message = String::from_str("the selection belongs to run ");
                    push_decimal(&mut message, run);
                    message.append(", but run ");
                    push_decimal(&mut message, *staged);
                    message.append(" is the frame on screen; it was not cut");
                    return Err(message);
                }
                crop(frame, rect)
            },
        }
    }
}

/// Everything is as it was.
pub open spec fn unchanged(before: Veil, after: Veil) -> bool {
    &&& after.pending_view() == before.pending_view()
    &&& unchanged_but_pending(before, after)
}

/// Everything but the staged payload is as it was.
pub open spec fn unchanged_but_pending(before: Veil, after: Veil) -> bool {
    &&& after.transport_spec() == before.transport_spec()
    &&& after.frame_view() == before.frame_view()
    &&& after.generation() == before.generation()
    &&& after.shown_up_to() == before.shown_up_to()
    &&& after.painted_count() == before.painted_count()
}

/// What claiming the show of `run` does: granted exactly when the rule allows
/// it, and a grant records the run as shown.
pub open spec fn claimed(before: Veil, after: Veil, run: u64, granted: bool) -> bool {
    &&& granted == (run != 0 && run == before.generation() && run > before.shown_up_to())
    &&& after.shown_up_to() == if granted {
        run
    } else {
        before.shown_up_to()
    }
    &&& after.generation() == before.generation()
    &&& after.pending_view() == before.pending_view()
    &&& after.frame_view() == before.frame_view()
    &&& after.painted_count() == before.painted_count()
    &&& after.transport_spec() == before.transport_spec()
}

/// What releasing `run` does: nothing staged and nothing held any more, and
/// the claim of `run` burnt, and of no later run.
pub open spec fn released(before: Veil, after: Veil, run: u64) -> bool {
    &&& after.pending_view() is None
    &&& after.frame_view() is None
    &&& after.shown_up_to() == larger(before.shown_up_to(), run)
    &&& after.generation() == before.generation()
    &&& after.painted_count() == before.painted_count()
    &&& after.transport_spec() == before.transport_spec()
}

/// What one request on the custom scheme does.
pub open spec fn served(before: Veil, after: Veil, caller: Seq<char>, path: Seq<char>, answer: Served) -> bool {
    if caller != "veil"@ {
        &&& answer matches Served::Refused(line)
        &&& line@ == serve_refusal_text(caller)
        &&& after == before
    } else {
        match (frame_path_run(path), before.pending_view()) {
            (Some(wanted), Some((staged, bytes))) if wanted == staged => {
                &&& answer matches Served::Frame(body)
                &&& body@ == bytes
                &&& after.pending_view() is None
                &&& unchanged_but_pending(before, after)
            },
            _ => {
                &&& answer matches Served::Missing(line)
                &&& line@ == nothing_staged_text(path)
                &&& after == before
            },
        }
    }
}

/// What preparing a capture does, whatever came of the grab and the encode.
pub open spec fn prepared(
    before: Veil,
    after: Veil,
    clock_before: Timings,
    clock_after: Timings,
    grabbed: Result<Frame, String>,
    ready: Result<Prepared, String>,
) -> bool {
    match grabbed {
        Err(reason) => {
            &&& ready matches Err(line)
            &&& line@ == "[cliche] veil: capture failed: "@ + reason@
            &&& after == before
            &&& clock_after.open_run() is None
            &&& clock_after.finished_runs() == clock_before.finished_runs()
        },
        Ok(frame) => {
            let run = if before.generation() == u64::MAX {
                u64::MAX
            } else {
                (before.generation() + 1) as u64
            };
            &&& after.generation() == wrapped(before.generation())
            &&& after.shown_up_to() == before.shown_up_to()
            &&& after.frame_view() == before.frame_view()
            &&& after.painted_count() == before.painted_count()
            &&& after.transport_spec() == before.transport_spec()
            &&& match ready {
                Ok(p) => {
                    &&& p.run == run
                    &&& p.frame@ == frame@
                    &&& exists|captured: Timings|
                        marked(clock_before, captured, MARK_CAPTURE@) && marked(captured, clock_after, MARK_TRANSPORT@)
                    &&& match before.transport_spec() {
                        Transport::CustomProtocolBmp => {
                            &&& after.pending_view() == Some((
                                run,
                                bmp_header(frame@.width as nat, frame@.height as nat, frame@.pixels.len())
                                    + frame@.pixels,
                            ))
                            &&& p.script@ == show_script(frame_url(run), run)
                        },
                        Transport::DataUrlPng => {
                            &&& after.pending_view() == before.pending_view()
                            &&& png_encoding(frame@.width, frame@.height, frame@.pixels) matches Some(png)
                            &&& p.script@ == show_script("data:image/png;base64,"@ + base64(png), run)
                        },
                    }
                },
                Err(line) => {
                    &&& clock_after.open_run() is None
                    &&& clock_after.finished_runs() == clock_before.finished_runs()
                    &&& after.pending_view() == before.pending_view()
                    &&& match before.transport_spec() {
                        Transport::CustomProtocolBmp => bmp_refusal(frame@) matches Some(reason)
                            && line@ == "[cliche] veil: BMP failed: "@ + reason,
                        Transport::DataUrlPng => png_encoding(frame@.width, frame@.height, frame@.pixels) is None
                            && exists|reason: Seq<char>| line@ == "[cliche] veil: PNG failed: "@ + reason,
                    }
                },
            }
        },
    }
}

/// What an acknowledgement of `run` does: ignored unless the show claim is
/// granted; with the claim taken, the run is ended when there is no window,
/// and otherwise `label` is marked and the window is to be shown.
pub open spec fn acknowledged(
    before: Veil,
    after: Veil,
    clock_before: Timings,
    clock_after: Timings,
    run: u64,
    window_found: bool,
    next: Next,
    label: Seq<char>,
) -> bool {
    let granted = run != 0 && run == before.generation() && run > before.shown_up_to();
    if !granted {
        &&& next == Next::Ignore
        &&& unchanged(before, after)
        &&& clock_after == clock_before
    } else {
        &&& after.shown_up_to() == run
        &&& after.generation() == before.generation()
        &&& if window_found {
            &&& next == Next::Show
            &&& after.pending_view() == before.pending_view()
            &&& after.frame_view() == before.frame_view()
            &&& marked(clock_before, clock_after, label)
        } else {
            &&& next == Next::Abandoned
            &&& after.pending_view() is None
            &&& after.frame_view() is None
            &&& clock_after.open_run() is None
            &&& clock_after.finished_runs() == clock_before.finished_runs()
        }
    }
}

/// What the fallback timer of `run` does: like an acknowledgement, except
/// that nothing is marked when the window is to be shown.
pub open spec fn fallback_fired(
    before: Veil,
    after: Veil,
    clock_before: Timings,
    clock_after: Timings,
    run: u64,
    window_found: bool,
    next: Next,
) -> bool {
    let granted = run != 0 && run == before.generation() && run > before.shown_up_to();
    if !granted {
        &&& next == Next::Ignore
        &&& unchanged(before, after)
        &&& clock_after == clock_before
    } else {
        &&& after.shown_up_to() == run
        &&& after.generation() == before.generation()
        &&& if window_found {
            &&& next == Next::Show
            &&& after.pending_view() == before.pending_view()
            &&& after.frame_view() == before.frame_view()
            &&& clock_after == clock_before
        } else {
            &&& next == Next::Abandoned
            &&& after.pending_view() is None
            &&& after.frame_view() is None
            &&& clock_after.open_run() is None
            &&& clock_after.finished_runs() == clock_before.finished_runs()
        }
    }
}

/// The page's acknowledgement and the fallback timer never both show a run:
/// whichever comes second, for the same run, is told to do nothing.
pub proof fn law_acknowledgement_and_fallback_never_both_show(
    v0: Veil,
    v1: Veil,
    v2: Veil,
    c0: Timings,
    c1: Timings,
    c2: Timings,
    run: u64,
    first_window: bool,
    second_window: bool,
    first: Next,
    second: Next,
)
    requires
        acknowledged(v0, v1, c0, c1, run, first_window, first, MARK_DECODED@) && fallback_fired(
            v1,
            v2,
            c1,
            c2,
            run,
            second_window,
            second,
        ) || fallback_fired(v0, v1, c0, c1, run, first_window, first) && acknowledged(
            v1,
            v2,
            c1,
            c2,
            run,
            second_window,
            second,
            MARK_DECODED@,
        ),
    ensures
        !(first == Next::Show && second == Next::Show),
        first != Next::Ignore ==> second == Next::Ignore,
{
}

/// Exactly one of the two paths that race to show a run may show it: of two
/// claims of the same run in a row, the second is refused.
pub proof fn law_one_show_per_run(v0: Veil, v1: Veil, v2: Veil, run: u64, first: bool, second: bool)
    requires
        claimed(v0, v1, run, first),
        claimed(v1, v2, run, second),
    ensures
        !second,
{
}

/// A released capture is shown by neither path afterwards.
pub proof fn law_released_run_stays_hidden(v0: Veil, v1: Veil, v2: Veil, run: u64, granted: bool)
    requires
        released(v0, v1, run),
        claimed(v1, v2, run, granted),
    ensures
        !granted,
{
}

/// Closing one run never burns the claim of the run that replaced it: a
/// release of an older run leaves the current run showable if it was.
pub proof fn law_release_spares_the_next_run(v0: Veil, v1: Veil, closing: u64)
    requires
        released(v0, v1, closing),
        closing < v0.generation(),
        v0.generation() > v0.shown_up_to(),
    ensures
        v1.generation() > v1.shown_up_to(),
        v1.generation() == v0.generation(),
{
}

/// One call on the show bookkeeping of the veil, and what it answered.
pub enum ShowCall {
    /// `next_run`: the pipeline opens its next run.
    Open,
    /// `claim_show` for `run`, and whether it was granted.
    Claim { run: u64, granted: bool },
    /// `release` of `run`.
    Release { run: u64 },
}

/// What one such call does to the veil, as its contract states it.
pub open spec fn took(before: Veil, after: Veil, call: ShowCall) -> bool {
    match call {
        ShowCall::Open => after.generation() == wrapped(before.generation()) && after.shown_up_to()
            == before.shown_up_to(),
        ShowCall::Claim { run, granted } => claimed(before, after, run, granted),
        ShowCall::Release { run } => released(before, after, run),
    }
}

/// The run a call was granted the show of, if it was one that was.
pub open spec fn granted_run(call: ShowCall) -> Option<u64> {
    match call {
        ShowCall::Claim { run, granted } => if granted {
            Some(run)
        } else {
            None
        },
        _ => None,
    }
}

/// The run a call released, if it was a release.
pub open spec fn released_run(call: ShowCall) -> Option<u64> {
    match call {
        ShowCall::Release { run } => Some(run),
        _ => None,
    }
}

/// Whether `states` are the veil before and after each of `calls`, in order.
pub open spec fn show_trace(states: Seq<Veil>, calls: Seq<ShowCall>) -> bool {
    &&& states.len() == calls.len() + 1
    &&& forall|i: int| 0 <= i < calls.len() ==> took(states[i], states[i + 1], #[trigger] calls[i])
}

/// Along a trace, the highest run shown never goes down.
proof fn lemma_shown_never_falls(states: Seq<Veil>, calls: Seq<ShowCall>, i: int, j: int)
    requires
        show_trace(states, calls),
        0 <= i <= j <= calls.len(),
    ensures
        states[i].shown_up_to() <= states[j].shown_up_to(),
    decreases j - i,
{
    if i < j {
        assert(took(states[i], states[i + 1], calls[i]));
        lemma_shown_never_falls(states, calls, i + 1, j);
    }
}

/// Over any sequence of `next_run`, `claim_show` and `release` calls, the runs
/// made visible strictly increase: no run is shown twice, a run is shown only
/// while it is the run the pipeline is on and never run zero, and never after
/// a release of it or of a later run.
pub proof fn law_shown_runs_strictly_increase(states: Seq<Veil>, calls: Seq<ShowCall>)
    requires
        show_trace(states, calls),
    ensures
        forall|i: int, j: int|
            #![trigger granted_run(calls[i]), granted_run(calls[j])]
            0 <= i < j < calls.len() && granted_run(calls[i]) is Some && granted_run(calls[j]) is Some
                ==> granted_run(calls[i])->0 < granted_run(calls[j])->0,
        forall|i: int, j: int|
            #![trigger released_run(calls[i]), granted_run(calls[j])]
            0 <= i < j < calls.len() && released_run(calls[i]) is Some && granted_run(calls[j]) is Some
                ==> released_run(calls[i])->0 < granted_run(calls[j])->0,
        forall|j: int|
            0 <= j < calls.len() && #[trigger] granted_run(calls[j]) is Some ==> granted_run(calls[j])->0 != 0
                && granted_run(calls[j])->0 == states[j].generation(),
{
    assert forall|i: int, j: int|
        0 <= i < j < calls.len() && granted_run(calls[i]) is Some && granted_run(
            calls[j],
        ) is Some implies granted_run(calls[i])->0 < granted_run(calls[j])->0 by {
        assert(took(states[i], states[i + 1], calls[i]));
        assert(took(states[j], states[j + 1], calls[j]));
        lemma_shown_never_falls(states, calls, i + 1, j);
    }
    assert forall|i: int, j: int|
        0 <= i < j < calls.len() && released_run(calls[i]) is Some && granted_run(
            calls[j],
        ) is Some implies released_run(calls[i])->0 < granted_run(calls[j])->0 by {
        assert(took(states[i], states[i + 1], calls[i]));
        assert(took(states[j], states[j + 1], calls[j]));
        lemma_shown_never_falls(states, calls, i + 1, j);
    }
    assert forall|j: int| 0 <= j < calls.len() && #[trigger] granted_run(calls[j]) is Some implies granted_run(
        calls[j],
    )->0 != 0 && granted_run(calls[j])->0 == states[j].generation() by {
        assert(took(states[j], states[j + 1], calls[j]));
    }
}

/// A staged frame is served once: after it has been handed over, a second
/// request for the same path finds nothing.
pub proof fn law_frame_served_once(
    v0: Veil,
    v1: Veil,
    v2: Veil,
    path: Seq<char>,
    first: Served,
    second: Served,
)
    requires
        served(v0, v1, "veil"@, path, first),
        served(v1, v2, "veil"@, path, second),
        first is Frame,
    ensures
        second is Missing,
{
}

} // verus!
