//! Where the user's choice of capture combination is kept between runs: one
//! small JSON file, written and read by this module alone.
//!
//! The reader understands the shape the writer produces and refuses anything
//! else; it decodes no escape and walks no nested object. A file that is
//! missing, empty or damaged never stops the application: every outcome of a
//! read is an answer, see [`SettingsRead`].
use vstd::prelude::*;
use vstd::string::*;
use crate::text::{chars_of, push_range};

verus! {

/// The file this application reads and writes, inside its configuration folder.
pub const SETTINGS_FILE: &'static str = "settings.json";

/// The one key this application stores.
pub const CAPTURE_SHORTCUT_KEY: &'static str = "captureShortcut";

/// What a read of the settings file came back with.
#[derive(Debug, Clone, PartialEq, Eq)]
pub enum SettingsRead {
    /// No file on disk: a first launch, or a user who never changed anything.
    Absent,
    /// A combination was read out of the file, not yet validated.
    Chosen(String),
    /// There is something on disk and it cannot be used, with what is wrong.
    Unusable(String),
}

/// What the file system answered when the file was read.
#[derive(Debug, Clone, PartialEq, Eq)]
pub enum FileText {
    /// The whole file, as text.
    Read(String),
    /// There is no such file.
    NotFound,
    /// The file is there and could not be read, with the system's reason.
    Failed(String),
}

/// Whether `c` is white space in the sense of Unicode's `White_Space`
/// property, which is what `char::is_whitespace` and `str::trim_start` use.
pub open spec fn is_white(c: char) -> bool {
    ||| ('\u{9}' <= c && c <= '\u{d}')
    ||| c == ' '
    ||| c == '\u{85}'
    ||| c == '\u{a0}'
    ||| c == '\u{1680}'
    ||| ('\u{2000}' <= c && c <= '\u{200a}')
    ||| c == '\u{2028}'
    ||| c == '\u{2029}'
    ||| c == '\u{202f}'
    ||| c == '\u{205f}'
    ||| c == '\u{3000}'
}

/// Where the text from position `i` on starts once leading white space is
/// skipped.
pub open spec fn white_end(text: Seq<char>, i: int) -> int
    decreases text.len() - i,
{
    if 0 <= i < text.len() && is_white(text[i]) {
        white_end(text, i + 1)
    } else {
        i
    }
}

/// Whether `needle` sits in `hay` at position `i`.
pub open spec fn occurs_at(hay: Seq<char>, needle: Seq<char>, i: int) -> bool {
    0 <= i && i + needle.len() <= hay.len() && hay.subrange(i, i + needle.len()) == needle
}

/// The first position, from `i` on, where `needle` sits in `hay`.
pub open spec fn find_from(hay: Seq<char>, needle: Seq<char>, i: int) -> Option<int>
    decreases hay.len() - i,
{
    if i < 0 || i >= hay.len() || i + needle.len() > hay.len() {
        None
    } else if hay.subrange(i, i + needle.len()) == needle {
        Some(i)
    } else {
        find_from(hay, needle, i + 1)
    }
}

/// The key as it appears in the file, quotes included.
pub open spec fn key_needle() -> Seq<char> {
    "\"captureShortcut\""@
}

pub open spec fn no_key_message() -> Seq<char> {
    "it holds no `captureShortcut` key, so there is no combination in it to read"@
}

pub open spec fn no_colon_message() -> Seq<char> {
    "`captureShortcut` is not followed by `:`, so this is not the file this application writes"@
}

pub open spec fn not_quoted_message() -> Seq<char> {
    "the value of `captureShortcut` is not a quoted string"@
}

pub open spec fn unclosed_message() -> Seq<char> {
    "the value of `captureShortcut` opens a quote that is never closed"@
}

pub open spec fn backslash_message() -> Seq<char> {
    "the value of `captureShortcut` holds a backslash. This reader does not decode escapes and never writes one, so the file was edited by something else"@
}

pub open spec fn empty_value_message() -> Seq<char> {
    "`captureShortcut` is empty, which names no combination at all"@
}

/// What the reader makes of a file's text: the key's first occurrence, a
/// colon, a double-quoted run of characters up to the next quote, with
/// optional white space before the colon and before the opening quote. A
/// value holding a backslash, or none at all, is refused.
pub open spec fn parse_spec(text: Seq<char>) -> Result<Seq<char>, Seq<char>> {
    match find_from(text, key_needle(), 0) {
        None => Err(no_key_message()),
        Some(at) => {
            let colon = white_end(text, at + key_needle().len());
            if colon >= text.len() || text[colon] != ':' {
                Err(no_colon_message())
            } else {
                let quote = white_end(text, colon + 1);
                if quote >= text.len() || text[quote] != '"' {
                    Err(not_quoted_message())
                } else {
                    match find_from(text, seq!['"'], quote + 1) {
                        None => Err(unclosed_message()),
                        Some(end) => {
                            let value = text.subrange(quote + 1, end);
                            if value.contains('\\') {
                                Err(backslash_message())
                            } else if value.len() == 0 {
                                Err(empty_value_message())
                            } else {
                                Ok(value)
                            }
                        },
                    }
                }
            }
        },
    }
}

/// A `Result` of strings, as characters.
pub open spec fn text_result(result: Result<String, String>) -> Result<Seq<char>, Seq<char>> {
    match result {
        Ok(value) => Ok(value@),
        Err(message) => Err(message@),
    }
}

/// Whether the writer can put `accelerator` in the file without escaping.
pub open spec fn renderable(accelerator: Seq<char>) -> bool {
    forall|i: int|
        0 <= i < accelerator.len() ==> {
            let c = #[trigger] accelerator[i];
            c != '"' && c != '\\' && c != '\n' && c != '\r'
        }
}

/// The text written to disk for one combination.
pub open spec fn render_text(accelerator: Seq<char>) -> Seq<char> {
    "{\n  \"captureShortcut\": \""@ + accelerator + "\"\n}\n"@
}

/// Why a combination the writer would have to escape is refused.
pub open spec fn unrenderable_message(accelerator: Seq<char>) -> Seq<char> {
    "`"@ + accelerator + "` holds a quote, a backslash or a line break. This writer escapes nothing, and an accelerator never needs it"@
}

/// What `find_from` finding something means: the needle sits there, and
/// nowhere between the start and there.
pub proof fn lemma_find_from_found(hay: Seq<char>, needle: Seq<char>, i: int, j: int)
    requires
        find_from(hay, needle, i) == Some(j),
    ensures
        0 <= i <= j,
        j + needle.len() <= hay.len(),
        j < hay.len(),
        hay.subrange(j, j + needle.len()) == needle,
        forall|k: int| i <= k < j ==> !#[trigger] occurs_at(hay, needle, k),
    decreases hay.len() - i,
{
    if hay.subrange(i, i + needle.len()) == needle {
    } else {
        lemma_find_from_found(hay, needle, i + 1, j);
    }
}

/// Whether a character is white space, in executable form.
pub fn is_white_char(c: char) -> (white: bool)
    ensures
        white == is_white(c),
{
    ('\u{9}' <= c && c <= '\u{d}') || c == ' ' || c == '\u{85}' || c == '\u{a0}' || c == '\u{1680}'
        || ('\u{2000}' <= c && c <= '\u{200a}') || c == '\u{2028}' || c == '\u{2029}'
        || c == '\u{202f}' || c == '\u{205f}' || c == '\u{3000}'
}

/// Skips the white space from `start` on.
fn skip_white(chars: &Vec<char>, start: usize) -> (end: usize)
    requires
        start <= chars@.len(),
    ensures
        end as int == white_end(chars@, start as int),
        start <= end <= chars@.len(),
{
    let mut i: usize = start;
    while i < chars.len() && is_white_char(chars[i])
        invariant
            start <= i <= chars@.len(),
            white_end(chars@, start as int) == white_end(chars@, i as int),
        decreases chars.len() - i,
    {
        i = i + 1;
    }
    i
}

/// Whether `needle` sits in `hay` at `at`.
fn sits_at(hay: &Vec<char>, needle: &Vec<char>, at: usize) -> (found: bool)
    requires
        at + needle@.len() <= hay@.len(),
    ensures
        found == (hay@.subrange(at as int, at + needle@.len()) == needle@),
{
    let hay_len = hay.len();
    let mut k: usize = 0;
    while k < needle.len()
        invariant
            hay_len == hay@.len(),
            k <= needle@.len(),
            at + needle@.len() <= hay@.len(),
            forall|j: int| 0 <= j < k ==> hay@[at + j] == needle@[j],
        decreases needle.len() - k,
    {
        let pos: usize = at + k;
        if hay[pos] != needle[k] {
            assert(hay@.subrange(at as int, at + needle@.len())[k as int] != needle@[k as int]);
            return false;
        }
        k = k + 1;
    }
    assert(hay@.subrange(at as int, at + needle@.len()) =~= needle@);
    true
}

/// The first position, from `start` on, where `needle` sits in `hay`.
fn find_in(hay: &Vec<char>, needle: &Vec<char>, start: usize) -> (found: Option<usize>)
    ensures
        match found {
            Some(i) => find_from(hay@, needle@, start as int) == Some(i as int),
            None => find_from(hay@, needle@, start as int) is None,
        },
{
    let mut i: usize = start;
    while i < hay.len() && needle.len() <= hay.len() - i
        invariant
            start <= i,
            find_from(hay@, needle@, start as int) == find_from(hay@, needle@, i as int),
        decreases hay.len() - i,
    {
        if sits_at(hay, needle, i) {
            return Some(i);
        }
        i = i + 1;
    }
    None
}

/// Whether a backslash occurs between `start` and `end`, excluded.
fn backslash_between(chars: &Vec<char>, start: usize, end: usize) -> (found: bool)
    requires
        start <= end <= chars@.len(),
    ensures
        found == chars@.subrange(start as int, end as int).contains('\\'),
{
    let ghost value = chars@.subrange(start as int, end as int);
    let mut i: usize = start;
    while i < end
        invariant
            start <= i <= end,
            end <= chars@.len(),
            value == chars@.subrange(start as int, end as int),
            forall|j: int| start <= j < i ==> chars@[j] != '\\',
        decreases end - i,
    {
        if chars[i] == '\\' {
            assert(value[i - start] == '\\');
            return true;
        }
        i = i + 1;
    }
    assert forall|j: int| 0 <= j < value.len() implies value[j] != '\\' by {
        assert(value[j] == chars@[start + j]);
    }
    false
}

/// Reads the stored combination out of the file's text.
///
/// A backslash is refused rather than decoded: nothing here ever writes one,
/// so meeting one means the file was edited by something else. The key is
/// found by its first occurrence.
pub fn parse(text: &str) -> (value: Result<String, String>)
    ensures
        text_result(value) == parse_spec(text@),
{
    let chars = chars_of(text);
    let key = chars_of("\"captureShortcut\"");
    let at = match find_in(&chars, &key, 0) {
        Some(at) => at,
        None => {
            return Err(String::from_str(
                "it holds no `captureShortcut` key, so there is no combination in it to read",
            ));
        },
    };
    proof {
        lemma_find_from_found(chars@, key@, 0, at as int);
    }
    let colon = skip_white(&chars, at + key.len());
    if colon >= chars.len() || chars[colon] != ':' {
        return Err(String::from_str(
            "`captureShortcut` is not followed by `:`, so this is not the file this application writes",
        ));
    }
    let quote = skip_white(&chars, colon + 1);
    if quote >= chars.len() || chars[quote] != '"' {
        return Err(String::from_str("the value of `captureShortcut` is not a quoted string"));
    }
    let closing: Vec<char> = vec!['"'];
    assert(closing@ =~= seq!['"']);
    let end = match find_in(&chars, &closing, quote + 1) {
        Some(end) => end,
        None => {
            return Err(String::from_str(
                "the value of `captureShortcut` opens a quote that is never closed",
            ));
        },
    };
    proof {
        lemma_find_from_found(chars@, closing@, quote + 1, end as int);
    }
    if backslash_between(&chars, quote + 1, end) {
        return Err(String::from_str(
            "the value of `captureShortcut` holds a backslash. This reader does not decode escapes and never writes one, so the file was edited by something else",
        ));
    }
    if end == quote + 1 {
        return Err(String::from_str("`captureShortcut` is empty, which names no combination at all"));
    }
    let mut found = String::new();
    push_range(&mut found, &chars, quote + 1, end);
    assert(found@ =~= chars@.subrange(quote + 1, end as int));
    Ok(found)
}

/// The text written to disk for one combination. A quote, a backslash or a
/// line break is refused rather than escaped: this writer escapes nothing.
pub fn render(accelerator: &str) -> (text: Result<String, String>)
    ensures
        match text {
            Ok(body) => renderable(accelerator@) && body@ == render_text(accelerator@),
            Err(message) => !renderable(accelerator@) && message@ == unrenderable_message(accelerator@),
        },
{
    let chars = chars_of(accelerator);
    let mut i: usize = 0;
    while i < chars.len()
        invariant
            i <= chars@.len(),
            chars@ == accelerator@,
            forall|j: int|
                0 <= j < i ==> {
                    let c = #[trigger] chars@[j];
                    c != '"' && c != '\\' && c != '\n' && c != '\r'
                },
        decreases chars.len() - i,
    {
        let c = chars[i];
        if c == '"' || c == '\\' || c == '\n' || c == '\r' {
            let mut message = String::from_str("`");
            message.append(accelerator);
            message.append(
                "` holds a quote, a backslash or a line break. This writer escapes nothing, and an accelerator never needs it",
            );
            return Err(message);
        }
        i = i + 1;
    }
    let mut body = String::from_str("{\n  \"captureShortcut\": \"");
    body.append(accelerator);
    body.append("\"\n}\n");
    Ok(body)
}

/// Turns what the file system answered into an answer about the settings:
/// no file is an ordinary first launch, and every other failure is reported
/// with the path it happened to.
pub fn interpret(path: &str, file: FileText) -> (answer: SettingsRead)
    ensures
        match file {
            FileText::NotFound => answer is Absent,
            FileText::Failed(reason) => answer matches SettingsRead::Unusable(m)
                && m@ == path@ + " could not be read: "@ + reason@,
            FileText::Read(text) => match parse_spec(text@) {
                Ok(value) => answer matches SettingsRead::Chosen(c) && c@ == value,
                Err(why) => answer matches SettingsRead::Unusable(m) && m@ == path@ + " is unusable: "@ + why,
            },
        },
{
    match file {
        FileText::NotFound => SettingsRead::Absent,
        FileText::Failed(reason) => {
            let mut message = String::from_str(path);
            message.append(" could not be read: ");
            message.append(reason.as_str());
            SettingsRead::Unusable(message)
        },
        FileText::Read(text) => match parse(text.as_str()) {
            Ok(value) => SettingsRead::Chosen(value),
            Err(why) => {
                let mut message = String::from_str(path);
                message.append(" is unusable: ");
                message.append(why.as_str());
                SettingsRead::Unusable(message)
            },
        },
    }
}

/// Scanning for a quote from `start` stops at the first one.
proof fn lemma_next_quote(text: Seq<char>, start: int, end: int)
    requires
        0 <= start <= end < text.len(),
        text[end] == '"',
        forall|k: int| start <= k < end ==> text[k] != '"',
    ensures
        find_from(text, seq!['"'], start) == Some(end),
    decreases end - start,
{
    if start < end {
        assert(text.subrange(start, start + 1)[0] != '"');
        assert(text.subrange(start, start + 1) != seq!['"']);
        lemma_next_quote(text, start + 1, end);
    } else {
        assert(text.subrange(start, start + 1) =~= seq!['"']);
    }
}

/// What this module writes, it reads back: for every combination the writer
/// accepts, other than the empty one, the reader returns exactly that
/// combination from the written text.
pub proof fn law_written_text_reads_back(accelerator: Seq<char>)
    requires
        renderable(accelerator),
        accelerator.len() > 0,
    ensures
        parse_spec(render_text(accelerator)) == Ok::<Seq<char>, Seq<char>>(accelerator),
{
    reveal_strlit("{\n  \"captureShortcut\": \"");
    reveal_strlit("\"\n}\n");
    reveal_strlit("\"captureShortcut\"");
    let prefix = "{\n  \"captureShortcut\": \""@;
    let suffix = "\"\n}\n"@;
    let text = render_text(accelerator);
    let key = key_needle();
    let n = accelerator.len() as int;
    assert(prefix.len() == 24);
    assert(key.len() == 17);
    assert(text.len() == 24 + n + 4);
    assert forall|k: int| 0 <= k < 24 implies text[k] == prefix[k] by {}
    assert forall|k: int| 0 <= k < n implies text[24 + k] == accelerator[k] by {}
    assert(text[24 + n] == '"');
    assert(text.subrange(0, 17)[0] != key[0]);
    assert(text.subrange(1, 18)[0] != key[0]);
    assert(text.subrange(2, 19)[0] != key[0]);
    assert(text.subrange(3, 20)[0] != key[0]);
    assert(text.subrange(4, 21) =~= key);
    assert(find_from(text, key, 4) == Some(4int));
    assert(find_from(text, key, 3) == Some(4int));
    assert(find_from(text, key, 2) == Some(4int));
    assert(find_from(text, key, 1) == Some(4int));
    assert(find_from(text, key, 0) == Some(4int));
    assert(text[21] == ':');
    assert(white_end(text, 21) == 21);
    assert(text[23] == '"');
    assert(white_end(text, 23) == 23);
    assert(is_white(text[22]));
    assert(white_end(text, 22) == 23);
    assert forall|k: int| 24 <= k < 24 + n implies text[k] != '"' by {
        assert(text[k] == accelerator[k - 24]);
    }
    lemma_next_quote(text, 24, 24 + n);
    let value = text.subrange(24, 24 + n);
    assert(value =~= accelerator);
    assert(!value.contains('\\')) by {
        assert forall|k: int| 0 <= k < value.len() implies value[k] != '\\' by {
            assert(value[k] == accelerator[k]);
        }
    }
}

} // verus!
