//! Building the lines this application prints, one verified piece at a time.
//!
//! Every message of the library is assembled here from literals, decimal
//! numbers and the caller's own text, so that each one can be stated exactly
//! in a contract: the spec functions below say what the characters are.
use vstd::prelude::*;
use vstd::string::*;

verus! {

/// The decimal digit `d` as a character.
pub open spec fn digit_char(d: nat) -> char {
    (48 + d) as char
}

/// The decimal spelling of `n`, most significant digit first, no sign.
pub open spec fn decimal(n: nat) -> Seq<char>
    decreases n,
{
    if n < 10 {
        seq![digit_char(n)]
    } else {
        decimal(n / 10).push(digit_char(n % 10))
    }
}

/// `count` spaces.
pub open spec fn spaces(count: nat) -> Seq<char> {
    Seq::new(count, |i: int| ' ')
}

/// `text` followed by enough spaces to be `width` characters long, as `{:<width}`
/// formats it: a longer text is left as it is.
pub open spec fn pad_right(text: Seq<char>, width: nat) -> Seq<char> {
    if text.len() < width {
        text + spaces((width - text.len()) as nat)
    } else {
        text
    }
}

/// `text` preceded by enough spaces to be `width` characters long, as `{:>width}`
/// formats it.
pub open spec fn pad_left(text: Seq<char>, width: nat) -> Seq<char> {
    if text.len() < width {
        spaces((width - text.len()) as nat) + text
    } else {
        text
    }
}

/// A duration in nanoseconds, in tenths of a millisecond, rounded to the
/// nearest, and an exact half to the even tenth.
pub open spec fn tenths_of_ms(nanos: nat) -> nat {
    let whole = nanos / 100_000;
    let rest = nanos % 100_000;
    if rest > 50_000 || (rest == 50_000 && whole % 2 == 1) {
        whole + 1
    } else {
        whole
    }
}

/// A duration in nanoseconds as milliseconds with one decimal: `12.0 ms`.
pub open spec fn millis_text(nanos: nat) -> Seq<char> {
    let tenths = tenths_of_ms(nanos);
    decimal(tenths / 10) + seq!['.'] + seq![digit_char(tenths % 10)] + seq![' ', 'm', 's']
}

/// Whether `needle` occurs anywhere in `hay`.
pub open spec fn contains_seq(hay: Seq<char>, needle: Seq<char>) -> bool {
    exists|i: int| 0 <= i <= hay.len() - needle.len() && #[trigger] hay.subrange(i, i + needle.len()) == needle
}

/// Appends one character to a string (std's `String::push`, documented to
/// append the given `char` to the end of the string).
#[verifier::external_body]
pub(crate) fn push_char(s: &mut String, c: char)
    ensures
        final(s)@ == old(s)@.push(c),
{
    s.push(c)
}

/// The decimal digit `d` as a character, in executable form.
pub fn digit(d: u64) -> (c: char)
    requires
        d < 10,
    ensures
        c == digit_char(d as nat),
{
    let b: u8 = (48 + d) as u8;
    b as char
}

/// Appends the decimal spelling of `n`.
pub fn push_decimal(s: &mut String, n: u64)
    ensures
        final(s)@ == old(s)@ + decimal(n as nat),
    decreases n,
{
    if n < 10 {
        push_char(s, digit(n));
    } else {
        push_decimal(s, n / 10);
        push_char(s, digit(n % 10));
        assert(decimal(n as nat) == decimal((n / 10) as nat).push(digit_char((n % 10) as nat)));
    }
}

/// Appends `count` spaces.
pub fn push_spaces(s: &mut String, count: usize)
    ensures
        final(s)@ == old(s)@ + spaces(count as nat),
{
    let ghost start = s@;
    let mut i: usize = 0;
    while i < count
        invariant
            i <= count,
            s@ == start + spaces(i as nat),
        decreases count - i,
    {
        push_char(s, ' ');
        i = i + 1;
        assert(s@ =~= start + spaces(i as nat));
    }
}

/// The number of characters of `text`.
pub fn char_count(text: &str) -> (n: usize)
    ensures
        n as nat == text@.len(),
{
    text.unicode_len()
}

/// Appends `text` followed by spaces up to `width` characters.
pub fn push_padded_right(s: &mut String, text: &str, width: usize)
    ensures
        final(s)@ == old(s)@ + pad_right(text@, width as nat),
{
    let len = char_count(text);
    s.append(text);
    if len < width {
        push_spaces(s, width - len);
        assert(s@ =~= old(s)@ + pad_right(text@, width as nat));
    }
}

/// Appends spaces up to `width` characters, then `text`.
pub fn push_padded_left(s: &mut String, text: &str, width: usize)
    ensures
        final(s)@ == old(s)@ + pad_left(text@, width as nat),
{
    let len = char_count(text);
    if len < width {
        push_spaces(s, width - len);
    }
    s.append(text);
    assert(s@ =~= old(s)@ + pad_left(text@, width as nat));
}

/// Appends a duration in nanoseconds as milliseconds with one decimal.
pub fn push_millis(s: &mut String, nanos: u64)
    ensures
        final(s)@ == old(s)@ + millis_text(nanos as nat),
{
    let whole: u64 = nanos / 100_000;
    let rest: u64 = nanos % 100_000;
    let tenths: u64 = if rest > 50_000 || (rest == 50_000 && whole % 2 == 1) {
        whole + 1
    } else {
        whole
    };
    push_decimal(s, tenths / 10);
    push_char(s, '.');
    push_char(s, digit(tenths % 10));
    push_char(s, ' ');
    push_char(s, 'm');
    push_char(s, 's');
    assert(s@ =~= old(s)@ + millis_text(nanos as nat));
}

/// A duration in nanoseconds as milliseconds with one decimal, on its own.
pub fn millis_string(nanos: u64) -> (text: String)
    ensures
        text@ == millis_text(nanos as nat),
{
    let mut text = String::new();
    push_millis(&mut text, nanos);
    assert(text@ =~= millis_text(nanos as nat));
    text
}

/// Whether two texts are the same characters.
pub fn same_text(a: &str, b: &str) -> (same: bool)
    ensures
        same == (a@ == b@),
{
    let n = a.unicode_len();
    if n != b.unicode_len() {
        return false;
    }
    let mut i: usize = 0;
    while i < n
        invariant
            n == a@.len(),
            n == b@.len(),
            i <= n,
            forall|k: int| 0 <= k < i ==> a@[k] == b@[k],
        decreases n - i,
    {
        if a.get_char(i) != b.get_char(i) {
            return false;
        }
        i = i + 1;
    }
    assert(a@ =~= b@);
    true
}

/// The characters of `text`, one by one.
pub fn chars_of(text: &str) -> (chars: Vec<char>)
    ensures
        chars@ == text@,
{
    let n = text.unicode_len();
    let mut chars: Vec<char> = Vec::new();
    let mut i: usize = 0;
    while i < n
        invariant
            n == text@.len(),
            i <= n,
            chars@ == text@.subrange(0, i as int),
        decreases n - i,
    {
        chars.push(text.get_char(i));
        i = i + 1;
        assert(chars@ =~= text@.subrange(0, i as int));
    }
    assert(text@.subrange(0, n as int) =~= text@);
    chars
}

/// Appends the characters of `chars` from `start` up to `end`, excluded.
pub fn push_range(s: &mut String, chars: &Vec<char>, start: usize, end: usize)
    requires
        start <= end <= chars@.len(),
    ensures
        final(s)@ == old(s)@ + chars@.subrange(start as int, end as int),
{
    let mut i: usize = start;
    while i < end
        invariant
            start <= i <= end,
            end <= chars@.len(),
            s@ == old(s)@ + chars@.subrange(start as int, i as int),
        decreases end - i,
    {
        push_char(s, chars[i]);
        i = i + 1;
        assert(s@ =~= old(s)@ + chars@.subrange(start as int, i as int));
    }
}

/// Whether `chars` begins with the characters of `prefix`.
pub fn starts_with_text(chars: &Vec<char>, prefix: &str) -> (starts: bool)
    ensures
        starts == prefix@.is_prefix_of(chars@),
{
    let wanted = chars_of(prefix);
    if wanted.len() > chars.len() {
        return false;
    }
    let mut i: usize = 0;
    while i < wanted.len()
        invariant
            wanted@ == prefix@,
            wanted@.len() <= chars@.len(),
            i <= wanted@.len(),
            forall|k: int| 0 <= k < i ==> chars@[k] == wanted@[k],
        decreases wanted.len() - i,
    {
        if chars[i] != wanted[i] {
            assert(chars@.subrange(0, wanted@.len() as int)[i as int] != wanted@[i as int]);
            return false;
        }
        i = i + 1;
    }
    assert(chars@.subrange(0, wanted@.len() as int) =~= wanted@);
    true
}

/// Whether two character sequences are the same.
pub fn same_chars(a: &Vec<char>, b: &str) -> (same: bool)
    ensures
        same == (a@ == b@),
{
    let wanted = chars_of(b);
    if a.len() != wanted.len() {
        return false;
    }
    let mut i: usize = 0;
    while i < a.len()
        invariant
            wanted@ == b@,
            a@.len() == wanted@.len(),
            i <= a@.len(),
            forall|k: int| 0 <= k < i ==> a@[k] == wanted@[k],
        decreases a.len() - i,
    {
        if a[i] != wanted[i] {
            return false;
        }
        i = i + 1;
    }
    assert(a@ =~= wanted@);
    true
}

} // verus!
