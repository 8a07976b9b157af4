//! Text building blocks shared by the generators: comparison, decimal numbers,
//! byte escapes and the quoting done by the standard library.

use convert_case::{Case, Casing};
use vstd::prelude::*;

verus! {

/// Compares two string slices with `str::eq`: the result tells whether they
/// hold the same characters.
#[verifier::external_body]
pub(crate) fn same_text(a: &str, b: &str) -> (same: bool)
    ensures
        same == (a@ == b@),
{
    a == b
}

/// Appends one character with `String::push`: the text afterwards is the
/// text before with the character at its end.
#[verifier::external_body]
pub(crate) fn push_char(text: &mut String, c: char)
    ensures
        final(text)@ == old(text)@.push(c),
{
    text.push(c)
}

/// The character of a digit below sixteen, in lower case.
pub open spec fn digit_char(d: int) -> char {
    if d < 10 {
        (48 + d) as u8 as char
    } else {
        (87 + d) as u8 as char
    }
}

/// The decimal digits of a natural number, most significant first.
pub open spec fn natural_text(n: nat) -> Seq<char>
    decreases n,
{
    if n < 10 {
        seq![digit_char(n as int)]
    } else {
        natural_text(n / 10).push(digit_char((n % 10) as int))
    }
}

/// The decimal form of an integer: a minus sign for negative numbers, then the
/// digits of its magnitude.
pub open spec fn integer_text(n: int) -> Seq<char> {
    if n < 0 {
        seq!['-'] + natural_text((-n) as nat)
    } else {
        natural_text(n as nat)
    }
}

fn digit_of(d: u8) -> (c: char)
    requires
        d < 16,
    ensures
        c == digit_char(d as int),
{
    if d < 10 {
        (48 + d) as char
    } else {
        (87 + d) as char
    }
}

/// Writes a natural number in decimal.
pub fn natural_to_string(n: u64) -> (text: String)
    ensures
        text@ == natural_text(n as nat),
    decreases n,
{
    if n < 10 {
        let mut text = String::new();
        push_char(&mut text, digit_of(n as u8));
        text
    } else {
        let mut text = natural_to_string(n / 10);
        push_char(&mut text, digit_of((n % 10) as u8));
        text
    }
}

/// Writes a signed integer in decimal.
pub fn integer_to_string(n: i64) -> (text: String)
    ensures
        text@ == integer_text(n as int),
{
    if n < 0 {
        let magnitude: i128 = -(n as i128);
        let digits = natural_to_string(magnitude as u64);
        let mut text = String::new();
        push_char(&mut text, '-');
        text.append(digits.as_str());
        text
    } else {
        natural_to_string(n as u64)
    }
}

/// One byte as it stands inside a quoted C string: the usual backslash
/// escapes, printable ASCII unchanged, everything else as `\x` and two
/// lower-case hexadecimal digits.
pub open spec fn escaped_byte(b: u8) -> Seq<char> {
    if b == 9 {
        seq!['\\', 't']
    } else if b == 13 {
        seq!['\\', 'r']
    } else if b == 10 {
        seq!['\\', 'n']
    } else if b == 39 {
        seq!['\\', '\'']
    } else if b == 34 {
        seq!['\\', '"']
    } else if b == 92 {
        seq!['\\', '\\']
    } else if 0x20 <= b <= 0x7e {
        seq![b as char]
    } else {
        seq!['\\', 'x', digit_char(b as int / 16), digit_char(b as int % 16)]
    }
}

/// The escaped form of a byte sequence: the escapes of its bytes, in order.
pub open spec fn escaped_bytes(bytes: Seq<u8>) -> Seq<char>
    decreases bytes.len(),
{
    if bytes.len() == 0 {
        Seq::empty()
    } else {
        escaped_bytes(bytes.drop_last()) + escaped_byte(bytes.last())
    }
}

fn push_escaped_byte(text: &mut String, b: u8)
    ensures
        final(text)@ == old(text)@ + escaped_byte(b),
{
    let ghost before = text@;
    if b == 9 {
        push_char(text, '\\');
        push_char(text, 't');
    } else if b == 13 {
        push_char(text, '\\');
        push_char(text, 'r');
    } else if b == 10 {
        push_char(text, '\\');
        push_char(text, 'n');
    } else if b == 39 {
        push_char(text, '\\');
        push_char(text, '\'');
    } else if b == 34 {
        push_char(text, '\\');
        push_char(text, '"');
    } else if b == 92 {
        push_char(text, '\\');
        push_char(text, '\\');
    } else if 0x20 <= b && b <= 0x7e {
        push_char(text, b as char);
    } else {
        push_char(text, '\\');
        push_char(text, 'x');
        push_char(text, digit_of(b / 16));
        push_char(text, digit_of(b % 16));
    }
    assert(text@ =~= before + escaped_byte(b));
}

/// Escapes a byte sequence for use inside a quoted C string.
pub fn escape_bytes(bytes: &Vec<u8>) -> (text: String)
    ensures
        text@ == escaped_bytes(bytes@),
{
    let mut text = String::new();
    let mut i: usize = 0;
    while i < bytes.len()
        invariant
            i <= bytes.len(),
            text@ == escaped_bytes(bytes@.take(i as int)),
        decreases bytes.len() - i,
    {
        push_escaped_byte(&mut text, bytes[i]);
        proof {
            let next = bytes@.take(i + 1);
            assert(next.drop_last() =~= bytes@.take(i as int));
            assert(next.last() == bytes@[i as int]);
        }
        i += 1;
    }
    assert(bytes@.take(bytes.len() as int) =~= bytes@);
    text
}

/// The ways of writing a name that the generators use.
#[derive(Clone, Copy, Debug, PartialEq, Eq)]
pub enum CaseStyle {
    /// `PascalCase`
    Pascal,
    /// `snake_case`
    Snake,
    /// `UPPER_SNAKE_CASE`
    UpperSnake,
}

/// What `convert_case` makes of a text when asked for a style.
pub uninterp spec fn recased(text: Seq<char>, style: CaseStyle) -> Seq<char>;

/// What the standard library's `Debug` formatting makes of a character: the
/// character between single quotes, escaped where needed.
pub uninterp spec fn char_literal(c: char) -> Seq<char>;

/// What the standard library's `Debug` formatting makes of a string: the text
/// between double quotes, escaped where needed.
pub uninterp spec fn string_literal(text: Seq<char>) -> Seq<char>;

/// Rewrites a text in the given style with `convert_case`'s `Casing::to_case`.
/// The outcome depends on the text and the style alone; what it is is not
/// stated here.
#[verifier::external_body]
pub(crate) fn recase(text: &str, style: CaseStyle) -> (out: String)
    ensures
        out@ == recased(text@, style),
{
    match style {
        CaseStyle::Pascal => text.to_case(Case::Pascal),
        CaseStyle::Snake => text.to_case(Case::Snake),
        CaseStyle::UpperSnake => text.to_case(Case::UpperSnake),
    }
}

/// Formats a character as a character literal with `format!("{:?}", ..)`.
/// The outcome depends on the character alone; what it is is not stated here.
#[verifier::external_body]
pub(crate) fn quote_char(c: char) -> (out: String)
    ensures
        out@ == char_literal(c),
{
    format!("{:?}", c)
}

/// Formats a string as a string literal with `format!("{:?}", ..)`. The
/// outcome depends on the string alone; what it is is not stated here.
#[verifier::external_body]
pub(crate) fn quote_string(text: &str) -> (out: String)
    ensures
        out@ == string_literal(text@),
{
    format!("{:?}", text)
}

/// The number that a decimal digit stands for.
pub open spec fn digit_value(c: char) -> nat {
    (c as int - 48) as nat
}

/// The number that a text of decimal digits stands for. A text that is empty
/// or holds anything but the digits `0` to `9` stands for none.
pub open spec fn digits_value(text: Seq<char>) -> Option<nat>
    decreases text.len(),
{
    if text.len() == 0 || !('0' <= text.last() <= '9') {
        None
    } else if text.len() == 1 {
        Some(digit_value(text.last()))
    } else {
        match digits_value(text.drop_last()) {
            Some(value) => Some(value * 10 + digit_value(text.last())),
            None => None,
        }
    }
}

/// A text that starts with what is no number is no number.
pub proof fn lemma_digits_none_persists(text: Seq<char>, k: int)
    requires
        1 <= k <= text.len(),
        digits_value(text.take(k)) is None,
    ensures
        digits_value(text) is None,
    decreases text.len(),
{
    if k < text.len() {
        assert(text.drop_last().take(k) =~= text.take(k));
        lemma_digits_none_persists(text.drop_last(), k);
    } else {
        assert(text.take(k) =~= text);
    }
}

/// More digits never make a number smaller.
pub proof fn lemma_digits_grow(text: Seq<char>, k: int)
    requires
        1 <= k <= text.len(),
        digits_value(text.take(k)) is Some,
    ensures
        digits_value(text) matches Some(value) ==> value >= digits_value(text.take(k)).unwrap(),
    decreases text.len(),
{
    if k < text.len() {
        assert(text.drop_last().take(k) =~= text.take(k));
        lemma_digits_grow(text.drop_last(), k);
    } else {
        assert(text.take(k) =~= text);
    }
}

/// Reads a text of decimal digits as a number up to `max`.
pub fn parse_digits(text: &str, max: u64) -> (out: Option<u64>)
    ensures
        out == match digits_value(text@) {
            Some(value) => if value <= max {
                Some(value as u64)
            } else {
                None
            },
            None => None,
        },
{
    let n = text.unicode_len();
    if n == 0 {
        return None;
    }
    let mut value: u64 = 0;
    let mut i: usize = 0;
    while i < n
        invariant
            i <= n,
            n == text@.len(),
            value <= max,
            i == 0 ==> value == 0,
            i > 0 ==> digits_value(text@.take(i as int)) == Some(value as nat),
        decreases n - i,
    {
        let c = text.get_char(i);
        proof {
            let next = text@.take(i + 1);
            assert(next.drop_last() =~= text@.take(i as int));
            assert(next.last() == c);
        }
        if !('0' <= c && c <= '9') {
            proof {
                lemma_digits_none_persists(text@, i + 1);
            }
            return None;
        }
        let digit: u128 = (c as u32 - 48) as u128;
        let next: u128 = value as u128 * 10 + digit;
        if next > max as u128 {
            proof {
                lemma_digits_grow(text@, i + 1);
            }
            return None;
        }
        value = next as u64;
        i += 1;
    }
    assert(text@.take(i as int) =~= text@);
    Some(value)
}

/// The decimal form of a number is one or more digits.
pub proof fn lemma_natural_text_is_digits(n: nat)
    ensures
        natural_text(n).len() >= 1,
        forall|i: int|
            0 <= i < natural_text(n).len() ==> '0' <= #[trigger] natural_text(n)[i] <= '9',
    decreases n,
{
    if n >= 10 {
        lemma_natural_text_is_digits(n / 10);
    }
}

/// Reading the decimal form of a number gives the number back.
pub proof fn lemma_digits_of_natural_text(n: nat)
    ensures
        digits_value(natural_text(n)) == Some(n),
    decreases n,
{
    if n >= 10 {
        lemma_digits_of_natural_text(n / 10);
        lemma_natural_text_is_digits(n / 10);
        let text = natural_text(n);
        assert(text.drop_last() =~= natural_text(n / 10));
        assert(text.last() == digit_char((n % 10) as int));
    }
}

/// The characters that only part tokens from each other.
pub open spec fn is_space(c: char) -> bool {
    c == ' ' || c == '\t' || c == '\n' || c == '\r'
}

/// A text without the space between its tokens.
pub open spec fn squeezed(text: Seq<char>) -> Seq<char>
    decreases text.len(),
{
    if text.len() == 0 {
        Seq::empty()
    } else if is_space(text.last()) {
        squeezed(text.drop_last())
    } else {
        squeezed(text.drop_last()).push(text.last())
    }
}

/// Takes the space between the tokens out of a text, so that two ways of
/// printing the same tokens compare equal.
pub fn squeeze(text: &str) -> (out: String)
    ensures
        out@ == squeezed(text@),
{
    let n = text.unicode_len();
    let mut out = String::new();
    let mut i: usize = 0;
    assert(text@.take(0) =~= Seq::empty());
    while i < n
        invariant
            i <= n,
            n == text@.len(),
            out@ == squeezed(text@.take(i as int)),
        decreases n - i,
    {
        let c = text.get_char(i);
        proof {
            let next = text@.take(i + 1);
            assert(next.drop_last() =~= text@.take(i as int));
            assert(next.last() == c);
        }
        if !(c == ' ' || c == '\t' || c == '\n' || c == '\r') {
            push_char(&mut out, c);
        }
        i += 1;
    }
    assert(text@.take(i as int) =~= text@);
    out
}

/// The number of points in a text of digits and points. A text that holds
/// anything else has none.
pub open spec fn decimal_points(text: Seq<char>) -> Option<nat>
    decreases text.len(),
{
    if text.len() == 0 {
        Some(0)
    } else {
        match decimal_points(text.drop_last()) {
            None => None,
            Some(points) => if '0' <= text.last() <= '9' {
                Some(points)
            } else if text.last() == '.' {
                Some(points + 1)
            } else {
                None
            },
        }
    }
}

/// A text is a number in decimal: digits, with at most one point among them
/// that stands neither first nor last.
pub open spec fn is_unsigned_decimal(text: Seq<char>) -> bool {
    &&& text.len() > 0
    &&& '0' <= text[0] <= '9'
    &&& '0' <= text.last() <= '9'
    &&& decimal_points(text) matches Some(points) && points <= 1
}

/// A text is a number in decimal, with or without a minus sign in front.
pub open spec fn is_decimal_text(text: Seq<char>) -> bool {
    if text.len() > 0 && text[0] == '-' {
        is_unsigned_decimal(text.skip(1))
    } else {
        is_unsigned_decimal(text)
    }
}

/// A text that starts with what is no text of digits and points is none.
pub proof fn lemma_decimal_points_none_persists(text: Seq<char>, k: int)
    requires
        0 <= k <= text.len(),
        decimal_points(text.take(k)) is None,
    ensures
        decimal_points(text) is None,
    decreases text.len(),
{
    if k < text.len() {
        assert(text.drop_last().take(k) =~= text.take(k));
        lemma_decimal_points_none_persists(text.drop_last(), k);
    } else {
        assert(text.take(k) =~= text);
    }
}

/// More characters never make the points fewer.
pub proof fn lemma_decimal_points_grow(text: Seq<char>, k: int)
    requires
        0 <= k <= text.len(),
        decimal_points(text.take(k)) is Some,
    ensures
        decimal_points(text) matches Some(points) ==> points >= decimal_points(
            text.take(k),
        ).unwrap(),
    decreases text.len(),
{
    if k < text.len() {
        assert(text.drop_last().take(k) =~= text.take(k));
        lemma_decimal_points_grow(text.drop_last(), k);
    } else {
        assert(text.take(k) =~= text);
    }
}

/// A number in decimal holds digits, points and a minus sign and nothing
/// else: no space, no line break.
pub proof fn lemma_decimal_text_is_plain(text: Seq<char>)
    requires
        is_decimal_text(text),
    ensures
        forall|i: int|
            0 <= i < text.len() ==> ('0' <= #[trigger] text[i] <= '9') || text[i] == '.' || text[i]
                == '-',
{
    let body = if text.len() > 0 && text[0] == '-' {
        text.skip(1)
    } else {
        text
    };
    lemma_decimal_points_are_plain(body);
    assert forall|i: int| 0 <= i < text.len() implies ('0' <= #[trigger] text[i] <= '9') || text[i]
        == '.' || text[i] == '-' by {
        if text[0] == '-' && i > 0 {
            assert(body[i - 1] == text[i]);
        }
    }
}

proof fn lemma_decimal_points_are_plain(text: Seq<char>)
    requires
        decimal_points(text) is Some,
    ensures
        forall|i: int| 0 <= i < text.len() ==> ('0' <= #[trigger] text[i] <= '9') || text[i] == '.',
    decreases text.len(),
{
    if text.len() > 0 {
        lemma_decimal_points_are_plain(text.drop_last());
        assert forall|i: int| 0 <= i < text.len() implies ('0' <= #[trigger] text[i] <= '9')
            || text[i] == '.' by {
            if i < text.len() - 1 {
                assert(text.drop_last()[i] == text[i]);
            }
        }
    }
}

fn is_unsigned_decimal_text(text: &str) -> (ok: bool)
    ensures
        ok == is_unsigned_decimal(text@),
{
    let n = text.unicode_len();
    if n == 0 {
        return false;
    }
    let first = text.get_char(0);
    let last = text.get_char(n - 1);
    if !('0' <= first && first <= '9' && '0' <= last && last <= '9') {
        return false;
    }
    let mut points: usize = 0;
    let mut i: usize = 0;
    assert(text@.take(0) =~= Seq::empty());
    while i < n
        invariant
            i <= n,
            n == text@.len(),
            points <= 1,
            decimal_points(text@.take(i as int)) == Some(points as nat),
        decreases n - i,
    {
        let c = text.get_char(i);
        proof {
            let next = text@.take(i + 1);
            assert(next.drop_last() =~= text@.take(i as int));
            assert(next.last() == c);
        }
        if c == '.' {
            if points == 1 {
                proof {
                    lemma_decimal_points_grow(text@, i + 1);
                    if decimal_points(text@) is None {
                    }
                }
                return false;
            }
            points = 1;
        } else if !('0' <= c && c <= '9') {
            proof {
                lemma_decimal_points_none_persists(text@, i + 1);
            }
            return false;
        }
        i += 1;
    }
    assert(text@.take(i as int) =~= text@);
    true
}

/// Tells whether a text is a number in decimal.
pub fn is_decimal(text: &str) -> (ok: bool)
    ensures
        ok == is_decimal_text(text@),
{
    let n = text.unicode_len();
    if n > 0 && text.get_char(0) == '-' {
        let rest = text.substring_char(1, n);
        assert(rest@ =~= text@.skip(1));
        is_unsigned_decimal_text(rest)
    } else {
        is_unsigned_decimal_text(text)
    }
}

} // verus!
