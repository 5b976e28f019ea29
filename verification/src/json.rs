//! The JSON text of strings and of unsigned numbers.
//!
//! A string is written between double quotes. The quote and the backslash
//! get a backslash in front, the control characters below U+0020 are escaped
//! (`\b`, `\t`, `\n`, `\f`, `\r`, and `\u00` with two hexadecimal digits for
//! the others), and every other character stands for itself. A number is
//! written in decimal digits.

use vstd::prelude::*;

verus! {

/// Appends one character to a string.
///
/// Not proved: `String::push` of the standard library puts the character at
/// the end and leaves what was there.
#[verifier::external_body]
pub(crate) fn string_push(text: &mut String, c: char)
    ensures
        final(text)@ == old(text)@.push(c),
{
    text.push(c);
}

/// The character of a decimal digit.
pub open spec fn decimal_digit(value: int) -> char {
    (value + 0x30) as u8 as char
}

/// The character of a hexadecimal digit, in lower case.
pub open spec fn hex_digit(value: int) -> char {
    if value < 10 {
        (value + 0x30) as u8 as char
    } else {
        (value + 0x57) as u8 as char
    }
}

/// A control character: one below U+0020.
pub open spec fn is_control(c: char) -> bool {
    (c as u32) < 0x20
}

/// What stands for one character inside a JSON string.
pub open spec fn escaped_char(c: char) -> Seq<char> {
    if c == '"' {
        seq!['\\', '"']
    } else if c == '\\' {
        seq!['\\', '\\']
    } else if c == '\u{08}' {
        seq!['\\', 'b']
    } else if c == '\t' {
        seq!['\\', 't']
    } else if c == '\n' {
        seq!['\\', 'n']
    } else if c == '\u{0c}' {
        seq!['\\', 'f']
    } else if c == '\r' {
        seq!['\\', 'r']
    } else if is_control(c) {
        seq!['\\', 'u', '0', '0', hex_digit((c as u32) as int / 16), hex_digit((c as u32) as int % 16)]
    } else {
        seq![c]
    }
}

/// What stands for a text inside a JSON string: its characters, escaped one
/// by one.
pub open spec fn escaped(text: Seq<char>) -> Seq<char>
    decreases text.len(),
{
    if text.len() == 0 {
        Seq::empty()
    } else {
        escaped(text.drop_last()) + escaped_char(text.last())
    }
}

/// The JSON string that holds a text.
pub open spec fn json_string(text: Seq<char>) -> Seq<char> {
    seq!['"'] + escaped(text) + seq!['"']
}

/// The decimal digits of a number, without leading zeros.
pub open spec fn decimal(n: nat) -> Seq<char>
    decreases n,
{
    if n < 10 {
        seq![decimal_digit(n as int)]
    } else {
        decimal(n / 10).push(decimal_digit((n % 10) as int))
    }
}

/// Escaping goes character by character: one more character of the text
/// adds what stands for it.
pub proof fn lemma_escaped_step(text: Seq<char>, n: int)
    requires
        0 <= n < text.len(),
    ensures
        escaped(text.take(n + 1)) == escaped(text.take(n)) + escaped_char(text[n]),
{
    assert(text.take(n + 1).drop_last() == text.take(n));
}

/// Whether a text holds no control character. Such a text holds no line
/// feed.
pub open spec fn has_no_control(text: Seq<char>) -> bool {
    forall|i: int| 0 <= i < text.len() ==> !is_control(#[trigger] text[i])
}

/// Two texts without control characters make one without.
pub proof fn lemma_no_control_concat(left: Seq<char>, right: Seq<char>)
    requires
        has_no_control(left),
        has_no_control(right),
    ensures
        has_no_control(left + right),
{
    assert forall|i: int| 0 <= i < (left + right).len() implies !is_control(
        #[trigger] (left + right)[i],
    ) by {
        if i < left.len() {
            assert((left + right)[i] == left[i]);
        } else {
            assert((left + right)[i] == right[i - left.len()]);
        }
    }
}

/// What stands for a character holds no control character.
pub proof fn lemma_escaped_char_has_no_control(c: char)
    ensures
        has_no_control(escaped_char(c)),
{
    let code = (c as u32) as int;
    if is_control(c) {
        assert(0 <= code / 16 < 2);
        assert(0 <= code % 16 < 16);
    }
}

/// A JSON string holds no control character, whatever the text it holds:
/// the control characters of the text are escaped.
pub proof fn lemma_json_string_has_no_control(text: Seq<char>)
    ensures
        has_no_control(escaped(text)),
        has_no_control(json_string(text)),
    decreases text.len(),
{
    if text.len() > 0 {
        lemma_json_string_has_no_control(text.drop_last());
        lemma_escaped_char_has_no_control(text.last());
        lemma_no_control_concat(escaped(text.drop_last()), escaped_char(text.last()));
    }
    lemma_no_control_concat(seq!['"'], escaped(text));
    lemma_no_control_concat(seq!['"'] + escaped(text), seq!['"']);
}

/// A number is written in decimal digits only, and in one at least.
pub proof fn lemma_decimal_is_digits(n: nat)
    ensures
        decimal(n).len() >= 1,
        forall|i: int| 0 <= i < decimal(n).len() ==> '0' <= #[trigger] decimal(n)[i] <= '9',
        has_no_control(decimal(n)),
    decreases n,
{
    if n >= 10 {
        lemma_decimal_is_digits(n / 10);
    }
}

/// Appends what stands for `c` inside a JSON string.
pub fn push_escaped_char(out: &mut String, c: char)
    ensures
        final(out)@ == old(out)@ + escaped_char(c),
{
    if c == '"' {
        string_push(out, '\\');
        string_push(out, '"');
    } else if c == '\\' {
        string_push(out, '\\');
        string_push(out, '\\');
    } else if c == '\u{08}' {
        string_push(out, '\\');
        string_push(out, 'b');
    } else if c == '\t' {
        string_push(out, '\\');
        string_push(out, 't');
    } else if c == '\n' {
        string_push(out, '\\');
        string_push(out, 'n');
    } else if c == '\u{0c}' {
        string_push(out, '\\');
        string_push(out, 'f');
    } else if c == '\r' {
        string_push(out, '\\');
        string_push(out, 'r');
    } else if (c as u32) < 0x20 {
        let code: u32 = c as u32;
        string_push(out, '\\');
        string_push(out, 'u');
        string_push(out, '0');
        string_push(out, '0');
        string_push(out, hex_digit_char((code / 16) as u8));
        string_push(out, hex_digit_char((code % 16) as u8));
    } else {
        string_push(out, c);
    }
    assert(final(out)@ =~= old(out)@ + escaped_char(c));
}

/// The character of a hexadecimal digit, in lower case.
pub fn hex_digit_char(value: u8) -> (c: char)
    requires
        value < 16,
    ensures
        c == hex_digit(value as int),
{
    if value < 10 {
        (value + 0x30) as char
    } else {
        (value + 0x57) as char
    }
}

/// Appends the JSON string that holds `text`.
pub fn push_json_string(out: &mut String, text: &str)
    ensures
        final(out)@ == old(out)@ + json_string(text@),
{
    string_push(out, '"');
    for c in it: text.chars()
        invariant
            it.seq() == text@,
            out@ == old(out)@.push('"') + escaped(text@.take(it.index() as int)),
    {
        push_escaped_char(out, c);
        proof {
            lemma_escaped_step(text@, it.index() as int);
        }
    }
    string_push(out, '"');
    assert(text@.take(text@.len() as int) == text@);
    assert(final(out)@ =~= old(out)@ + json_string(text@));
}

/// Appends the decimal digits of `n`.
pub fn push_decimal(out: &mut String, n: u64)
    ensures
        final(out)@ == old(out)@ + decimal(n as nat),
    decreases n,
{
    if n >= 10 {
        push_decimal(out, n / 10);
    }
    string_push(out, ((n % 10) as u8 + 0x30) as char);
    assert(final(out)@ =~= old(out)@ + decimal(n as nat));
}

/// The JSON string that holds `text`.
pub fn to_json_string(text: &str) -> (json: String)
    ensures
        json@ == json_string(text@),
{
    let mut json = String::new();
    push_json_string(&mut json, text);
    json
}

/// The decimal digits of `n`.
pub fn to_decimal(n: u64) -> (digits: String)
    ensures
        digits@ == decimal(n as nat),
{
    let mut digits = String::new();
    push_decimal(&mut digits, n);
    digits
}

} // verus!
