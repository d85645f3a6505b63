//! Strings built one character at a time, and the case and control classes of a character.

use vstd::prelude::*;
use vstd::string::*;

verus! {

/// `String::push` appends one character to the end of the string.
pub assume_specification[ String::push ](text: &mut String, c: char)
    ensures
        final(text)@ == old(text)@.push(c),
;

/// What `char::to_lowercase` yields for a character outside ASCII.
pub uninterp spec fn unicode_lowercase(c: char) -> Seq<char>;

/// The lowercase form of an ASCII character: `a` to `z` for `A` to `Z`, itself for any other.
pub open spec fn ascii_lowercase(c: char) -> char {
    if 'A' <= c <= 'Z' {
        (c as u32 + 0x20) as char
    } else {
        c
    }
}

/// The characters a character lowercases to.
pub open spec fn lowercase(c: char) -> Seq<char> {
    if (c as u32) < 0x80 {
        seq![ascii_lowercase(c)]
    } else {
        unicode_lowercase(c)
    }
}

/// `char::to_lowercase`. An ASCII character becomes its ASCII lowercase form; what any other
/// one becomes is left to the Unicode tables, as a function of the character alone.
#[verifier::external_body]
fn char_to_lowercase(c: char) -> (lowered: String)
    ensures
        (c as u32) < 0x80 ==> lowered@ == seq![ascii_lowercase(c)],
        (c as u32) >= 0x80 ==> lowered@ == unicode_lowercase(c),
{
    c.to_lowercase().collect()
}

/// Every character of `text` lowercased, in order.
pub open spec fn lowercase_all(text: Seq<char>) -> Seq<char>
    decreases text.len(),
{
    if text.len() == 0 {
        seq![]
    } else {
        lowercase_all(text.drop_last()) + lowercase(text.last())
    }
}

/// `text` with every character lowercased.
pub fn to_lowercase(text: &str) -> (lowered: String)
    ensures
        lowered@ == lowercase_all(text@),
{
    let mut lowered = String::new();
    let length: usize = text.unicode_len();
    let mut i: usize = 0;
    while i < length
        invariant
            length == text@.len(),
            i <= length,
            lowered@ == lowercase_all(text@.take(i as int)),
        decreases length - i,
    {
        let c = text.get_char(i);
        let part = char_to_lowercase(c);
        lowered.append(part.as_str());
        proof {
            assert(text@.take(i + 1).drop_last() =~= text@.take(i as int));
        }
        i = i + 1;
    }
    proof {
        assert(text@.take(length as int) =~= text@);
    }
    lowered
}

/// The string that holds one character.
pub fn single(c: char) -> (text: String)
    ensures
        text@ == seq![c],
{
    let mut text = String::new();
    text.push(c);
    text
}

/// Whether a character is a control code: one of the C0 or C1 sets, or delete.
pub open spec fn is_control_code(c: char) -> bool {
    (c as u32) < 0x20 || 0x7f <= c as u32 <= 0x9f
}

pub fn is_control(c: char) -> (control: bool)
    ensures
        control == is_control_code(c),
{
    let code: u32 = c as u32;
    code < 0x20 || (0x7f <= code && code <= 0x9f)
}

/// The character of one decimal digit.
pub open spec fn digit(value: nat) -> char
    recommends
        value < 10,
{
    ('0' as u32 + value) as char
}

/// A number in decimal, without leading zeros.
pub open spec fn decimal_digits(value: nat) -> Seq<char>
    decreases value,
{
    if value < 10 {
        seq![digit(value)]
    } else {
        decimal_digits(value / 10).push(digit(value % 10))
    }
}

/// Appends a number in decimal to `text`.
pub fn push_decimal(text: &mut String, value: usize)
    ensures
        final(text)@ == old(text)@ + decimal_digits(value as nat),
    decreases value,
{
    if value >= 10 {
        push_decimal(text, value / 10);
    }
    let last: u8 = (value % 10) as u8;
    text.push((0x30u8 + last) as char);
    proof {
        assert(text@ =~= old(text)@ + decimal_digits(value as nat));
    }
}

/// What an optional string holds.
pub open spec fn text_of(text: Option<String>) -> Option<Seq<char>> {
    match text {
        Some(text) => Some(text@),
        None => None,
    }
}

} // verus!
