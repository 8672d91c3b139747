//! Text helpers: decoding source bytes and rendering integers in decimal.

use vstd::prelude::*;
use vstd::utf8::*;

verus! {

/// Trusted: `String::from_utf8_lossy`, on well-formed UTF-8 only, for which
/// the standard library documents that the text is the plain decoding of the
/// bytes.
#[verifier::external_body]
pub(crate) fn decode_text(bytes: &[u8]) -> (text: String)
    requires
        valid_utf8(bytes@),
    ensures
        text@ == decode_utf8(bytes@),
{
    String::from_utf8_lossy(bytes).into_owned()
}

/// A byte that encodes a character by itself.
pub open spec fn is_ascii_byte(byte: u8) -> bool {
    byte < 0x80
}

/// In well-formed UTF-8, a character starts at every byte that encodes a
/// character by itself, and at the end.
pub proof fn lemma_boundary_at_ascii(bytes: Seq<u8>, index: int)
    requires
        valid_utf8(bytes),
        0 <= index <= bytes.len(),
        index < bytes.len() ==> is_ascii_byte(bytes[index]),
    ensures
        is_char_boundary(bytes, index),
{
    if index < bytes.len() {
        is_char_boundary_iff_not_is_continuation_byte(bytes, index);
    } else {
        is_char_boundary_start_end_of_seq(bytes);
    }
}

/// The bytes between two places where characters start are well-formed
/// UTF-8 themselves.
pub proof fn lemma_valid_between(bytes: Seq<u8>, from: int, to: int)
    requires
        valid_utf8(bytes),
        0 <= from <= to <= bytes.len(),
        is_char_boundary(bytes, from),
        is_char_boundary(bytes, to),
    ensures
        valid_utf8(bytes.subrange(from, to)),
{
    let tail = bytes.subrange(from, bytes.len() as int);
    valid_utf8_split(bytes, from);
    if to < bytes.len() {
        is_char_boundary_iff_not_is_continuation_byte(bytes, to);
        is_char_boundary_iff_not_is_continuation_byte(tail, to - from);
    } else {
        is_char_boundary_start_end_of_seq(tail);
    }
    valid_utf8_split(tail, to - from);
    assert(tail.subrange(0, to - from) =~= bytes.subrange(from, to));
}

/// In well-formed UTF-8, a character starts behind every byte that encodes a
/// character by itself.
pub proof fn lemma_boundary_after_ascii(bytes: Seq<u8>, index: int)
    requires
        valid_utf8(bytes),
        0 <= index < bytes.len(),
        is_ascii_byte(bytes[index]),
    ensures
        is_char_boundary(bytes, index + 1),
{
    if index + 1 < bytes.len() {
        lemma_boundary_at_ascii(bytes, index);
        let tail = bytes.subrange(index, bytes.len() as int);
        valid_utf8_split(bytes, index);
        assert(valid_utf8(pop_first_scalar(tail)));
        is_char_boundary_iff_not_is_continuation_byte(bytes, index + 1);
    } else {
        is_char_boundary_start_end_of_seq(bytes);
    }
}

/// Trusted: `String::push` appends one character.
pub assume_specification[ std::string::String::push ](text: &mut std::string::String, ch: char)
    ensures
        final(text)@ == old(text)@.push(ch),
;

/// The character for a single decimal digit.
pub open spec fn digit_char(d: nat) -> char
    recommends
        d < 10,
{
    (48 + d) as char
}

/// The decimal numeral of `n`, without leading zeros.
pub open spec fn decimal(n: nat) -> Seq<char>
    decreases n,
{
    if n < 10 {
        seq![digit_char(n)]
    } else {
        decimal(n / 10).push(digit_char(n % 10))
    }
}

/// The decimal numeral of a signed integer, with a leading `-` when negative.
pub open spec fn signed_decimal(n: int) -> Seq<char> {
    if n < 0 {
        seq!['-'] + decimal((-n) as nat)
    } else {
        decimal(n as nat)
    }
}

/// Appends the decimal numeral of `n` to `text`.
pub fn push_decimal(text: &mut String, n: u64)
    ensures
        final(text)@ == old(text)@ + decimal(n as nat),
    decreases n,
{
    if n >= 10 {
        push_decimal(text, n / 10);
    }
    let digit: u8 = (n % 10) as u8;
    text.push((48u8 + digit) as char);
}

/// Appends the decimal numeral of a signed integer to `text`.
pub fn push_signed_decimal(text: &mut String, n: i64)
    ensures
        final(text)@ == old(text)@ + signed_decimal(n as int),
{
    if n < 0 {
        text.push('-');
        let magnitude: u64 = if n == i64::MIN {
            0x8000_0000_0000_0000u64
        } else {
            (-n) as u64
        };
        push_decimal(text, magnitude);
    } else {
        push_decimal(text, n as u64);
    }
}

} // verus!
