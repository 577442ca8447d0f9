//! Upper-case hexadecimal digits: the text form of a byte.

use crate::outside::push_char;
use vstd::prelude::*;

verus! {

/// The digit that stands for `n`, for `n` below sixteen: `0`-`9`, then `A`-`F`.
pub open spec fn spec_hex_digit(n: u8) -> char {
    if n < 10 {
        ((n + 48) as u8) as char
    } else {
        ((n + 55) as u8) as char
    }
}

/// The value of a hexadecimal digit, in either case; `None` for any other character.
pub open spec fn spec_hex_value(c: char) -> Option<u8> {
    if '0' <= c && c <= '9' {
        Some((c as u32 - 48) as u8)
    } else if 'a' <= c && c <= 'f' {
        Some((c as u32 - 87) as u8)
    } else if 'A' <= c && c <= 'F' {
        Some((c as u32 - 55) as u8)
    } else {
        None
    }
}

/// The byte that two hexadecimal digits spell, the high digit first.
pub open spec fn spec_hex_byte(c1: char, c2: char) -> Option<u8> {
    match (spec_hex_value(c1), spec_hex_value(c2)) {
        (Some(hi), Some(lo)) => Some((hi * 16 + lo) as u8),
        _ => None,
    }
}

fn hex_digit(n: u8) -> (c: char)
    requires
        n < 16,
    ensures
        c == spec_hex_digit(n),
{
    if n < 10 {
        (n + 48) as char
    } else {
        (n + 55) as char
    }
}

/// The two upper-case digits of `byte`, the high one first.
pub fn to_hex_chars(byte: u8) -> (chars: [char; 2])
    ensures
        chars@.len() == 2,
        chars[0] == spec_hex_digit(byte / 16),
        chars[1] == spec_hex_digit(byte % 16),
{
    let hi: u8 = byte / 16;
    let lo: u8 = byte % 16;
    [hex_digit(hi), hex_digit(lo)]
}

/// Reads one hexadecimal digit of either case.
pub fn from_hex_char(c: char) -> (value: Option<u8>)
    ensures
        value == spec_hex_value(c),
{
    if '0' <= c && c <= '9' {
        Some((c as u32 - 48) as u8)
    } else if 'a' <= c && c <= 'f' {
        Some((c as u32 - 87) as u8)
    } else if 'A' <= c && c <= 'F' {
        Some((c as u32 - 55) as u8)
    } else {
        None
    }
}

/// Reads a byte from two hexadecimal digits, the high digit first.
pub fn from_hex_chars(c1: char, c2: char) -> (value: Option<u8>)
    ensures
        value == spec_hex_byte(c1, c2),
{
    match from_hex_char(c1) {
        Some(hi) => match from_hex_char(c2) {
            Some(lo) => Some(hi * 16 + lo),
            None => None,
        },
        None => None,
    }
}

/// The text of `bytes`: two upper-case digits for each byte, in order.
pub open spec fn spec_hex_text(bytes: Seq<u8>) -> Seq<char> {
    Seq::new(
        2 * bytes.len(),
        |i: int|
            if i % 2 == 0 {
                spec_hex_digit(bytes[i / 2] / 16)
            } else {
                spec_hex_digit(bytes[i / 2] % 16)
            },
    )
}

/// The byte that the digits at `2 * i` and `2 * i + 1` spell.
pub open spec fn spec_hex_pair(digits: Seq<char>, i: int) -> Option<u8> {
    spec_hex_byte(digits[2 * i], digits[2 * i + 1])
}

/// The bytes that `digits` spell, two digits for each byte; `None` where
/// their number is odd or one of them is no hexadecimal digit.
pub open spec fn spec_unhex(digits: Seq<char>) -> Option<Seq<u8>> {
    if digits.len() % 2 != 0 {
        None
    } else if exists|i: int| 0 <= i < digits.len() / 2 && #[trigger] spec_hex_pair(digits, i) is None {
        None
    } else {
        Some(Seq::new(digits.len() / 2, |i: int| spec_hex_pair(digits, i).unwrap()))
    }
}

/// Appends the two digits of `byte` to `text`.
pub fn push_hex(text: &mut String, byte: u8)
    ensures
        final(text)@ == old(text)@ + spec_hex_text(seq![byte]),
{
    let chars = to_hex_chars(byte);
    push_char(text, chars[0]);
    push_char(text, chars[1]);
    assert(text@ =~= old(text)@ + spec_hex_text(seq![byte]));
}

/// Reads the bytes that `digits` spell.
pub fn unhex(digits: &Vec<char>) -> (bytes: Option<Vec<u8>>)
    ensures
        match bytes {
            Some(bytes) => spec_unhex(digits@) == Some(bytes@),
            None => spec_unhex(digits@) is None,
        },
{
    if digits.len() % 2 != 0 {
        return None;
    }
    let count = digits.len() / 2;
    let mut bytes: Vec<u8> = Vec::new();
    let mut i: usize = 0;
    while i < count
        invariant
            i <= count,
            count == digits@.len() / 2,
            digits@.len() % 2 == 0,
            digits@.len() <= usize::MAX,
            bytes@.len() == i,
            forall|j: int| 0 <= j < i ==> #[trigger] spec_hex_pair(digits@, j) == Some(bytes@[j]),
        decreases count - i,
    {
        match from_hex_chars(digits[2 * i], digits[2 * i + 1]) {
            Some(byte) => {
                bytes.push(byte);
            },
            None => {
                assert(spec_hex_pair(digits@, i as int) is None);
                return None;
            },
        }
        i += 1;
    }
    assert(spec_unhex(digits@)->0 =~= bytes@);
    Some(bytes)
}

/// The text of two runs of bytes is the text of the first, then that of the
/// second.
pub proof fn lemma_hex_text_concat(a: Seq<u8>, b: Seq<u8>)
    ensures
        spec_hex_text(a + b) == spec_hex_text(a) + spec_hex_text(b),
{
    assert(spec_hex_text(a + b) =~= spec_hex_text(a) + spec_hex_text(b));
}

/// No digit of a hexadecimal text is a hyphen.
pub proof fn lemma_hex_text_has_no_hyphen(bytes: Seq<u8>, i: int)
    requires
        0 <= i < 2 * bytes.len(),
    ensures
        spec_hex_text(bytes)[i] != '-',
{
}

/// Reading back the text of `bytes` gives `bytes`.
pub proof fn lemma_unhex_hex_text(bytes: Seq<u8>)
    ensures
        spec_unhex(spec_hex_text(bytes)) == Some(bytes),
{
    let digits = spec_hex_text(bytes);
    assert forall|i: int| 0 <= i < digits.len() / 2 implies #[trigger] spec_hex_pair(digits, i)
        == Some(bytes[i]) by {
        lemma_hex_round_trip(bytes[i]);
        assert((2 * i) / 2 == i && (2 * i + 1) / 2 == i);
    }
    assert(spec_unhex(digits)->0 =~= bytes);
}

/// Reading back the digits written for a byte gives that byte.
pub proof fn lemma_hex_round_trip(byte: u8)
    ensures
        spec_hex_byte(spec_hex_digit(byte / 16), spec_hex_digit(byte % 16)) == Some(byte),
{
}

} // verus!
