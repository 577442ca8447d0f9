//! The bricks of the file formats: lengths and texts as bytes.
//!
//! A length is eight bytes, the lowest first. A text is the length of its
//! UTF-8 form and then that form.

use crate::outside::string_from_utf8;
use vstd::bytes::{
    lemma_auto_spec_u64_to_from_le_bytes, spec_u64_from_le_bytes, spec_u64_to_le_bytes,
    u64_from_le_bytes, u64_to_le_bytes,
};
use vstd::prelude::*;
use vstd::slice::{slice_subrange, slice_to_vec};
use vstd::utf8::{decode_utf8, encode_utf8, encode_utf8_decode_utf8, encode_utf8_valid_utf8, valid_utf8};

verus! {

/// The eight bytes of a length.
pub open spec fn spec_len_bytes(n: nat) -> Seq<u8> {
    spec_u64_to_le_bytes(n as u64)
}

/// The bytes of a text: the length of its UTF-8 form, then that form.
pub open spec fn spec_text_bytes(text: Seq<char>) -> Seq<u8> {
    spec_len_bytes(encode_utf8(text).len()) + encode_utf8(text)
}

/// The length that stands in `bytes` at `pos`, and the position behind it;
/// `None` where fewer than eight bytes are left.
pub open spec fn spec_read_len(bytes: Seq<u8>, pos: int) -> Option<(nat, int)> {
    if 0 <= pos && pos + 8 <= bytes.len() {
        Some((spec_u64_from_le_bytes(bytes.subrange(pos, pos + 8)) as nat, pos + 8))
    } else {
        None
    }
}

/// The text that stands in `bytes` at `pos`, and the position behind it;
/// `None` where the bytes end too early or are no valid UTF-8.
pub open spec fn spec_read_text(bytes: Seq<u8>, pos: int) -> Option<(Seq<char>, int)> {
    match spec_read_len(bytes, pos) {
        None => None,
        Some((n, start)) => if start + n <= bytes.len() && valid_utf8(
            bytes.subrange(start, start + n),
        ) {
            Some((decode_utf8(bytes.subrange(start, start + n)), start + n))
        } else {
            None
        },
    }
}

/// Appends `bytes` to `buf`.
pub fn push_bytes(buf: &mut Vec<u8>, bytes: &[u8])
    ensures
        final(buf)@ == old(buf)@ + bytes@,
{
    let mut i: usize = 0;
    while i < bytes.len()
        invariant
            i <= bytes@.len(),
            buf@ == old(buf)@ + bytes@.take(i as int),
        decreases bytes@.len() - i,
    {
        buf.push(bytes[i]);
        i += 1;
        assert(bytes@.take(i as int) =~= bytes@.take(i - 1).push(bytes@[i - 1]));
        assert(buf@ =~= old(buf)@ + bytes@.take(i as int));
    }
    assert(bytes@.take(bytes@.len() as int) =~= bytes@);
}

/// Appends a length to `buf`.
pub fn push_len(buf: &mut Vec<u8>, n: usize)
    ensures
        final(buf)@ == old(buf)@ + spec_len_bytes(n as nat),
{
    let bytes = u64_to_le_bytes(n as u64);
    push_bytes(buf, bytes.as_slice());
}

/// Appends a text to `buf`.
pub fn push_text(buf: &mut Vec<u8>, text: &str)
    ensures
        final(buf)@ == old(buf)@ + spec_text_bytes(text@),
{
    let bytes = text.as_bytes();
    push_len(buf, bytes.len());
    push_bytes(buf, bytes);
    assert(buf@ =~= old(buf)@ + spec_text_bytes(text@));
}

/// Reads a length at `pos`.
pub fn read_len(buf: &[u8], pos: usize) -> (read: Option<(u64, usize)>)
    ensures
        match read {
            Some((n, next)) => spec_read_len(buf@, pos as int) == Some((n as nat, next as int)),
            None => spec_read_len(buf@, pos as int) is None,
        },
{
    if pos > buf.len() || buf.len() - pos < 8 {
        return None;
    }
    let n = u64_from_le_bytes(slice_subrange(buf, pos, pos + 8));
    Some((n, pos + 8))
}

/// Reads a text at `pos`.
pub fn read_text(buf: &[u8], pos: usize) -> (read: Option<(String, usize)>)
    ensures
        match read {
            Some((text, next)) => spec_read_text(buf@, pos as int) == Some((text@, next as int)),
            None => spec_read_text(buf@, pos as int) is None,
        },
{
    match read_len(buf, pos) {
        None => None,
        Some((n, start)) => {
            if n > (buf.len() - start) as u64 {
                return None;
            }
            let end = start + n as usize;
            let bytes = slice_to_vec(slice_subrange(buf, start, end));
            match string_from_utf8(bytes) {
                Some(text) => Some((text, end)),
                None => None,
            }
        },
    }
}

/// Reading where a length was written gives that length.
pub proof fn lemma_read_len(before: Seq<u8>, n: nat, after: Seq<u8>)
    requires
        n <= u64::MAX,
    ensures
        spec_read_len(before + spec_len_bytes(n) + after, before.len() as int) == Some(
            (n, before.len() as int + 8),
        ),
        spec_len_bytes(n).len() == 8,
{
    lemma_auto_spec_u64_to_from_le_bytes();
    let bytes = before + spec_len_bytes(n) + after;
    assert(bytes.subrange(before.len() as int, before.len() as int + 8) =~= spec_len_bytes(n));
}

/// Reading where a text was written gives that text.
pub proof fn lemma_read_text(before: Seq<u8>, text: Seq<char>, after: Seq<u8>)
    requires
        encode_utf8(text).len() <= u64::MAX,
    ensures
        spec_read_text(before + spec_text_bytes(text) + after, before.len() as int) == Some(
            (text, before.len() as int + spec_text_bytes(text).len()),
        ),
        spec_text_bytes(text).len() == 8 + encode_utf8(text).len(),
{
    lemma_auto_spec_u64_to_from_le_bytes();
    let utf8 = encode_utf8(text);
    let n = utf8.len();
    let count = n as int;
    let bytes = before + spec_text_bytes(text) + after;
    assert(bytes =~= before + spec_len_bytes(n) + (utf8 + after));
    lemma_read_len(before, n, utf8 + after);
    let start = before.len() as int + 8;
    assert(bytes.subrange(start, start + count) =~= utf8);
    encode_utf8_valid_utf8(text);
    encode_utf8_decode_utf8(text);
}

} // verus!
