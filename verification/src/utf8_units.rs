//! Reading bytes that need not be UTF-8: each position either starts a valid
//! UTF-8 encoding of one scalar, or holds a byte that starts none.

use vstd::prelude::*;
use vstd::utf8::*;

verus! {

/// `char::from_u32`: the character `u` is, if it is a Unicode scalar value.
#[verifier::external_body]
pub(crate) fn char_from_u32(u: u32) -> (c: Option<char>)
    ensures
        is_scalar(u) ==> c == Some(u as char),
        !is_scalar(u) ==> c is None,
{
    char::from_u32(u)
}

proof fn lemma_width_2_bounds(b0: u8, b1: u8)
    by (bit_vector)
    ensures
        ((((b0 & 0x1F) as u32) << 6) | ((b1 & 0x3F) as u32)) <= 0x7FF,
{
}

proof fn lemma_width_3_bounds(b0: u8, b1: u8, b2: u8)
    by (bit_vector)
    ensures
        ((((b0 & 0x0F) as u32) << 12) | (((b1 & 0x3F) as u32) << 6) | ((b2 & 0x3F) as u32))
            <= 0xFFFF,
{
}

/// A valid first scalar decodes to a Unicode scalar value.
pub proof fn lemma_valid_first_scalar_is_scalar(bytes: Seq<u8>)
    requires
        valid_first_scalar(bytes),
    ensures
        is_scalar(decode_first_scalar(bytes)),
{
    if is_leading_byte_width_2(bytes[0]) {
        lemma_width_2_bounds(bytes[0], bytes[1]);
    } else if is_leading_byte_width_3(bytes[0]) {
        lemma_width_3_bounds(bytes[0], bytes[1], bytes[2]);
    }
}

/// The scalar whose encoding starts at `i` in `bytes`, with its length in
/// bytes, or `None` when no valid encoding starts there.
pub fn scalar_at(bytes: &[u8], i: usize) -> (r: Option<(char, usize)>)
    requires
        i < bytes@.len(),
    ensures
        r is Some <==> valid_first_scalar(bytes@.skip(i as int)),
        r matches Some((c, n)) ==> {
            &&& c as u32 == decode_first_scalar(bytes@.skip(i as int))
            &&& n == length_of_first_scalar(bytes@.skip(i as int))
            &&& 1 <= n <= 4
            &&& i + n <= bytes@.len()
        },
{
    let ghost rest = bytes@.skip(i as int);
    let len = bytes.len();
    let b0 = bytes[i];
    assert(rest[0] == b0);
    let (code, n): (u32, usize) = if b0 <= 0x7f {
        ((b0 & 0x7F) as u32, 1)
    } else if 0xc0 <= b0 && b0 <= 0xdf {
        if len - i < 2 {
            return None;
        }
        let b1 = bytes[i + 1];
        assert(rest[1] == b1);
        if !(0x80 <= b1 && b1 <= 0xbf) {
            return None;
        }
        ((((b0 & 0x1F) as u32) << 6) | ((b1 & 0x3F) as u32), 2)
    } else if 0xe0 <= b0 && b0 <= 0xef {
        if len - i < 3 {
            return None;
        }
        let b1 = bytes[i + 1];
        let b2 = bytes[i + 2];
        assert(rest[1] == b1 && rest[2] == b2);
        if !(0x80 <= b1 && b1 <= 0xbf && 0x80 <= b2 && b2 <= 0xbf) {
            return None;
        }
        ((((b0 & 0x0F) as u32) << 12) | (((b1 & 0x3F) as u32) << 6) | ((b2 & 0x3F) as u32), 3)
    } else if 0xf0 <= b0 && b0 <= 0xf7 {
        if len - i < 4 {
            return None;
        }
        let b1 = bytes[i + 1];
        let b2 = bytes[i + 2];
        let b3 = bytes[i + 3];
        assert(rest[1] == b1 && rest[2] == b2 && rest[3] == b3);
        if !(0x80 <= b1 && b1 <= 0xbf && 0x80 <= b2 && b2 <= 0xbf && 0x80 <= b3 && b3 <= 0xbf) {
            return None;
        }
        (
            (((b0 & 0x07) as u32) << 18) | (((b1 & 0x3F) as u32) << 12) | (((b2 & 0x3F) as u32)
                << 6) | ((b3 & 0x3F) as u32),
            4,
        )
    } else {
        return None;
    };
    assert(valid_leading_and_continuation_bytes_first_codepoint(rest));
    assert(code == decode_first_codepoint(rest));
    assert(n == length_of_first_codepoint(rest));
    if n == 2 && code < 0x80 {
        return None;
    }
    if n == 3 && code < 0x800 {
        return None;
    }
    if n == 4 && !(0x10000 <= code && code <= 0x10ffff) {
        return None;
    }
    if 0xD800 <= code && code <= 0xDFFF {
        return None;
    }
    assert(valid_first_scalar(rest));
    proof {
        lemma_valid_first_scalar_is_scalar(rest);
    }
    match char_from_u32(code) {
        Some(c) => Some((c, n)),
        None => None,
    }
}

} // verus!
