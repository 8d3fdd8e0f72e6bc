//! Parameter overrides of the form `key=value`.

use crate::find::{first_index, lemma_first_index, lemma_first_index_bounds};
use vstd::prelude::*;
use vstd::utf8::*;

verus! {

/// The key and the value of an override: what stands before the first `=`
/// and what stands after it. There is none where the text has no `=` or
/// starts with it.
pub open spec fn override_split(text: Seq<char>) -> Option<(Seq<char>, Seq<char>)> {
    let at = first_index(text, '=');
    if 0 < at < text.len() {
        Some((text.take(at), text.skip(at + 1)))
    } else {
        None
    }
}

/// No byte of the UTF-8 form of a character other than `=` is the byte of `=`.
proof fn lemma_scalar_without_equals_sign(c: u32)
    requires
        is_scalar(c),
        c != 0x3d,
    ensures
        encode_scalar(c).len() >= 1,
        forall|k: int| 0 <= k < encode_scalar(c).len() ==> encode_scalar(c)[k] != 0x3d,
{
    assert(has_width_1_encoding(c) ==> (c & 0x7F) as u8 != 0x3d) by (bit_vector)
        requires
            c != 0x3d,
    ;
    assert((0xC0 | ((c >> 6) & 0x1F) as u8) != 0x3d) by (bit_vector);
    assert((0xE0 | ((c >> 12) & 0x0F) as u8) != 0x3d) by (bit_vector);
    assert((0xF0 | ((c >> 18) & 0x7) as u8) != 0x3d) by (bit_vector);
    assert((0x80 | (c & 0x3F) as u8) != 0x3d) by (bit_vector);
    assert((0x80 | ((c >> 6) & 0x3F) as u8) != 0x3d) by (bit_vector);
    assert((0x80 | ((c >> 12) & 0x3F) as u8) != 0x3d) by (bit_vector);
}

/// The first `=` of a text and the first byte `0x3d` of its UTF-8 form stand
/// at the same place: what comes before the one is the UTF-8 form of what
/// comes before the other, and likewise after them.
pub proof fn lemma_equals_sign_in_utf8(text: Seq<char>)
    ensures
        ({
            let bytes = encode_utf8(text);
            let at = first_index(text, '=');
            let byte_at = first_index(bytes, 0x3du8);
            &&& bytes.take(byte_at) == encode_utf8(text.take(at))
            &&& (at == 0 <==> byte_at == 0)
            &&& (at < text.len() <==> byte_at < bytes.len())
            &&& at < text.len() ==> bytes.skip(byte_at + 1) == encode_utf8(text.skip(at + 1))
        }),
    decreases text.len(),
{
    let bytes = encode_utf8(text);
    if text.len() == 0 {
        assert(bytes.take(0) =~= encode_utf8(text.take(0)));
    } else if text[0] == '=' {
        assert(encode_scalar('=' as u32) =~= seq![0x3du8]) by {
            assert((0x3du32 & 0x7F) as u8 == 0x3du8) by (bit_vector);
        }
    } else {
        let head = encode_scalar(text[0] as u32);
        let rest = text.drop_first();
        let rest_bytes = encode_utf8(rest);
        let at = first_index(rest, '=');
        let byte_at = first_index(rest_bytes, 0x3du8);
        char_is_scalar(text[0]);
        if text[0] as u32 == 0x3d {
            char_u32_cast(text[0], 0x3du32);
            char_u32_cast('=', 0x3du32);
        }
        lemma_scalar_without_equals_sign(text[0] as u32);
        lemma_equals_sign_in_utf8(rest);
        lemma_first_index_bounds(rest_bytes, 0x3du8);
        lemma_first_index_bounds(rest, '=');
        assert forall|k: int| 0 <= k < head.len() + byte_at implies bytes[k] != 0x3du8 by {
            if k >= head.len() {
                assert(bytes[k] == rest_bytes[k - head.len()]);
            }
        }
        if byte_at < rest_bytes.len() {
            assert(bytes[head.len() + byte_at] == rest_bytes[byte_at]);
        }
        lemma_first_index(bytes, 0x3du8, head.len() + byte_at);
        assert(text.take(at + 1).drop_first() =~= rest.take(at));
        if at < rest.len() {
            assert(text.skip(at + 2) =~= rest.skip(at + 1));
        }
    }
}

/// Splits an override at its first `=` into key and value.
pub fn parse_override(text: &str) -> (r: Option<(String, String)>)
    ensures
        match r {
            Some((key, value)) => override_split(text@) == Some((key@, value@)),
            None => override_split(text@) is None,
        },
{
    broadcast use {
        encode_utf8_valid_utf8,
        encode_utf8_decode_utf8,
        is_char_boundary_iff_not_is_continuation_byte,
        is_char_boundary_start_end_of_seq,
    };

    let bytes = text.as_bytes();
    let mut at: usize = 0;
    while at < bytes.len() && bytes[at] != 0x3d
        invariant
            at <= bytes@.len(),
            forall|k: int| 0 <= k < at ==> bytes@[k] != 0x3du8,
        decreases bytes@.len() - at,
    {
        at += 1;
    }
    proof {
        lemma_first_index(bytes@, 0x3du8, at as int);
        lemma_equals_sign_in_utf8(text@);
        lemma_first_index_bounds(text@, '=');
    }
    if at == 0 || at == bytes.len() {
        return None;
    }
    let ghost char_at = first_index(text@, '=');
    assert(!is_continuation_byte(bytes@[at as int])) by {
        assert(!(0x80 <= 0x3du8 <= 0xbf));
    }
    let (key, tail) = text.split_at(at);
    proof {
        let tail_bytes = encode_utf8(tail@);
        assert(is_char_boundary(tail_bytes, 1)) by {
            reveal_with_fuel(is_char_boundary, 2);
            reveal_with_fuel(valid_utf8, 2);
        }
    }
    let (_, value) = tail.split_at(1);
    proof {
        assert(encode_utf8(value@) =~= bytes@.skip(at + 1));
        assert(key@ == decode_utf8(encode_utf8(text@.take(char_at))));
        assert(value@ == decode_utf8(encode_utf8(text@.skip(char_at + 1))));
    }
    Some((key.to_owned(), value.to_owned()))
}

} // verus!
