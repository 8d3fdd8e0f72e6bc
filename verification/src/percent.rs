//! Percent-encoding as request signing needs it: every byte of the UTF-8
//! form of a text that is not an unreserved character becomes `%XX`, with
//! upper-case hexadecimal digits.

use vstd::prelude::*;
use vstd::utf8::*;

verus! {

/// The unreserved bytes: ASCII letters, digits, `-`, `.`, `_` and `~`.
pub open spec fn unreserved(b: u8) -> bool {
    ||| 0x41 <= b <= 0x5a
    ||| 0x61 <= b <= 0x7a
    ||| 0x30 <= b <= 0x39
    ||| b == 0x2d
    ||| b == 0x2e
    ||| b == 0x5f
    ||| b == 0x7e
}

/// The upper-case hexadecimal digit for a value below sixteen.
pub open spec fn hex_digit(v: u8) -> char
    recommends
        v < 16,
{
    if v < 10 {
        (0x30 + v) as char
    } else {
        (0x37 + v) as char
    }
}

/// What one byte turns into: itself where it is unreserved, else a percent
/// sign and its two hexadecimal digits, high nibble first.
pub open spec fn encoded_byte(b: u8) -> Seq<char> {
    if unreserved(b) {
        seq![b as char]
    } else {
        seq!['%', hex_digit(b / 16), hex_digit(b % 16)]
    }
}

/// The encodings of the bytes, one after the other.
pub open spec fn encoded_bytes(bytes: Seq<u8>) -> Seq<char>
    decreases bytes.len(),
{
    if bytes.len() == 0 {
        Seq::empty()
    } else {
        encoded_byte(bytes[0]) + encoded_bytes(bytes.drop_first())
    }
}

/// The percent-encoded form of a text: the encoding of its UTF-8 bytes.
pub open spec fn percent_encoded(text: Seq<char>) -> Seq<char> {
    encoded_bytes(encode_utf8(text))
}

/// The characters that encoded text is made of: the unreserved ones and `%`.
pub open spec fn encoded_char(c: char) -> bool {
    c == '%' || (c as u32 <= 0x7f && unreserved(c as u8))
}

/// The value of a hexadecimal digit as [`hex_digit`] writes it.
pub open spec fn hex_value(c: char) -> int {
    if '0' <= c <= '9' {
        c as int - 0x30
    } else {
        c as int - 0x37
    }
}

/// Reading encoded text back, byte for byte: `%XX` gives the byte with those
/// two digits, any other character gives the byte of its own code.
pub open spec fn percent_decoded(text: Seq<char>) -> Seq<u8>
    decreases text.len(),
{
    if text.len() == 0 {
        Seq::empty()
    } else if text[0] == '%' && text.len() >= 3 {
        seq![(16 * hex_value(text[1]) + hex_value(text[2])) as u8] + percent_decoded(text.skip(3))
    } else {
        seq![text[0] as u8] + percent_decoded(text.skip(1))
    }
}

/// Every character of an encoded byte sequence is unreserved or `%`.
pub proof fn lemma_encoded_bytes_alphabet(bytes: Seq<u8>)
    ensures
        forall|i: int| 0 <= i < encoded_bytes(bytes).len() ==> encoded_char(#[trigger] encoded_bytes(bytes)[i]),
    decreases bytes.len(),
{
    if bytes.len() > 0 {
        lemma_encoded_bytes_alphabet(bytes.drop_first());
        let text = encoded_bytes(bytes);
        let head = encoded_byte(bytes[0]);
        let tail = encoded_bytes(bytes.drop_first());
        assert forall|i: int| 0 <= i < text.len() implies encoded_char(#[trigger] text[i]) by {
            if i < head.len() {
                assert(text[i] == head[i]);
            } else {
                assert(text[i] == tail[i - head.len()]);
            }
        }
    }
}

/// Decoding an encoded byte sequence gives the bytes back.
pub proof fn lemma_decoding_inverts_encoding(bytes: Seq<u8>)
    ensures
        percent_decoded(encoded_bytes(bytes)) == bytes,
    decreases bytes.len(),
{
    if bytes.len() > 0 {
        let b = bytes[0];
        let rest = bytes.drop_first();
        let text = encoded_bytes(bytes);
        lemma_decoding_inverts_encoding(rest);
        if unreserved(b) {
            assert(text.skip(1) =~= encoded_bytes(rest));
        } else {
            assert(text.skip(3) =~= encoded_bytes(rest));
        }
    }
}

/// The encoder's law: encoded text holds nothing but unreserved characters
/// and `%`, and read back byte for byte and as UTF-8 it is the text that
/// went in.
pub proof fn lemma_percent_encoding_round_trip(text: Seq<char>)
    ensures
        forall|i: int| 0 <= i < percent_encoded(text).len() ==> encoded_char(#[trigger] percent_encoded(text)[i]),
        percent_decoded(percent_encoded(text)) == encode_utf8(text),
        decode_utf8(percent_decoded(percent_encoded(text))) == text,
{
    lemma_encoded_bytes_alphabet(encode_utf8(text));
    lemma_decoding_inverts_encoding(encode_utf8(text));
    encode_utf8_decode_utf8(text);
}

/// Whether a byte is unreserved.
#[verifier::when_used_as_spec(unreserved)]
pub fn is_unreserved(b: u8) -> (r: bool)
    ensures
        r == unreserved(b),
{
    (0x41 <= b && b <= 0x5a) || (0x61 <= b && b <= 0x7a) || (0x30 <= b && b <= 0x39) || b == 0x2d
        || b == 0x2e || b == 0x5f || b == 0x7e
}

/// The upper-case hexadecimal digit for `v`.
pub fn upper_hex(v: u8) -> (c: char)
    requires
        v < 16,
    ensures
        c == hex_digit(v),
{
    if v < 10 {
        (0x30 + v) as char
    } else {
        (0x37 + v) as char
    }
}

/// Percent-encodes a text.
pub fn percent_encode(text: &str) -> (out: String)
    ensures
        out@ == percent_encoded(text@),
        forall|i: int| 0 <= i < out@.len() ==> encoded_char(#[trigger] out@[i]),
        percent_decoded(out@) == encode_utf8(text@),
{
    let bytes = text.as_bytes();
    let mut out = String::new();
    let mut i: usize = 0;
    assert(bytes@.skip(0) =~= bytes@);
    while i < bytes.len()
        invariant
            i <= bytes@.len(),
            bytes@ == encode_utf8(text@),
            encoded_bytes(bytes@) == out@ + encoded_bytes(bytes@.skip(i as int)),
        decreases bytes@.len() - i,
    {
        let b = bytes[i];
        assert(bytes@.skip(i as int).drop_first() =~= bytes@.skip(i + 1));
        if is_unreserved(b) {
            out.push(b as char);
        } else {
            out.push('%');
            out.push(upper_hex(b / 16));
            out.push(upper_hex(b % 16));
        }
        i += 1;
    }
    proof {
        lemma_percent_encoding_round_trip(text@);
    }
    out
}

} // verus!
