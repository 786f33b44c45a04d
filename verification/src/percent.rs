//! Percent-encoding in URLs.

use vstd::prelude::*;
use vstd::utf8::{char_is_scalar, decode_utf8, encode_scalar, encode_utf8, encode_utf8_decode_utf8,
    encode_utf8_valid_utf8, valid_utf8};
use crate::outside::{lossy_text, text_from_utf8_lossy, utf8_lossy};

verus! {

/// The value of a hexadecimal digit, in either case.
pub open spec fn hex_digit(b: u8) -> Option<u8> {
    if 0x30 <= b <= 0x39 {
        Some((b - 0x30) as u8)
    } else if 0x41 <= b <= 0x46 {
        Some((b - 0x41 + 10) as u8)
    } else if 0x61 <= b <= 0x66 {
        Some((b - 0x61 + 10) as u8)
    } else {
        None
    }
}

/// The byte that the two bytes after a `%` write, if they are two hexadecimal digits.
pub open spec fn escaped_byte(high: u8, low: u8) -> Option<u8> {
    match (hex_digit(high), hex_digit(low)) {
        (Some(h), Some(l)) => Some((16 * h + l) as u8),
        _ => None,
    }
}

/// A `%` and two bytes that write a byte become that byte; every other byte stays.
pub open spec fn decoded_bytes(s: Seq<u8>) -> Seq<u8>
    decreases s.len(),
{
    if s.len() == 0 {
        Seq::empty()
    } else if s[0] == 0x25 && s.len() >= 3 && escaped_byte(s[1], s[2]) is Some {
        seq![escaped_byte(s[1], s[2])->0] + decoded_bytes(s.skip(3))
    } else {
        seq![s[0]] + decoded_bytes(s.skip(1))
    }
}

/// The value of a hexadecimal digit.
fn hex_value(b: u8) -> (value: Option<u8>)
    ensures
        value == hex_digit(b),
        value matches Some(v) ==> v < 16,
{
    if 0x30 <= b && b <= 0x39 {
        Some(b - 0x30)
    } else if 0x41 <= b && b <= 0x46 {
        Some(b - 0x41 + 10)
    } else if 0x61 <= b && b <= 0x66 {
        Some(b - 0x61 + 10)
    } else {
        None
    }
}

/// The byte that the two bytes after a `%` write.
fn pair_value(high: u8, low: u8) -> (value: Option<u8>)
    ensures
        value == escaped_byte(high, low),
{
    match (hex_value(high), hex_value(low)) {
        (Some(h), Some(l)) => Some(16 * h + l),
        _ => None,
    }
}

/// The bytes with every escape decoded.
pub fn decode_bytes(bytes: &[u8]) -> (out: Vec<u8>)
    ensures
        out@ == decoded_bytes(bytes@),
{
    let length: usize = bytes.len();
    let mut out: Vec<u8> = Vec::with_capacity(length);
    let mut i: usize = 0;
    assert(bytes@.skip(0) =~= bytes@);
    assert(out@ + decoded_bytes(bytes@) =~= decoded_bytes(bytes@));
    while i < length
        invariant
            length == bytes@.len(),
            i <= length,
            out@ + decoded_bytes(bytes@.skip(i as int)) == decoded_bytes(bytes@),
        decreases length - i,
    {
        let ghost rest = bytes@.skip(i as int);
        let ghost before = out@;
        let escape: Option<u8> = if bytes[i] == 0x25 && length - i >= 3 {
            pair_value(bytes[i + 1], bytes[i + 2])
        } else {
            None
        };
        match escape {
            Some(byte) => {
                out.push(byte);
                assert(rest.skip(3) =~= bytes@.skip(i + 3));
                assert(out@ + decoded_bytes(rest.skip(3)) =~= before + (seq![byte] + decoded_bytes(rest.skip(3))));
                i += 3;
            },
            None => {
                out.push(bytes[i]);
                assert(rest.skip(1) =~= bytes@.skip(i + 1));
                assert(out@ + decoded_bytes(rest.skip(1)) =~= before + (seq![rest[0]] + decoded_bytes(rest.skip(1))));
                i += 1;
            },
        }
    }
    assert(bytes@.skip(i as int) =~= Seq::<u8>::empty());
    assert(out@ + Seq::<u8>::empty() =~= out@);
    out
}

/// The text that a percent-encoded text stands for.
pub open spec fn url_decoded(s: Seq<char>) -> Seq<char> {
    lossy_text(decoded_bytes(encode_utf8(s)))
}

/// The text that a percent-encoded text stands for.
pub fn urlencoding_decode(input: &str) -> (decoded: String)
    ensures
        decoded@ == url_decoded(input@),
        !input@.contains('%') ==> decoded@ == input@,
{
    let bytes = decode_bytes(input.as_bytes());
    proof {
        if !input@.contains('%') {
            lemma_no_escape(input@);
            encode_utf8_valid_utf8(input@);
            encode_utf8_decode_utf8(input@);
        }
    }
    text_from_utf8_lossy(&bytes)
}

/// `written` writes `bytes`: byte for byte, each as it is or as `%` and two
/// hexadecimal digits in either case, and each `%` in the second way.
pub open spec fn escapes(written: Seq<u8>, bytes: Seq<u8>) -> bool
    decreases bytes.len(),
{
    if bytes.len() == 0 {
        written.len() == 0
    } else {
        ||| written.len() >= 1 && written[0] == bytes[0] && bytes[0] != 0x25 && escapes(written.skip(1), bytes.skip(1))
        ||| written.len() >= 3 && written[0] == 0x25 && escaped_byte(written[1], written[2]) == Some(bytes[0])
            && escapes(written.skip(3), bytes.skip(1))
    }
}

/// Decoding gives back what was encoded, whichever bytes were left as they are and in
/// whichever case the digits are, as long as every `%` was escaped.
pub proof fn law_decoding_undoes_escaping(written: Seq<u8>, bytes: Seq<u8>)
    requires
        escapes(written, bytes),
    ensures
        decoded_bytes(written) == bytes,
    decreases bytes.len(),
{
    if bytes.len() > 0 {
        if written[0] == bytes[0] && bytes[0] != 0x25 && escapes(written.skip(1), bytes.skip(1)) {
            law_decoding_undoes_escaping(written.skip(1), bytes.skip(1));
        } else {
            law_decoding_undoes_escaping(written.skip(3), bytes.skip(1));
        }
        assert(seq![bytes[0]] + bytes.skip(1) =~= bytes);
    } else {
        assert(bytes =~= Seq::<u8>::empty());
    }
}

/// A text comes back from any text that writes its UTF-8 bytes with escapes.
pub proof fn law_decoding_gives_the_text_back(written: Seq<char>, text: Seq<char>)
    requires
        escapes(encode_utf8(written), encode_utf8(text)),
    ensures
        url_decoded(written) == text,
{
    law_decoding_undoes_escaping(encode_utf8(written), encode_utf8(text));
    encode_utf8_valid_utf8(text);
    encode_utf8_decode_utf8(text);
}

/// Bytes without a `%` are decoded to themselves.
pub proof fn law_plain_bytes_stay(bytes: Seq<u8>)
    requires
        !bytes.contains(0x25),
    ensures
        decoded_bytes(bytes) == bytes,
    decreases bytes.len(),
{
    if bytes.len() > 0 {
        assert(bytes[0] != 0x25);
        assert forall|i: int| 0 <= i < bytes.skip(1).len() implies bytes.skip(1)[i] != 0x25u8 by {
            assert(bytes.skip(1)[i] == bytes[i + 1]);
        }
        law_plain_bytes_stay(bytes.skip(1));
        assert(seq![bytes[0]] + bytes.skip(1) =~= bytes);
    } else {
        assert(bytes =~= Seq::<u8>::empty());
    }
}

/// The encoding of a character other than `%` holds no `%`.
proof fn lemma_scalar_without_escape(c: char)
    requires
        c != '%',
    ensures
        !encode_scalar(c as u32).contains(0x25),
{
    char_is_scalar(c);
    let v = c as u32;
    assert(v <= 0x7f && v != 0x25 ==> (v & 0x7f) as u8 != 0x25) by (bit_vector);
    assert(0xc0u8 | ((v >> 6) & 0x1f) as u8 != 0x25) by (bit_vector);
    assert(0xe0u8 | ((v >> 12) & 0x0f) as u8 != 0x25) by (bit_vector);
    assert(0xf0u8 | ((v >> 18) & 0x7) as u8 != 0x25) by (bit_vector);
    assert(0x80u8 | (v & 0x3f) as u8 != 0x25) by (bit_vector);
    assert(0x80u8 | ((v >> 6) & 0x3f) as u8 != 0x25) by (bit_vector);
    assert(0x80u8 | ((v >> 12) & 0x3f) as u8 != 0x25) by (bit_vector);
}

/// A text without a `%` has no escape in its encoding.
proof fn lemma_no_escape(s: Seq<char>)
    requires
        !s.contains('%'),
    ensures
        decoded_bytes(encode_utf8(s)) == encode_utf8(s),
        !encode_utf8(s).contains(0x25),
    decreases s.len(),
{
    if s.len() > 0 {
        assert(s[0] != '%');
        lemma_scalar_without_escape(s[0]);
        assert forall|i: int| 0 <= i < s.drop_first().len() implies s.drop_first()[i] != '%' by {
            assert(s.drop_first()[i] == s[i + 1]);
        }
        lemma_no_escape(s.drop_first());
        let head = encode_scalar(s[0] as u32);
        let tail = encode_utf8(s.drop_first());
        assert forall|i: int| 0 <= i < (head + tail).len() implies (head + tail)[i] != 0x25u8 by {
            if i < head.len() {
                assert(head.contains(head[i]));
            } else {
                assert(tail.contains(tail[i - head.len()]));
            }
        }
    }
    law_plain_bytes_stay(encode_utf8(s));
}

/// A byte that is not `%` stands for itself.
pub proof fn law_other_bytes_stand_for_themselves(byte: u8, rest: Seq<u8>)
    requires
        byte != 0x25,
    ensures
        decoded_bytes(Seq::<u8>::empty()).len() == 0,
        decoded_bytes(seq![byte] + rest) == seq![byte] + decoded_bytes(rest),
{
    assert((seq![byte] + rest).skip(1) =~= rest);
}

/// The byte that a hexadecimal digit of a value is, in capital or in small letters.
pub open spec fn writes_digit(digit: u8, value: int) -> bool {
    (value < 10 && digit == 0x30 + value) || (10 <= value < 16 && (digit == 0x37 + value || digit == 0x57 + value))
}

/// A `%` and two hexadecimal digits stand for the byte of that value; a `%` that is not
/// followed by two such digits stands for itself.
pub proof fn law_percent_signs(high: u8, low: u8, byte: u8, rest: Seq<u8>)
    ensures
        writes_digit(high, byte as int / 16) && writes_digit(low, byte as int % 16) ==> decoded_bytes(
            seq![0x25u8, high, low] + rest,
        ) == seq![byte] + decoded_bytes(rest),
        (forall|v: int| 0 <= v < 16 ==> !#[trigger] writes_digit(high, v)) || (forall|v: int|
            0 <= v < 16 ==> !#[trigger] writes_digit(low, v)) ==> decoded_bytes(seq![0x25u8, high, low] + rest)
            == seq![0x25u8] + decoded_bytes(seq![high, low] + rest),
        decoded_bytes(seq![0x25u8, high]) == seq![0x25u8] + decoded_bytes(seq![high]),
        decoded_bytes(seq![0x25u8]) == seq![0x25u8],
{
    let whole = seq![0x25u8, high, low] + rest;
    assert(whole.skip(3) =~= rest);
    assert(whole.skip(1) =~= seq![high, low] + rest);
    if hex_digit(high) is Some {
        let v = (hex_digit(high)->0) as int;
        assert(writes_digit(high, v));
    }
    if hex_digit(low) is Some {
        let v = (hex_digit(low)->0) as int;
        assert(writes_digit(low, v));
    }
    if writes_digit(high, byte as int / 16) && writes_digit(low, byte as int % 16) {
        assert(hex_digit(high) == Some((byte / 16) as u8));
        assert(hex_digit(low) == Some((byte % 16) as u8));
        assert(16 * (byte / 16) + byte % 16 == byte);
    }
    assert(seq![0x25u8, high].skip(1) =~= seq![high]);
    let sign = seq![0x25u8];
    assert(sign.skip(1) =~= Seq::<u8>::empty());
    assert(decoded_bytes(Seq::<u8>::empty()) =~= Seq::<u8>::empty());
    assert(sign + Seq::<u8>::empty() =~= sign);
}

/// Bytes are read as the text that they encode, and where they encode none as what the
/// standard library makes of them; a percent-encoded text is read in this way from its
/// decoded bytes.
pub proof fn law_how_bytes_are_read(bytes: Seq<u8>, text: Seq<char>)
    ensures
        valid_utf8(bytes) ==> lossy_text(bytes) == decode_utf8(bytes),
        !valid_utf8(bytes) ==> lossy_text(bytes) == utf8_lossy(bytes),
        decoded_bytes(encode_utf8(text)) == bytes ==> url_decoded(text) == lossy_text(bytes),
{
}

/// A text without a `%` is decoded to itself, and the UTF-8 bytes of a text are read as
/// that text.
pub proof fn law_plain_text_stays(text: Seq<char>)
    ensures
        !text.contains('%') ==> url_decoded(text) == text,
        lossy_text(encode_utf8(text)) == text,
{
    encode_utf8_valid_utf8(text);
    encode_utf8_decode_utf8(text);
    if !text.contains('%') {
        lemma_no_escape(text);
    }
}

} // verus!
