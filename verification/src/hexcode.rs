//! Hexadecimal text: what it means for a run of bytes to be hex digits, and
//! the two conversions between bytes and their two-digit form.

use vstd::prelude::*;

verus! {

/// The value of one hex digit given as an ASCII byte; both cases count.
pub open spec fn hex_value(b: u8) -> Option<u8> {
    if 0x30 <= b <= 0x39 {
        Some((b - 0x30) as u8)
    } else if 0x41 <= b <= 0x46 {
        Some((b - 0x41 + 10) as u8)
    } else if 0x61 <= b <= 0x66 {
        Some((b - 0x61 + 10) as u8)
    } else {
        None
    }
}

/// The lower-case digit that stands for a value below sixteen.
pub open spec fn hex_digit(v: int) -> char {
    if 0 <= v < 10 {
        ((0x30 + v) as u8) as char
    } else {
        ((0x61 + v - 10) as u8) as char
    }
}

/// Whether `data` is an even number of hex digits.
pub open spec fn is_hex(data: Seq<u8>) -> bool {
    &&& data.len() % 2 == 0
    &&& forall|i: int| 0 <= i < data.len() ==> (#[trigger] hex_value(data[i])) is Some
}

/// The byte that the digit pair at position `i` of `data` stands for.
pub open spec fn hex_pair(data: Seq<u8>, i: int) -> u8 {
    (hex_value(data[2 * i])->0 * 16 + hex_value(data[2 * i + 1])->0) as u8
}

/// The bytes that `data` stands for, if it is hex text at all.
pub open spec fn decode_hex(data: Seq<u8>) -> Option<Seq<u8>> {
    if is_hex(data) {
        Some(Seq::new(data.len() / 2, |i: int| hex_pair(data, i)))
    } else {
        None
    }
}

/// Two lower-case digits for each byte, the high half first.
pub open spec fn hex_text(bytes: Seq<u8>) -> Seq<char> {
    Seq::new(
        2 * bytes.len(),
        |i: int|
            if i % 2 == 0 {
                hex_digit(bytes[i / 2] as int / 16)
            } else {
                hex_digit(bytes[i / 2] as int % 16)
            },
    )
}

/// Hex text as the bytes that carry it on the wire.
pub open spec fn hex_text_bytes(bytes: Seq<u8>) -> Seq<u8> {
    Seq::new(2 * bytes.len(), |i: int| hex_text(bytes)[i] as u8)
}

/// Calls `hex::decode`. The crate reads its input byte by byte: an odd
/// length or any byte that is no hex digit is an error, and otherwise each
/// pair of digits gives one byte, the first digit being the high half.
#[verifier::external_body]
pub(crate) fn hex_decode(data: &[u8]) -> (out: Option<Vec<u8>>)
    ensures
        out is Some <==> is_hex(data@),
        out matches Some(bytes) ==> decode_hex(data@) == Some(bytes@),
{
    hex::decode(data).ok()
}

/// Calls `hex::encode`, which writes every byte as two lower-case digits.
#[verifier::external_body]
pub(crate) fn hex_encode(bytes: &[u8]) -> (out: String)
    ensures
        out@ == hex_text(bytes@),
{
    hex::encode(bytes)
}

/// Decoding what was encoded gives the bytes back.
pub proof fn lemma_hex_round_trip(bytes: Seq<u8>)
    ensures
        decode_hex(hex_text_bytes(bytes)) == Some(bytes),
{
    let text = hex_text_bytes(bytes);
    assert forall|i: int| 0 <= i < text.len() implies (#[trigger] hex_value(text[i])) is Some by {
        lemma_digit_value(bytes[i / 2] as int / 16);
        lemma_digit_value(bytes[i / 2] as int % 16);
    }
    assert(is_hex(text));
    let back = decode_hex(text)->0;
    assert forall|k: int| 0 <= k < bytes.len() implies back[k] == bytes[k] by {
        lemma_digit_value(bytes[k] as int / 16);
        lemma_digit_value(bytes[k] as int % 16);
        assert(text[2 * k] == hex_text(bytes)[2 * k] as u8);
        assert(text[2 * k + 1] == hex_text(bytes)[2 * k + 1] as u8);
        assert((2 * k) / 2 == k && (2 * k + 1) / 2 == k);
    }
    assert(back =~= bytes);
}

/// A digit's byte has the digit's value.
pub proof fn lemma_digit_value(v: int)
    requires
        0 <= v < 16,
    ensures
        hex_value(hex_digit(v) as u8) == Some(v as u8),
        (hex_digit(v) as u8) < 0x80,
{
}

} // verus!
