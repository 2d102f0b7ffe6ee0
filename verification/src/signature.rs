//! Webhook signatures: a keyed SHA-256 tag over the exact bytes of a request
//! body, carried in a header as `sha256=<hex>`.

use crate::hexcode::{
    decode_hex, hex_decode, hex_encode, hex_text, hex_text_bytes, is_hex, lemma_digit_value,
    lemma_hex_round_trip,
};
use hmac::{Hmac, Mac};
use sha2::Sha256;
use vstd::prelude::*;
use vstd::slice::slice_subrange;
use vstd::string::*;
use vstd::utf8::{encode_utf8, is_ascii_chars, is_ascii_chars_encode_utf8};

verus! {

/// The HMAC-SHA-256 tag of `message` under `key`, as the `hmac` and `sha2`
/// crates compute it.
pub uninterp spec fn hmac_sha256(key: Seq<u8>, message: Seq<u8>) -> Seq<u8>;

/// The bytes of the scheme marker `sha256=` that may lead a signature.
pub open spec fn scheme_marker() -> Seq<u8> {
    seq![0x73u8, 0x68u8, 0x61u8, 0x32u8, 0x35u8, 0x36u8, 0x3du8]
}

/// A signature header without its scheme marker, if it has one. The marker
/// is optional and is taken off once.
pub open spec fn strip_marker(header: Seq<u8>) -> Seq<u8> {
    if scheme_marker().is_prefix_of(header) {
        header.skip(scheme_marker().len() as int)
    } else {
        header
    }
}


/// The tag that a signature header carries, if it carries one: after the
/// marker it must be hex text.
pub open spec fn carried_tag(header: Seq<u8>) -> Option<Seq<u8>> {
    decode_hex(strip_marker(header))
}

/// The header value that carries `tag`: the marker, then the tag in hex.
pub open spec fn header_text(tag: Seq<u8>) -> Seq<char> {
    "sha256="@ + hex_text(tag)
}

/// The header value that signs `body` under `key`.
pub open spec fn signature_text(key: Seq<u8>, body: Seq<u8>) -> Seq<char> {
    header_text(hmac_sha256(key, body))
}

/// Whether `header` carries the tag of `body` under `key`, the whole tag and
/// nothing else.
pub open spec fn signature_valid(key: Seq<u8>, body: Seq<u8>, header: Seq<u8>) -> bool {
    carried_tag(header) == Some(hmac_sha256(key, body))
}

/// Makes an `Hmac<Sha256>` of the `hmac` crate with `new_from_slice(key)`,
/// feeds it `message` with `update`, and calls `verify_slice(tag)`. That call
/// accepts only a tag that has the full length of 32 bytes and equals the
/// computed one, and it compares in constant time. `new_from_slice` of this
/// MAC takes a key of any length and never fails.
#[verifier::external_body]
fn mac_matches(key: &[u8], message: &[u8], tag: &[u8]) -> (ok: bool)
    ensures
        ok == (tag@ == hmac_sha256(key@, message@)),
{
    match Hmac::<Sha256>::new_from_slice(key) {
        Ok(mut mac) => {
            mac.update(message);
            mac.verify_slice(tag).is_ok()
        },
        Err(_) => false,
    }
}

/// Makes an `Hmac<Sha256>` of the `hmac` crate with `new_from_slice(key)`,
/// feeds it `message` with `update`, and takes the tag from `finalize`. The
/// tag has the length of a SHA-256 digest, 32 bytes.
#[verifier::external_body]
fn mac_tag(key: &[u8], message: &[u8]) -> (tag: Vec<u8>)
    ensures
        tag@ == hmac_sha256(key@, message@),
        tag@.len() == 32,
{
    let mut mac = Hmac::<Sha256>::new_from_slice(key).expect("a key of any length is accepted");
    mac.update(message);
    mac.finalize().into_bytes().to_vec()
}

/// Whether `data` begins with `prefix`.
fn starts_with(data: &[u8], prefix: &[u8]) -> (yes: bool)
    ensures
        yes == prefix@.is_prefix_of(data@),
{
    if data.len() < prefix.len() {
        return false;
    }
    let mut i: usize = 0;
    while i < prefix.len()
        invariant
            i <= prefix.len() <= data.len(),
            forall|j: int| 0 <= j < i ==> data@[j] == prefix@[j],
        decreases prefix.len() - i,
    {
        if data[i] != prefix[i] {
            return false;
        }
        i += 1;
    }
    assert(data@.subrange(0, prefix@.len() as int) =~= prefix@);
    true
}

/// Reads the tag out of a signature header: the marker `sha256=`, if the
/// header begins with it, is taken off, and the rest is decoded as hex. There
/// is no tag where the rest is not hex text.
pub fn decode_signature(header: &[u8]) -> (tag: Option<Vec<u8>>)
    ensures
        match tag {
            Some(bytes) => carried_tag(header@) == Some(bytes@),
            None => carried_tag(header@) is None,
        },
{
    let marker: [u8; 7] = [0x73, 0x68, 0x61, 0x32, 0x35, 0x36, 0x3d];
    assert(marker@ =~= scheme_marker());
    let digits = if starts_with(header, marker.as_slice()) {
        slice_subrange(header, 7, header.len())
    } else {
        header
    };
    assert(digits@ == strip_marker(header@));
    hex_decode(digits)
}

/// Writes the header value that carries `tag`.
pub fn encode_signature(tag: &[u8]) -> (header: String)
    ensures
        header@ == header_text(tag@),
{
    let digits = hex_encode(tag);
    String::from_str("sha256=").concat(digits.as_str())
}

/// Checks a signature given as raw header bytes.
pub fn validate_signature_bytes(key: &[u8], body: &[u8], header: &[u8]) -> (ok: bool)
    ensures
        ok == signature_valid(key@, body@, header@),
{
    match decode_signature(header) {
        Some(tag) => mac_matches(key, body, tag.as_slice()),
        None => false,
    }
}

/// Checks the signature header of a webhook against the raw body: true
/// exactly when the header, with or without its `sha256=` marker, is the hex
/// form of the body's tag under `secret`. Anything malformed is a plain
/// `false`.
pub fn validate_signature(secret: &str, body: &[u8], signature: &str) -> (ok: bool)
    ensures
        ok == signature_valid(secret.spec_bytes(), body@, signature.spec_bytes()),
{
    validate_signature_bytes(secret.as_bytes(), body, signature.as_bytes())
}

/// The header value with which a sender signs `body` under `secret`.
pub fn sign(secret: &str, body: &[u8]) -> (header: String)
    ensures
        header@ == signature_text(secret.spec_bytes(), body@),
{
    let tag = mac_tag(secret.as_bytes(), body);
    encode_signature(tag.as_slice())
}

/// The bytes of a header value: the marker, then the hex text.
pub proof fn lemma_header_bytes(tag: Seq<u8>)
    ensures
        encode_utf8(header_text(tag)) == scheme_marker() + hex_text_bytes(tag),
{
    reveal_strlit("sha256=");
    let text = header_text(tag);
    assert forall|i: int| 0 <= i < text.len() implies (text[i] as nat) < 128 by {
        if i >= 7 {
            lemma_digit_value(tag[(i - 7) / 2] as int / 16);
            lemma_digit_value(tag[(i - 7) / 2] as int % 16);
        }
    }
    assert(is_ascii_chars(text));
    is_ascii_chars_encode_utf8(text);
    assert(encode_utf8(text) =~= scheme_marker() + hex_text_bytes(tag));
}

/// A body verifies under the signature that `sign` makes for it.
pub proof fn law_signed_body_verifies(key: Seq<u8>, body: Seq<u8>)
    ensures
        signature_valid(key, body, encode_utf8(signature_text(key, body))),
{
    law_signature_binds_body(key, body, body);
}

/// A signature made for one body is accepted for another exactly when both
/// bodies have the same tag under the key. Two bodies with different tags
/// never pass for one another.
pub proof fn law_signature_binds_body(key: Seq<u8>, body: Seq<u8>, signed: Seq<u8>)
    ensures
        signature_valid(key, body, encode_utf8(signature_text(key, signed))) == (hmac_sha256(
            key,
            body,
        ) == hmac_sha256(key, signed)),
{
    law_header_carries_its_tag(hmac_sha256(key, signed));
}

/// A header carries the tag from which it was written.
pub proof fn law_header_carries_its_tag(tag: Seq<u8>)
    ensures
        carried_tag(encode_utf8(header_text(tag))) == Some(tag),
{
    lemma_header_bytes(tag);
    let header = encode_utf8(header_text(tag));
    assert(scheme_marker().is_prefix_of(header)) by {
        assert(header.subrange(0, 7) =~= scheme_marker());
    }
    assert(strip_marker(header) =~= hex_text_bytes(tag));
    lemma_hex_round_trip(tag);
}

/// A header that is not hex text after its marker is rejected, whatever the
/// key and the body.
pub proof fn law_malformed_signature_rejected(key: Seq<u8>, body: Seq<u8>, header: Seq<u8>)
    requires
        !is_hex(strip_marker(header)),
    ensures
        !signature_valid(key, body, header),
{
}

} // verus!
