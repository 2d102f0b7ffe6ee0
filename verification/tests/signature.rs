use hmac::Mac;
use primitives::signature::{
    decode_signature, encode_signature, sign, validate_signature, validate_signature_bytes,
};

const FOX: &[u8] = b"The quick brown fox jumps over the lazy dog";
const FOX_TAG: &str = "f7bc83f430538424b13298e6aa6fb143ef4d59a14946175997479dbc2d1a3cd8";

#[test]
fn sign_gives_marker_and_hex_of_known_tag() {
    assert_eq!(sign("key", FOX), format!("sha256={}", FOX_TAG));
}

#[test]
fn sign_of_empty_key_and_body() {
    assert_eq!(
        sign("", b""),
        "sha256=b613679a0814d9ec772f95d778c35fc5ff1697c493715653c6c712144292c5ad"
    );
}

#[test]
fn signature_has_71_characters() {
    assert_eq!(sign("secret", b"body").len(), 7 + 64);
}

#[test]
fn validate_accepts_known_tag_with_marker() {
    assert!(validate_signature("key", FOX, &format!("sha256={}", FOX_TAG)));
}

#[test]
fn validate_accepts_known_tag_without_marker() {
    assert!(validate_signature("key", FOX, FOX_TAG));
}

#[test]
fn validate_accepts_upper_case_digits() {
    assert!(validate_signature("key", FOX, &FOX_TAG.to_uppercase()));
    assert!(validate_signature("key", FOX, &format!("sha256={}", FOX_TAG.to_uppercase())));
}

#[test]
fn validate_round_trip_for_many_bodies_and_secrets() {
    let secrets = ["", "k", "my-secret-key", "pässwörd", &"x".repeat(200)];
    let bodies: [&[u8]; 5] = [b"", b"{\"a\":1}", b"hello", &[0u8, 255, 128, 10], &[7u8; 1000]];
    for secret in secrets {
        for body in bodies {
            let header = sign(secret, body);
            assert!(validate_signature(secret, body, &header));
            assert!(validate_signature(secret, body, &header[7..]));
        }
    }
}

#[test]
fn validate_rejects_signature_of_another_body() {
    let header = sign("k", b"{\"a\":1}");
    assert!(!validate_signature("k", b"{\"a\":2}", &header));
    assert!(!validate_signature("k", b"", &header));
    assert!(!validate_signature("k", b"{\"a\":1} ", &header));
}

#[test]
fn validate_rejects_signature_under_another_secret() {
    let header = sign("k", b"body");
    assert!(!validate_signature("K", b"body", &header));
    assert!(!validate_signature("", b"body", &header));
}

#[test]
fn validate_rejects_malformed_hex() {
    assert!(!validate_signature("key", FOX, "sha256=zz"));
    assert!(!validate_signature("key", FOX, "sha256=not hex at all"));
    assert!(!validate_signature("key", FOX, "xyz"));
    assert!(!validate_signature("key", FOX, "sha256=é"));
    assert!(!validate_signature("key", FOX, "\u{1F600}"));
}

#[test]
fn validate_rejects_odd_length() {
    assert!(!validate_signature("key", FOX, &FOX_TAG[..63]));
    assert!(!validate_signature("key", FOX, "sha256=abc"));
}

#[test]
fn validate_rejects_empty_and_bare_marker() {
    assert!(!validate_signature("key", FOX, ""));
    assert!(!validate_signature("key", FOX, "sha256="));
}

#[test]
fn validate_rejects_truncated_and_extended_tags() {
    assert!(!validate_signature("key", FOX, &FOX_TAG[..62]));
    assert!(!validate_signature("key", FOX, &format!("{}00", FOX_TAG)));
}

#[test]
fn validate_takes_the_marker_off_once() {
    assert!(!validate_signature("key", FOX, &format!("sha256=sha256={}", FOX_TAG)));
}

#[test]
fn validate_marker_is_case_sensitive() {
    assert!(!validate_signature("key", FOX, &format!("SHA256={}", FOX_TAG)));
}

#[test]
fn validate_bytes_agrees_with_validate() {
    let header = sign("k", b"payload");
    assert!(validate_signature_bytes(b"k", b"payload", header.as_bytes()));
    assert!(!validate_signature_bytes(b"k", b"payload", &[0xff, 0xfe]));
}

#[test]
fn sign_agrees_with_hmac_and_hex_crates() {
    let mut mac = hmac::Hmac::<sha2::Sha256>::new_from_slice(b"k").unwrap();
    mac.update(b"{\"a\":1}");
    let expected = format!("sha256={}", hex::encode(mac.finalize().into_bytes()));
    assert_eq!(sign("k", b"{\"a\":1}"), expected);
}

#[test]
fn decode_reads_the_tag_with_or_without_marker() {
    assert_eq!(decode_signature(b"sha256=00ff10"), Some(vec![0x00, 0xff, 0x10]));
    assert_eq!(decode_signature(b"00FF10"), Some(vec![0x00, 0xff, 0x10]));
    assert_eq!(decode_signature(b"aBcD"), Some(vec![0xab, 0xcd]));
    assert_eq!(decode_signature(b""), Some(vec![]));
    assert_eq!(decode_signature(b"sha256="), Some(vec![]));
}

#[test]
fn decode_refuses_what_is_not_hex() {
    assert_eq!(decode_signature(b"sha256=0"), None);
    assert_eq!(decode_signature(b"0g"), None);
    assert_eq!(decode_signature(b"sha256"), None);
    assert_eq!(decode_signature(b"sha256=sha256=00"), None);
    assert_eq!(decode_signature(b" 00"), None);
    assert_eq!(decode_signature(&[0xff, 0xff]), None);
}

#[test]
fn encode_writes_marker_and_lower_case_hex() {
    assert_eq!(encode_signature(&[0x00, 0xff, 0x10, 0xab]), "sha256=00ff10ab");
    assert_eq!(encode_signature(&[]), "sha256=");
    let all: Vec<u8> = (0..=255).collect();
    assert_eq!(decode_signature(encode_signature(&all).as_bytes()), Some(all));
}
