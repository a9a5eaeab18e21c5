use ed25519_compact::{KeyPair, Seed};
use fdb_dht::ed25519::verify;
use fdb_dht::hex::decode_hex;

fn hex(bytes: &[u8]) -> String {
    let mut text = String::new();
    for b in bytes {
        text.push_str(&format!("{:02x}", b));
    }
    text
}

fn owner(seed: u8) -> KeyPair {
    KeyPair::from_seed(Seed::new([seed; 32]))
}

fn sign(pair: &KeyPair, message: &str) -> String {
    hex(&pair.sk.sign(message, None)[..])
}

const VECTOR_KEY: &str = "3d4017c3e843895a92b70aa74d1b7ebc9c982ccf2ec4968cc0cd55f12af4660c";
const VECTOR_SIGNATURE: &str = "92a009a9f0d4cab8720e820b5f642540a2b27b5416503f8fb3762223ebdb69da085ac1e43e15996e458f3613d0f11d8c387b2eaeb4302aeeb00d291612bb0c00";

#[test]
fn decode_hex_reads_both_cases() {
    assert_eq!(decode_hex(b"00ff7fA0b1"), Some(vec![0x00, 0xff, 0x7f, 0xa0, 0xb1]));
    assert_eq!(decode_hex(b"DEADbeef"), Some(vec![0xde, 0xad, 0xbe, 0xef]));
}

#[test]
fn decode_hex_of_nothing_is_nothing() {
    assert_eq!(decode_hex(b""), Some(vec![]));
}

#[test]
fn decode_hex_refuses_odd_length() {
    assert_eq!(decode_hex(b"abc"), None);
    assert_eq!(decode_hex(b"0"), None);
}

#[test]
fn decode_hex_refuses_other_bytes() {
    assert_eq!(decode_hex(b"0g"), None);
    assert_eq!(decode_hex(b"g0"), None);
    assert_eq!(decode_hex(b"0x12"), None);
    assert_eq!(decode_hex(b" 12 "), None);
    assert_eq!(decode_hex("\u{e9}\u{e9}".as_bytes()), None);
    assert_eq!(decode_hex(b"/0"), None);
    assert_eq!(decode_hex(b":0"), None);
    assert_eq!(decode_hex(b"@A"), None);
    assert_eq!(decode_hex(b"G0"), None);
    assert_eq!(decode_hex(b"`a"), None);
}

#[test]
fn verify_accepts_a_published_vector() {
    assert!(verify(VECTOR_KEY.to_string(), VECTOR_SIGNATURE.to_string(), "r".to_string()));
}

#[test]
fn verify_accepts_upper_case_text() {
    assert!(verify(
        VECTOR_KEY.to_uppercase(),
        VECTOR_SIGNATURE.to_uppercase(),
        "r".to_string()
    ));
}

#[test]
fn verify_refuses_another_message() {
    assert!(!verify(VECTOR_KEY.to_string(), VECTOR_SIGNATURE.to_string(), "s".to_string()));
    assert!(!verify(VECTOR_KEY.to_string(), VECTOR_SIGNATURE.to_string(), "".to_string()));
    assert!(!verify(VECTOR_KEY.to_string(), VECTOR_SIGNATURE.to_string(), "rr".to_string()));
}

#[test]
fn verify_accepts_what_the_owner_signed() {
    let pair = owner(7);
    let message = "topic1Qm111";
    assert!(verify(hex(&pair.pk[..]), sign(&pair, message), message.to_string()));
}

#[test]
fn verify_refuses_another_key() {
    let pair = owner(7);
    let other = owner(8);
    let message = "topic1Qm111";
    assert!(!verify(hex(&other.pk[..]), sign(&pair, message), message.to_string()));
}

#[test]
fn verify_refuses_a_changed_signature() {
    let pair = owner(7);
    let message = "topic1Qm111";
    let mut bytes = pair.sk.sign(message, None)[..].to_vec();
    bytes[10] ^= 0x01;
    assert!(!verify(hex(&pair.pk[..]), hex(&bytes), message.to_string()));
}

#[test]
fn verify_refuses_a_changed_key() {
    let pair = owner(7);
    let message = "topic1Qm111";
    let mut bytes = pair.pk[..].to_vec();
    bytes[3] ^= 0x40;
    assert!(!verify(hex(&bytes), sign(&pair, message), message.to_string()));
}

#[test]
fn verify_refuses_malformed_text() {
    let pair = owner(7);
    let message = "topic1Qm111";
    let key = hex(&pair.pk[..]);
    let signature = sign(&pair, message);
    assert!(!verify("not hex".to_string(), signature.clone(), message.to_string()));
    assert!(!verify(key.clone(), "zz".to_string(), message.to_string()));
    assert!(!verify(String::new(), String::new(), String::new()));
    assert!(!verify(key[..62].to_string(), signature.clone(), message.to_string()));
    assert!(!verify(key.clone(), signature[..126].to_string(), message.to_string()));
    assert!(!verify(format!("{}00", key), signature.clone(), message.to_string()));
    assert!(!verify(key, format!("{}00", signature), message.to_string()));
}

#[test]
fn verify_reads_the_message_as_utf8() {
    let pair = owner(9);
    let message = "cl\u{e9} \u{2192} Qm111";
    let signature = hex(&pair.sk.sign(message.as_bytes(), None)[..]);
    assert!(verify(hex(&pair.pk[..]), signature, message.to_string()));
}
