use order_relay::sig::{signature_hex, verify_signature};

fn reference_signature(secret: &[u8], body: &str) -> String {
    let mut mac = <hmac::Hmac<sha2::Sha256> as hmac::KeyInit>::new_from_slice(secret).unwrap();
    hmac::Mac::update(&mut mac, body.as_bytes());
    hex::encode(hmac::Mac::finalize(mac).into_bytes())
}

#[test]
fn known_test_vector() {
    // RFC 4231 test case 2.
    let sig = signature_hex(b"Jefe", "what do ya want for nothing?");
    assert_eq!(
        sig,
        "5bdcc146bf60754e6a042426089575c75a003f089d2739839dec58b964ec3843"
    );
}

#[test]
fn correct_signature_verifies() {
    let secret = b"super-secret";
    let body = "{\"event\":\"order.status.changed\"}";
    let sig = reference_signature(secret, body);
    assert!(verify_signature(secret, body, &sig));
}

#[test]
fn single_bit_flip_is_rejected() {
    let secret = b"super-secret";
    let body = "{\"event\":\"order.status.changed\"}";
    let sig = reference_signature(secret, body);
    for i in 0..sig.len() {
        let mut bytes = sig.clone().into_bytes();
        bytes[i] ^= 0x01;
        let mutated = String::from_utf8(bytes).unwrap();
        assert!(!verify_signature(secret, body, &mutated));
    }
}

#[test]
fn empty_body_and_empty_secret() {
    let sig = reference_signature(b"", "");
    assert!(verify_signature(b"", "", &sig));
    assert!(!verify_signature(b"x", "", &sig));
}

#[test]
fn signature_depends_on_body() {
    let secret = b"k";
    let sig = reference_signature(secret, "abc");
    assert!(!verify_signature(secret, "abd", &sig));
}
