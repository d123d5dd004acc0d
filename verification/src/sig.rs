//! Webhook signature verification: HMAC-SHA256 over the raw request body,
//! compared as a lowercase hexadecimal string.

use vstd::prelude::*;

verus! {

/// One lowercase hexadecimal digit, for a value below sixteen.
pub open spec fn hex_digit(n: int) -> char {
    if n == 0 {
        '0'
    } else if n == 1 {
        '1'
    } else if n == 2 {
        '2'
    } else if n == 3 {
        '3'
    } else if n == 4 {
        '4'
    } else if n == 5 {
        '5'
    } else if n == 6 {
        '6'
    } else if n == 7 {
        '7'
    } else if n == 8 {
        '8'
    } else if n == 9 {
        '9'
    } else if n == 10 {
        'a'
    } else if n == 11 {
        'b'
    } else if n == 12 {
        'c'
    } else if n == 13 {
        'd'
    } else if n == 14 {
        'e'
    } else {
        'f'
    }
}

/// Lowercase hexadecimal encoding of a byte string: two digits per byte,
/// high nibble first.
pub open spec fn hex_encoding(bytes: Seq<u8>) -> Seq<char>
    decreases bytes.len(),
{
    if bytes.len() == 0 {
        Seq::empty()
    } else {
        seq![hex_digit(bytes[0] as int / 16), hex_digit(bytes[0] as int % 16)]
            + hex_encoding(bytes.drop_first())
    }
}

/// The HMAC-SHA256 tag computed with `key` over the UTF-8 bytes of `msg`.
pub uninterp spec fn hmac_sha256_of(key: Seq<u8>, msg: Seq<char>) -> Seq<u8>;

/// Relies on hmac's `Hmac<Sha256>` (`KeyInit::new_from_slice`, `Mac::update`,
/// `Mac::finalize`): the tag is a function of the key and the message bytes
/// alone and is 32 bytes long; any key length is accepted.
#[verifier::external_body]
fn hmac_sha256(key: &[u8], msg: &str) -> (r: Vec<u8>)
    ensures
        r@ == hmac_sha256_of(key@, msg@),
        r@.len() == 32,
{
    let mut mac = <hmac::Hmac<sha2::Sha256> as hmac::KeyInit>::new_from_slice(key)
        .expect("any key length is accepted");
    hmac::Mac::update(&mut mac, msg.as_bytes());
    hmac::Mac::finalize(mac).into_bytes().to_vec()
}

/// Relies on `hex::encode`: lowercase hexadecimal, exactly two digits for
/// each input byte, high nibble first.
#[verifier::external_body]
fn hex_encode(bytes: &Vec<u8>) -> (r: String)
    ensures
        r@ == hex_encoding(bytes@),
{
    hex::encode(bytes.as_slice())
}

/// The expected signature string for `body` under `secret`.
pub open spec fn signature_of(secret: Seq<u8>, body: Seq<char>) -> Seq<char> {
    hex_encoding(hmac_sha256_of(secret, body))
}

/// Whether a caller-supplied signature is the correct one for `body`.
pub open spec fn signature_matches(secret: Seq<u8>, body: Seq<char>, sig: Seq<char>) -> bool {
    sig == signature_of(secret, body)
}

/// The lowercase hexadecimal HMAC-SHA256 signature of `body` under `secret`.
pub fn signature_hex(secret: &[u8], body: &str) -> (r: String)
    ensures
        r@ == signature_of(secret@, body@),
{
    let tag = hmac_sha256(secret, body);
    hex_encode(&tag)
}

/// Returns true exactly when `provided` is the signature of `body` under
/// `secret`.
pub fn verify_signature(secret: &[u8], body: &str, provided: &str) -> (r: bool)
    ensures
        r == signature_matches(secret@, body@, provided@),
{
    let expected = signature_hex(secret, body);
    let given = provided.to_owned();
    given == expected
}

/// The signature derived from the secret and the body always verifies
/// against that same body and secret.
pub proof fn lemma_correct_signature_accepted(secret: Seq<u8>, body: Seq<char>)
    ensures
        signature_matches(secret, body, signature_of(secret, body)),
{
}

/// A candidate signature that differs from the true one at any position is
/// rejected.
pub proof fn lemma_altered_signature_rejected(
    secret: Seq<u8>,
    body: Seq<char>,
    sig: Seq<char>,
    i: int,
)
    requires
        0 <= i < sig.len(),
        sig.len() == signature_of(secret, body).len(),
        sig[i] != signature_of(secret, body)[i],
    ensures
        !signature_matches(secret, body, sig),
{
    if sig == signature_of(secret, body) {
        assert(sig[i] == signature_of(secret, body)[i]);
    }
}

} // verus!
