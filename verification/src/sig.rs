//! Signature verification for inbound webhook requests: a keyed hash of the
//! raw body under the shared secret, rendered as lowercase hexadecimal and
//! compared byte-for-byte against the received signature string.

use vstd::prelude::*;
use hmac::{Hmac, KeyInit, Mac};
use sha2::Sha256;

verus! {

/// The sixteen lowercase hexadecimal digit characters, least value first.
pub open spec fn hex_digits() -> Seq<char> {
    seq!['0', '1', '2', '3', '4', '5', '6', '7', '8', '9', 'a', 'b', 'c', 'd', 'e', 'f']
}

/// The two lowercase hexadecimal digits of one byte, high digit first.
pub open spec fn hex_byte(b: u8) -> Seq<char> {
    seq![hex_digits()[b as int / 16], hex_digits()[b as int % 16]]
}

/// The lowercase hexadecimal rendering of a byte string.
pub open spec fn hex_of(bytes: Seq<u8>) -> Seq<char>
    decreases bytes.len(),
{
    if bytes.len() == 0 {
        Seq::empty()
    } else {
        hex_byte(bytes.first()) + hex_of(bytes.drop_first())
    }
}

/// The HMAC-SHA-256 tag of a message under a key: a pure function of the two.
pub uninterp spec fn hmac_sha256_of(key: Seq<u8>, msg: Seq<u8>) -> Seq<u8>;

/// Relies on hmac's `Hmac<Sha256>` (over sha2): the tag depends on key and
/// message alone, and a SHA-256 tag is 32 bytes. `Mac::new_from_slice` accepts
/// a key of any length for HMAC, so the unwrap cannot fail.
#[verifier::external_body]
fn hmac_sha256(key: &[u8], msg: &[u8]) -> (r: Vec<u8>)
    ensures
        r@ == hmac_sha256_of(key@, msg@),
        r@.len() == 32,
{
    let mut mac = <Hmac<Sha256> as KeyInit>::new_from_slice(key).unwrap();
    mac.update(msg);
    mac.finalize().into_bytes().to_vec()
}

/// Relies on hex::encode: lowercase hexadecimal, two digits per byte, high
/// digit first.
#[verifier::external_body]
fn hex_encode(bytes: &Vec<u8>) -> (r: String)
    ensures
        r@ == hex_of(bytes@),
{
    hex::encode(bytes)
}

/// Whether `sig` is exactly the lowercase-hex HMAC-SHA-256 tag of `body`
/// under `secret`.
pub open spec fn signature_matches(secret: Seq<u8>, body: Seq<u8>, sig: Seq<char>) -> bool {
    sig == hex_of(hmac_sha256_of(secret, body))
}

/// Computes the keyed hash of `body` under `secret` and compares its
/// lowercase hexadecimal rendering against the received signature.
pub fn verify_signature(secret: &[u8], body: &[u8], sig: &String) -> (r: bool)
    ensures
        r == signature_matches(secret@, body@, sig@),
{
    let tag = hmac_sha256(secret, body);
    let tag_hex = hex_encode(&tag);
    tag_hex.eq(sig)
}

/// Verification is deterministic: any two verdicts reached for the same
/// secret, body and signature agree, however often the check is repeated.
pub proof fn lemma_verification_deterministic(
    secret: Seq<u8>,
    body: Seq<u8>,
    sig: Seq<char>,
    r1: bool,
    r2: bool,
)
    requires
        r1 == signature_matches(secret, body, sig),
        r2 == signature_matches(secret, body, sig),
    ensures
        r1 == r2,
{
}

} // verus!
