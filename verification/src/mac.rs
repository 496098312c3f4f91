//! HMAC-SHA256, the token's signature primitive.

use vstd::prelude::*;

use vstd::string::StringSliceAdditionalSpecFns;

use hmac::{Hmac, KeyInit, Mac};
use sha2::Sha256;

use crate::b64::{b64url_len, b64url_of, encode_segment, is_b64url_char};

verus! {

/// The HMAC-SHA256 digest of `msg` under `key`.  A keyed hash is a pure
/// function of key and message — no randomness, no nonce — so the digest
/// can be given a name; its exact bytes are pinned only by the outside
/// implementation.
pub uninterp spec fn hmac_sha256_of(key: Seq<u8>, msg: Seq<u8>) -> Seq<u8>;

/// Relies on hmac's `Hmac<Sha256>`: the digest depends on key and message
/// alone and is always 32 bytes (the SHA-256 output size); HMAC pads or
/// hashes the key internally, so keys of any length are accepted.
#[verifier::external_body]
pub(crate) fn hmac_sha256(key: &[u8], msg: &[u8]) -> (r: Vec<u8>)
    ensures
        r@ == hmac_sha256_of(key@, msg@),
        r@.len() == 32,
{
    let mut m = <Hmac<Sha256> as KeyInit>::new_from_slice(key).unwrap();
    m.update(msg);
    m.finalize().into_bytes().to_vec()
}

/// Signs the given input — the two encoded segments joined by `.` — with
/// HMAC-SHA256 under the secret, and returns the digest as an encoded
/// token segment.  A key of any length is accepted, and the 32-byte
/// digest always encodes, so signing cannot fail.
pub fn sign_segment(secret: &Vec<u8>, signing_input: &str) -> (r: String)
    ensures
        r@ == b64url_of(hmac_sha256_of(secret@, signing_input.spec_bytes())),
        r@.len() == b64url_len(32),
        forall|i: int| 0 <= i < r@.len() ==> is_b64url_char(#[trigger] r@[i]),
{
    let digest = hmac_sha256(secret.as_slice(), signing_input.as_bytes());
    match encode_segment(&digest) {
        Ok(s) => s,
        Err(_) => {
            proof {
                assert(false);  // a 32-byte digest is always encodable
            }
            String::new()
        },
    }
}

} // verus!
