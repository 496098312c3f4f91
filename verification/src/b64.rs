//! Unpadded URL-safe base64, the canonical segment encoding.

use vstd::prelude::*;

use base64::Engine;

use crate::errors::JWTError;

verus! {

/// The characters produced by the encoding: the URL-safe base64 alphabet
/// `A-Z`, `a-z`, `0-9`, `-` and `_`.  In particular `.` and `=` are never
/// produced, so segments joined with `.` can be told apart again.
pub open spec fn is_b64url_char(c: char) -> bool {
    ||| 65 <= c as u32 <= 90  // 'A'..='Z'
    ||| 97 <= c as u32 <= 122  // 'a'..='z'
    ||| 48 <= c as u32 <= 57  // '0'..='9'
    ||| c as u32 == 45  // '-'
    ||| c as u32 == 95  // '_'
}

/// The length of the unpadded base64 encoding of `n` bytes:
/// four characters for every three bytes, rounded up.
pub open spec fn b64url_len(n: nat) -> nat {
    (4 * n + 2) / 3
}

/// The unpadded URL-safe base64 encoding of a byte sequence.  The exact
/// character string is pinned only by the outside encoder; everything the
/// callers rely on beyond its existence is its length and its alphabet.
pub uninterp spec fn b64url_of(bytes: Seq<u8>) -> Seq<char>;

/// Whether a byte sequence is small enough for its encoding to fit in a
/// `usize`-indexed buffer; anything that fails this is refused rather than
/// encoded.
pub open spec fn seg_encodable(bytes: Seq<u8>) -> bool {
    4 * bytes.len() + 4 <= usize::MAX
}

/// Relies on base64's `URL_SAFE_NO_PAD` engine: the result is a pure
/// function of the input bytes, uses the URL-safe alphabet (`-`/`_`), emits
/// no `=` padding, and is four characters for every three input bytes,
/// rounded up.
#[verifier::external_body]
fn b64url_encode_raw(b: &[u8]) -> (r: String)
    requires
        seg_encodable(b@),
    ensures
        r@ == b64url_of(b@),
        r@.len() == b64url_len(b@.len()),
        forall|i: int| 0 <= i < r@.len() ==> is_b64url_char(#[trigger] r@[i]),
{
    base64::engine::general_purpose::URL_SAFE_NO_PAD.encode(b)
}

/// Encodes one token segment, refusing inputs whose encoding would not be
/// addressable instead of letting the encoder fail.
pub fn encode_segment(b: &Vec<u8>) -> (r: Result<String, JWTError>)
    ensures
        r is Ok <==> seg_encodable(b@),
        r matches Ok(s) ==> {
            &&& s@ == b64url_of(b@)
            &&& s@.len() == b64url_len(b@.len())
            &&& forall|i: int| 0 <= i < s@.len() ==> is_b64url_char(#[trigger] s@[i])
        },
        r matches Err(e) ==> e == JWTError::SerializationError,
{
    if b.len() <= (usize::MAX - 4) / 4 {
        Ok(b64url_encode_raw(b.as_slice()))
    } else {
        Err(JWTError::SerializationError)
    }
}

} // verus!
