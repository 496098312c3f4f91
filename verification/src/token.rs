//! Token issuance: orchestration of splitting, claims building, canonical
//! encoding, signing, and assembly.

use vstd::prelude::*;

use vstd::string::{StrSliceExecFns, StringExecFns, StringSliceAdditionalSpecFns};
use vstd::utf8::encode_utf8;

use crate::b64::{b64url_of, encode_segment, is_b64url_char, seg_encodable};
use crate::claims::{build_claims, clock_representable, duration_representable};
use crate::credential::{credential_id, credential_secret, split_credential, valid_credential};
use crate::errors::JWTError;
use crate::jsonenc::{
    header_bytes, header_json, lemma_header_bytes_len, lemma_payload_bytes_injective,
    lemma_payload_bytes_nonempty, payload_bytes, payload_json,
};
use crate::mac::{hmac_sha256_of, sign_segment};

verus! {

/// How many times `c` occurs in `s`.
pub open spec fn count_char(s: Seq<char>, c: char) -> nat
    decreases s.len(),
{
    if s.len() == 0 {
        0
    } else {
        count_char(s.drop_last(), c) + (if s.last() == c {
            1nat
        } else {
            0nat
        })
    }
}

/// A token segment: non-empty and free of the `.` separator.
pub open spec fn is_segment(s: Seq<char>) -> bool {
    &&& s.len() > 0
    &&& forall|i: int| 0 <= i < s.len() ==> s[i] != '.'
}

/// Three segments joined with the `.` separator, in fixed order.
pub open spec fn joined(h: Seq<char>, p: Seq<char>, g: Seq<char>) -> Seq<char> {
    h + seq!['.'] + p + seq!['.'] + g
}

/// The shape every issued token has: some three proper segments joined
/// with `.`.
pub open spec fn three_segments(t: Seq<char>) -> bool {
    exists|h: Seq<char>, p: Seq<char>, g: Seq<char>|
        t == joined(h, p, g) && is_segment(h) && is_segment(p) && is_segment(g)
}

/// The characters of the finished token for the given serialised header,
/// serialised claims, and signing secret: the two encoded records, then
/// the encoded HMAC-SHA256 digest of exactly those two segments joined by
/// one `.`.
pub open spec fn token_chars(header: Seq<u8>, payload: Seq<u8>, secret: Seq<u8>) -> Seq<char> {
    let h = b64url_of(header);
    let p = b64url_of(payload);
    let g = b64url_of(hmac_sha256_of(secret, encode_utf8(h + seq!['.'] + p)));
    joined(h, p, g)
}

/// What issuance returns, for every input: each rejection with its kind,
/// in the order the stages run, and otherwise exactly one token string.
pub open spec fn issue_result(
    cred: Seq<u8>,
    duration_seconds: i64,
    now_seconds: i64,
    legacy_sign_type: bool,
) -> Result<Seq<char>, JWTError> {
    if !valid_credential(cred) {
        Err(JWTError::InvalidCredentialFormat)
    } else if !duration_representable(duration_seconds) {
        Err(JWTError::InvalidDuration)
    } else if !clock_representable(now_seconds, duration_seconds) {
        Err(JWTError::ClockError)
    } else {
        let iat = now_seconds * 1000;
        let exp = iat + duration_seconds * 1000;
        let payload = payload_bytes(credential_id(cred), exp, iat);
        if !seg_encodable(payload) {
            Err(JWTError::SerializationError)
        } else {
            Ok(token_chars(header_bytes(legacy_sign_type), payload, credential_secret(cred)))
        }
    }
}

/// Counting distributes over concatenation.
pub proof fn lemma_count_char_concat(a: Seq<char>, b: Seq<char>, c: char)
    ensures
        count_char(a + b, c) == count_char(a, c) + count_char(b, c),
    decreases b.len(),
{
    if b.len() == 0 {
        assert(a + b =~= a);
    } else {
        lemma_count_char_concat(a, b.drop_last(), c);
        assert((a + b).drop_last() =~= a + b.drop_last());
    }
}

/// A sequence without `c` counts zero of them.
pub proof fn lemma_count_char_absent(s: Seq<char>, c: char)
    requires
        forall|i: int| 0 <= i < s.len() ==> s[i] != c,
    ensures
        count_char(s, c) == 0,
    decreases s.len(),
{
    if s.len() > 0 {
        lemma_count_char_absent(s.drop_last(), c);
    }
}

/// Three proper segments joined with `.` carry exactly two separators.
pub proof fn lemma_joined_count(h: Seq<char>, p: Seq<char>, g: Seq<char>)
    requires
        is_segment(h),
        is_segment(p),
        is_segment(g),
    ensures
        count_char(joined(h, p, g), '.') == 2,
{
    let d = seq!['.'];
    lemma_count_char_absent(h, '.');
    lemma_count_char_absent(p, '.');
    lemma_count_char_absent(g, '.');
    assert(d.drop_last() =~= Seq::<char>::empty());
    assert(count_char(Seq::<char>::empty(), '.') == 0);
    assert(d.last() == '.');
    assert(count_char(d, '.') == 1);
    lemma_count_char_concat(h, d, '.');
    lemma_count_char_concat(h + d, p, '.');
    lemma_count_char_concat(h + d + p, d, '.');
    lemma_count_char_concat(h + d + p + d, g, '.');
}

/// Joins the three encoded segments with `.` in fixed order: header,
/// payload, signature.  A pure string join; nothing is validated beyond
/// the segments being non-empty.
pub fn assemble_token(header_seg: String, payload_seg: &str, signature_seg: &str) -> (t: String)
    requires
        header_seg@.len() > 0,
        payload_seg@.len() > 0,
        signature_seg@.len() > 0,
    ensures
        t@ == header_seg@ + seq!['.'] + payload_seg@ + seq!['.'] + signature_seg@,
{
    let ghost h0: Seq<char> = header_seg@;  // snapshot before the move
    let mut t = header_seg;
    t.append(".");
    t.append(payload_seg);
    t.append(".");
    t.append(signature_seg);
    proof {
        reveal_strlit(".");
        assert("."@ =~= seq!['.']);
        assert(t@ =~= h0 + seq!['.'] + payload_seg@ + seq!['.'] + signature_seg@);
    }
    t
}

/// The full decomposition of an issued token: the three concrete segments
/// it is joined from, each a proper segment of base64 alphabet characters.
pub open spec fn token_decomposed(
    cred: Seq<u8>,
    duration_seconds: i64,
    now_seconds: i64,
    legacy_sign_type: bool,
    t: Seq<char>,
) -> bool {
    let header = header_bytes(legacy_sign_type);
    let payload = payload_bytes(
        credential_id(cred),
        now_seconds * 1000 + duration_seconds * 1000,
        now_seconds * 1000,
    );
    let h = b64url_of(header);
    let p = b64url_of(payload);
    let g = b64url_of(hmac_sha256_of(credential_secret(cred), encode_utf8(h + seq!['.'] + p)));
    &&& t == joined(h, p, g)
    &&& is_segment(h)
    &&& is_segment(p)
    &&& is_segment(g)
}

/// Issues a token, with the non-standard `sign_type` header field as an
/// explicit compatibility choice.
///
/// The result is pinned completely: exactly [`issue_result`] on the
/// credential's UTF-8 bytes.  On success the string is the three unpadded
/// URL-safe base64 segments — header record, claims record, HMAC-SHA256
/// digest of the first two segments joined by `.`, keyed by the secret —
/// joined with `.`; the claims carry `exp - timestamp ==
/// duration_seconds * 1000` exactly.
pub fn issue_token_with(
    credential: &str,
    duration_seconds: i64,
    now_seconds: i64,
    legacy_sign_type: bool,
) -> (r: Result<String, JWTError>)
    ensures
        (match r {
            Ok(t) => Ok::<Seq<char>, JWTError>(t@),
            Err(e) => Err::<Seq<char>, JWTError>(e),
        }) == issue_result(
            credential.spec_bytes(),
            duration_seconds,
            now_seconds,
            legacy_sign_type,
        ),
        r matches Ok(t) ==> {
            &&& token_decomposed(
                credential.spec_bytes(),
                duration_seconds,
                now_seconds,
                legacy_sign_type,
                t@,
            )
            &&& three_segments(t@)
            &&& count_char(t@, '.') == 2
        },
        !valid_credential(credential.spec_bytes()) ==> r == Err::<String, JWTError>(
            JWTError::InvalidCredentialFormat,
        ),
{
    let ghost cb: Seq<u8> = credential.spec_bytes();
    let (id, secret) = match split_credential(credential) {
        Ok(p) => p,
        Err(e) => {
            return Err(e);
        },
    };
    let claims = match build_claims(id, now_seconds, duration_seconds) {
        Ok(c) => c,
        Err(e) => {
            return Err(e);
        },
    };
    proof {
        assert(claims.issued_at > i64::MIN);
        assert(claims.expires_at > i64::MIN);
    }
    let payload = payload_json(&claims.issuer_id, claims.expires_at, claims.issued_at);
    let header = header_json(legacy_sign_type);
    proof {
        lemma_header_bytes_len(legacy_sign_type);
    }
    let header_seg = match encode_segment(&header) {
        Ok(s) => s,
        Err(e) => {
            proof {
                assert(false);  // at most 47 bytes, so always encodable
            }
            return Err(e);
        },
    };
    let payload_seg = match encode_segment(&payload) {
        Ok(s) => s,
        Err(e) => {
            return Err(e);
        },
    };
    let mut signing_input = header_seg.clone();
    signing_input.append(".");
    signing_input.append(payload_seg.as_str());
    let signature_seg = sign_segment(&secret, signing_input.as_str());
    proof {
        lemma_payload_bytes_nonempty(
            credential_id(cb),
            claims.expires_at as int,
            claims.issued_at as int,
        );
        reveal_strlit(".");
        assert("."@ =~= seq!['.']);
        assert(signing_input@ =~= header_seg@ + seq!['.'] + payload_seg@);
    }
    let ghost hs: Seq<char> = header_seg@;
    let token = assemble_token(header_seg, payload_seg.as_str(), signature_seg.as_str());
    proof {
        let h = b64url_of(header_bytes(legacy_sign_type));
        let p = b64url_of(payload@);
        let g = b64url_of(hmac_sha256_of(credential_secret(cb), encode_utf8(h + seq!['.'] + p)));
        assert(hs == h);
        assert(payload_seg@ == p);
        assert(signature_seg@ == g);
        assert(token@ =~= joined(h, p, g));
        assert(is_segment(h)) by {
            assert(forall|i: int| 0 <= i < h.len() ==> is_b64url_char(#[trigger] h[i]));
        }
        assert(is_segment(p)) by {
            assert(forall|i: int| 0 <= i < p.len() ==> is_b64url_char(#[trigger] p[i]));
        }
        assert(is_segment(g)) by {
            assert(forall|i: int| 0 <= i < g.len() ==> is_b64url_char(#[trigger] g[i]));
        }
        lemma_joined_count(h, p, g);
        assert(three_segments(token@));
    }
    Ok(token)
}

/// Issues a signed bearer token for the composite credential
/// `"<id>.<secret>"`, valid from `now_seconds` for `duration_seconds`.
///
/// The canonical form: the header is exactly `{"alg":"HS256","typ":"JWT"}`
/// with no extra field.  The result is pinned completely by
/// [`issue_result`]; every rejected input gets the error kind of the stage
/// that rejected it, and no partial token is ever returned.
pub fn issue_token(credential: &str, duration_seconds: i64, now_seconds: i64) -> (r: Result<
    String,
    JWTError,
>)
    ensures
        (match r {
            Ok(t) => Ok::<Seq<char>, JWTError>(t@),
            Err(e) => Err::<Seq<char>, JWTError>(e),
        }) == issue_result(credential.spec_bytes(), duration_seconds, now_seconds, false),
        r matches Ok(t) ==> {
            &&& token_decomposed(credential.spec_bytes(), duration_seconds, now_seconds, false, t@)
            &&& three_segments(t@)
            &&& count_char(t@, '.') == 2
        },
        !valid_credential(credential.spec_bytes()) ==> r == Err::<String, JWTError>(
            JWTError::InvalidCredentialFormat,
        ),
        valid_credential(credential.spec_bytes()) && !duration_representable(duration_seconds)
            ==> r == Err::<String, JWTError>(JWTError::InvalidDuration),
        valid_credential(credential.spec_bytes()) && duration_representable(duration_seconds)
            && !clock_representable(now_seconds, duration_seconds) ==> r == Err::<
            String,
            JWTError,
        >(JWTError::ClockError),
{
    issue_token_with(credential, duration_seconds, now_seconds, false)
}

/// Law: issuance is deterministic.  The result is a pure function of the
/// credential bytes, the requested lifetime, the supplied time, and the
/// header choice; two issuances from identical inputs are identical,
/// byte for byte.
pub proof fn lemma_issue_deterministic(
    cred: Seq<u8>,
    duration_seconds: i64,
    now_seconds: i64,
    legacy_sign_type: bool,
    r1: Result<Seq<char>, JWTError>,
    r2: Result<Seq<char>, JWTError>,
)
    requires
        r1 == issue_result(cred, duration_seconds, now_seconds, legacy_sign_type),
        r2 == issue_result(cred, duration_seconds, now_seconds, legacy_sign_type),
    ensures
        r1 == r2,
{
}

/// Splitting at the first separator of `a + "." + b` is unambiguous when
/// `a` is a proper segment.
proof fn lemma_split_once(a1: Seq<char>, b1: Seq<char>, a2: Seq<char>, b2: Seq<char>)
    requires
        is_segment(a1),
        is_segment(a2),
        a1 + seq!['.'] + b1 == a2 + seq!['.'] + b2,
    ensures
        a1 == a2,
        b1 == b2,
{
    let t = a1 + seq!['.'] + b1;
    let n1 = a1.len() as int;
    let n2 = a2.len() as int;
    assert(t[n1] == '.');
    assert((a2 + seq!['.'] + b2)[n2] == '.');
    if n1 < n2 {
        assert(t[n1] == a2[n1]);
        assert(false);
    }
    if n2 < n1 {
        assert(t[n2] == a1[n2]);
        assert(t[n2] == '.');
        assert(false);
    }
    let u = a2 + seq!['.'] + b2;
    assert(a1 =~= a2) by {
        assert forall|j: int| 0 <= j < n1 implies a1[j] == a2[j] by {
            assert(t[j] == a1[j]);
            assert(t[j] == u[j]);
            assert(u[j] == a2[j]);
        }
    }
    assert(t == u);
    assert(t.len() == n1 + 1 + b1.len());
    assert(u.len() == n2 + 1 + b2.len());
    assert(b1.len() == b2.len());
    assert(b1 =~= b2) by {
        assert forall|j: int| 0 <= j < b1.len() implies b1[j] == b2[j] by {
            assert(t[n1 + 1 + j] == b1[j]);
            assert(t[n1 + 1 + j] == u[n2 + 1 + j]);
            assert(u[n2 + 1 + j] == b2[j]);
        }
    }
}

/// Law: the three-way split of a token is unique.  A relying party that
/// cuts any issued token at its `.` separators recovers exactly one
/// header segment, one payload segment, and one signature segment.
pub proof fn lemma_segments_unique(
    h1: Seq<char>,
    p1: Seq<char>,
    g1: Seq<char>,
    h2: Seq<char>,
    p2: Seq<char>,
    g2: Seq<char>,
)
    requires
        is_segment(h1),
        is_segment(p1),
        is_segment(g1),
        is_segment(h2),
        is_segment(p2),
        is_segment(g2),
        joined(h1, p1, g1) == joined(h2, p2, g2),
    ensures
        h1 == h2,
        p1 == p2,
        g1 == g2,
{
    assert(joined(h1, p1, g1) =~= h1 + seq!['.'] + (p1 + seq!['.'] + g1));
    assert(joined(h2, p2, g2) =~= h2 + seq!['.'] + (p2 + seq!['.'] + g2));
    lemma_split_once(h1, p1 + seq!['.'] + g1, h2, p2 + seq!['.'] + g2);
    lemma_split_once(p1, g1, p2, g2);
}

/// Law: expiration correctness.  Whenever issuance succeeds, the claims
/// record embedded in the payload segment can be read in only one way,
/// and that reading shows `exp - timestamp == duration_seconds * 1000`
/// exactly, with the timestamp being the supplied time in milliseconds.
pub proof fn lemma_expiration_correct(
    cred: Seq<u8>,
    duration_seconds: i64,
    now_seconds: i64,
    legacy_sign_type: bool,
    exp: int,
    iat: int,
)
    requires
        issue_result(cred, duration_seconds, now_seconds, legacy_sign_type) is Ok,
        exp > i64::MIN,
        iat > i64::MIN,
        payload_bytes(credential_id(cred), exp, iat) == payload_bytes(
            credential_id(cred),
            now_seconds * 1000 + duration_seconds * 1000,
            now_seconds * 1000,
        ),
    ensures
        iat == now_seconds * 1000,
        exp - iat == duration_seconds * 1000,
{
    assert(clock_representable(now_seconds, duration_seconds));
    assert(now_seconds * 1000 > i64::MIN);
    lemma_payload_bytes_injective(
        credential_id(cred),
        exp,
        iat,
        now_seconds * 1000 + duration_seconds * 1000,
        now_seconds * 1000,
    );
}

/// Law: signature integrity.  However an issued token is cut into three
/// proper segments, the cut is the one it was assembled from, and the
/// third segment is exactly the encoded HMAC-SHA256 digest, keyed by the
/// credential's secret, of the first two segments joined by one `.` — so
/// a verifier recomputing that digest reproduces the signature segment,
/// and any token whose first two segments were altered fails against the
/// recomputation unless the digests themselves collide.
pub proof fn lemma_signature_recomputes(
    cred: Seq<u8>,
    duration_seconds: i64,
    now_seconds: i64,
    legacy_sign_type: bool,
    t: Seq<char>,
    h: Seq<char>,
    p: Seq<char>,
    g: Seq<char>,
)
    requires
        token_decomposed(cred, duration_seconds, now_seconds, legacy_sign_type, t),
        is_segment(h),
        is_segment(p),
        is_segment(g),
        t == joined(h, p, g),
    ensures
        h == b64url_of(header_bytes(legacy_sign_type)),
        p == b64url_of(
            payload_bytes(
                credential_id(cred),
                now_seconds * 1000 + duration_seconds * 1000,
                now_seconds * 1000,
            ),
        ),
        g == b64url_of(hmac_sha256_of(credential_secret(cred), encode_utf8(h + seq!['.'] + p))),
{
    let header = header_bytes(legacy_sign_type);
    let payload = payload_bytes(
        credential_id(cred),
        now_seconds * 1000 + duration_seconds * 1000,
        now_seconds * 1000,
    );
    let h0 = b64url_of(header);
    let p0 = b64url_of(payload);
    let g0 = b64url_of(hmac_sha256_of(credential_secret(cred), encode_utf8(h0 + seq!['.'] + p0)));
    lemma_segments_unique(h0, p0, g0, h, p, g);
}

} // verus!
