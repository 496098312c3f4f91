use base64::Engine;
use hmac::{Hmac, KeyInit, Mac};
use sha2::Sha256;

use zhipu_jwt::errors::JWTError;
use zhipu_jwt::token::{issue_token, issue_token_with};

fn b64(bytes: &[u8]) -> String {
    base64::engine::general_purpose::URL_SAFE_NO_PAD.encode(bytes)
}

fn b64_decode(s: &str) -> Vec<u8> {
    base64::engine::general_purpose::URL_SAFE_NO_PAD
        .decode(s)
        .expect("segment must be valid unpadded url-safe base64")
}

fn hmac_sha256(key: &[u8], msg: &[u8]) -> Vec<u8> {
    let mut m = <Hmac<Sha256> as KeyInit>::new_from_slice(key).unwrap();
    m.update(msg);
    m.finalize().into_bytes().to_vec()
}

#[test]
fn concrete_scenario() {
    let token = issue_token("abc123.supersecretkey", 120, 1000000000).unwrap();
    let parts: Vec<&str> = token.split('.').collect();
    assert_eq!(parts.len(), 3);
    assert_eq!(
        b64_decode(parts[0]),
        "{\"alg\":\"HS256\",\"typ\":\"JWT\"}".as_bytes()
    );
    assert_eq!(
        b64_decode(parts[1]),
        "{\"api_key\":\"abc123\",\"exp\":1000000120000,\"timestamp\":1000000000000}".as_bytes()
    );
    let signing_input = format!("{}.{}", parts[0], parts[1]);
    let expected_sig = b64(&hmac_sha256(b"supersecretkey", signing_input.as_bytes()));
    assert_eq!(parts[2], expected_sig);
}

#[test]
fn format_invariant() {
    let creds = ["abc123.supersecretkey", "a.b", "id.with-longer_secret~!"];
    for cred in creds {
        let token = issue_token(cred, 60, 1700000000).unwrap();
        assert_eq!(token.matches('.').count(), 2);
        let parts: Vec<&str> = token.split('.').collect();
        assert_eq!(parts.len(), 3);
        for part in parts {
            assert!(!part.is_empty());
        }
    }
}

#[test]
fn determinism() {
    let a = issue_token("abc123.supersecretkey", 120, 1000000000).unwrap();
    let b = issue_token("abc123.supersecretkey", 120, 1000000000).unwrap();
    assert_eq!(a, b);
}

#[test]
fn expiration_correctness() {
    let token = issue_token("someid.somesecret", 3600, 1234567890).unwrap();
    let parts: Vec<&str> = token.split('.').collect();
    let payload = String::from_utf8(b64_decode(parts[1])).unwrap();
    let exp: i64 = payload
        .split("\"exp\":")
        .nth(1)
        .unwrap()
        .split(',')
        .next()
        .unwrap()
        .parse()
        .unwrap();
    let ts: i64 = payload
        .split("\"timestamp\":")
        .nth(1)
        .unwrap()
        .split('}')
        .next()
        .unwrap()
        .parse()
        .unwrap();
    assert_eq!(exp - ts, 3600 * 1000);
}

#[test]
fn rejects_malformed_credentials() {
    let now = 1000000000;
    assert_eq!(
        issue_token("no-dot-here", 60, now),
        Err(JWTError::InvalidCredentialFormat)
    );
    assert_eq!(
        issue_token("a.b.c", 60, now),
        Err(JWTError::InvalidCredentialFormat)
    );
    assert_eq!(
        issue_token(".secret", 60, now),
        Err(JWTError::InvalidCredentialFormat)
    );
    assert_eq!(
        issue_token("id.", 60, now),
        Err(JWTError::InvalidCredentialFormat)
    );
    assert_eq!(
        issue_token("", 60, now),
        Err(JWTError::InvalidCredentialFormat)
    );
}

#[test]
fn signature_integrity() {
    let token = issue_token("abc123.supersecretkey", 120, 1000000000).unwrap();
    let parts: Vec<&str> = token.split('.').collect();
    let signing_input = format!("{}.{}", parts[0], parts[1]);
    let expected = b64(&hmac_sha256(b"supersecretkey", signing_input.as_bytes()));
    assert_eq!(parts[2], expected);
    // the digest is 32 bytes, so its segment is 43 characters
    assert_eq!(parts[2].len(), 43);

    // altering a single character of the signed segments changes the digest
    let mut tampered: Vec<char> = signing_input.chars().collect();
    tampered[0] = if tampered[0] == 'A' { 'B' } else { 'A' };
    let tampered: String = tampered.into_iter().collect();
    let tampered_sig = b64(&hmac_sha256(b"supersecretkey", tampered.as_bytes()));
    assert_ne!(parts[2], tampered_sig);
}

#[test]
fn zero_duration_is_rejected() {
    // strict policy: expiration must lie strictly after issuance
    assert_eq!(
        issue_token("abc123.supersecretkey", 0, 1000000000),
        Err(JWTError::InvalidDuration)
    );
    assert_eq!(
        issue_token("abc123.supersecretkey", -5, 1000000000),
        Err(JWTError::InvalidDuration)
    );
}

#[test]
fn unrepresentable_duration_is_rejected() {
    assert_eq!(
        issue_token("abc123.supersecretkey", i64::MAX, 1000000000),
        Err(JWTError::InvalidDuration)
    );
    assert_eq!(
        issue_token("abc123.supersecretkey", 9223372036854776, 0),
        Err(JWTError::InvalidDuration)
    );
}

#[test]
fn clock_overflow_is_rejected() {
    assert_eq!(
        issue_token("abc123.supersecretkey", 60, i64::MAX),
        Err(JWTError::ClockError)
    );
    assert_eq!(
        issue_token("abc123.supersecretkey", 60, -9223372036854776),
        Err(JWTError::ClockError)
    );
    // now itself scales, but adding the lifetime overflows
    assert_eq!(
        issue_token("abc123.supersecretkey", 9223372036854775, 9223372036854775),
        Err(JWTError::ClockError)
    );
}

#[test]
fn legacy_header_field() {
    let token = issue_token_with("abc123.supersecretkey", 120, 1000000000, true).unwrap();
    let parts: Vec<&str> = token.split('.').collect();
    assert_eq!(
        b64_decode(parts[0]),
        "{\"alg\":\"HS256\",\"typ\":\"JWT\",\"sign_type\":\"SIGN\"}".as_bytes()
    );
    // the canonical form is the default
    let canonical = issue_token("abc123.supersecretkey", 120, 1000000000).unwrap();
    assert_eq!(
        canonical,
        issue_token_with("abc123.supersecretkey", 120, 1000000000, false).unwrap()
    );
    assert_ne!(token, canonical);
}

#[test]
fn negative_timestamps_issue() {
    // times before the epoch are representable
    let token = issue_token("abc123.supersecretkey", 60, -1000).unwrap();
    let parts: Vec<&str> = token.split('.').collect();
    assert_eq!(
        b64_decode(parts[1]),
        "{\"api_key\":\"abc123\",\"exp\":-940000,\"timestamp\":-1000000}".as_bytes()
    );
}
