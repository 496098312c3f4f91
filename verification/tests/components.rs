use zhipu_jwt::b64::encode_segment;
use zhipu_jwt::claims::build_claims;
use zhipu_jwt::credential::split_credential;
use zhipu_jwt::errors::JWTError;
use zhipu_jwt::jsonenc::{header_json, payload_json};
use zhipu_jwt::zhipu::{Model, ToolCall, ToolCallFunction};

#[test]
fn split_valid_credential() {
    let (id, secret) = split_credential("abc123.supersecretkey").unwrap();
    assert_eq!(id, b"abc123".to_vec());
    assert_eq!(secret, b"supersecretkey".to_vec());
}

#[test]
fn split_rejects_bad_shapes() {
    assert_eq!(
        split_credential("nodot"),
        Err(JWTError::InvalidCredentialFormat)
    );
    assert_eq!(
        split_credential("two.dots.here"),
        Err(JWTError::InvalidCredentialFormat)
    );
    assert_eq!(
        split_credential(".noid"),
        Err(JWTError::InvalidCredentialFormat)
    );
    assert_eq!(
        split_credential("nosecret."),
        Err(JWTError::InvalidCredentialFormat)
    );
    assert_eq!(
        split_credential("."),
        Err(JWTError::InvalidCredentialFormat)
    );
}

#[test]
fn build_claims_exact_values() {
    let c = build_claims(b"abc123".to_vec(), 1000000000, 120).unwrap();
    assert_eq!(c.issuer_id, b"abc123".to_vec());
    assert_eq!(c.issued_at, 1000000000000);
    assert_eq!(c.expires_at, 1000000120000);
}

#[test]
fn build_claims_error_kinds() {
    assert_eq!(
        build_claims(b"x".to_vec(), 0, 0),
        Err(JWTError::InvalidDuration)
    );
    assert_eq!(
        build_claims(b"x".to_vec(), 0, i64::MAX),
        Err(JWTError::InvalidDuration)
    );
    assert_eq!(
        build_claims(b"x".to_vec(), i64::MAX, 1),
        Err(JWTError::ClockError)
    );
    assert_eq!(
        build_claims(b"x".to_vec(), i64::MIN, 1),
        Err(JWTError::ClockError)
    );
}

#[test]
fn header_both_forms() {
    assert_eq!(
        header_json(false),
        "{\"alg\":\"HS256\",\"typ\":\"JWT\"}".as_bytes().to_vec()
    );
    assert_eq!(
        header_json(true),
        "{\"alg\":\"HS256\",\"typ\":\"JWT\",\"sign_type\":\"SIGN\"}"
            .as_bytes()
            .to_vec()
    );
}

#[test]
fn payload_escapes_strings() {
    let id = b"a\"b\\c\nd".to_vec();
    let payload = payload_json(&id, 2000, 1000);
    assert_eq!(
        String::from_utf8(payload).unwrap(),
        "{\"api_key\":\"a\\\"b\\\\c\\u000ad\",\"exp\":2000,\"timestamp\":1000}"
    );
}

#[test]
fn payload_negative_and_zero_timestamps() {
    let payload = payload_json(&b"id".to_vec(), 0, -7).to_vec();
    assert_eq!(
        String::from_utf8(payload).unwrap(),
        "{\"api_key\":\"id\",\"exp\":0,\"timestamp\":-7}"
    );
}

#[test]
fn segment_encoding_is_base64url_nopad() {
    assert_eq!(encode_segment(&b"hello".to_vec()).unwrap(), "aGVsbG8");
    assert_eq!(encode_segment(&b"".to_vec()).unwrap(), "");
    // '-' and '_' replace '+' and '/', and no '=' padding appears
    assert_eq!(encode_segment(&vec![251u8, 255, 190]).unwrap(), "-_--");
}

#[test]
fn model_names() {
    assert_eq!(Model::GLM3Turbo.name(), "glm-3-turbo");
    assert_eq!(Model::GLM4.name(), "glm-4");
}

#[test]
fn tool_call_ids() {
    let calls = vec![
        ToolCall::WebSearch {
            id: "aaa".to_string(),
        },
        ToolCall::Retrieval {
            id: "bbb".to_string(),
        },
        ToolCall::Function {
            id: "ccc".to_string(),
            function: ToolCallFunction {
                name: "lookup".to_string(),
                arguments: "{}".to_string(),
            },
        },
    ];
    let ids: Vec<String> = calls.iter().map(|c| c.id()).collect();
    assert_eq!(ids, vec!["aaa", "bbb", "ccc"]);
}
