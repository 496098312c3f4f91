//! Issuance of short-lived, HMAC-SHA256-signed bearer tokens.
//!
//! A caller supplies a composite credential `"<id>.<secret>"`, a lifetime in
//! whole seconds, and the current time; the library splits the credential,
//! builds time-bounded claims, serialises header and claims to canonical
//! JSON, signs the two encoded segments with HMAC-SHA256 keyed by the
//! secret, and joins the three unpadded URL-safe base64 segments with `.`
//! into the final token string.

pub mod b64;
pub mod claims;
pub mod credential;
pub mod errors;
pub mod jsonenc;
pub mod mac;
pub mod token;
pub mod zhipu;
