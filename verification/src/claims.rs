//! Time-bounded claims: issuance and expiration timestamps for one token.

use vstd::prelude::*;

use crate::errors::JWTError;

verus! {

/// Seconds values beyond this magnitude cannot be scaled to milliseconds
/// in a signed 64-bit timestamp.
pub const MAX_ABS_SECONDS: i64 = 9223372036854775;

/// The claim set embedded in a token's payload segment.
///
/// `issuer_id` holds the UTF-8 bytes of the id taken from the credential;
/// the two timestamps are Unix milliseconds.
#[derive(Debug, PartialEq, Eq)]
pub struct Claims {
    pub issuer_id: Vec<u8>,
    pub issued_at: i64,
    pub expires_at: i64,
}

impl Claims {
    /// Expiration strictly follows issuance.
    pub open spec fn wf(&self) -> bool {
        self.issued_at < self.expires_at
    }
}

/// A requested lifetime is representable when it is strictly positive and
/// its value in milliseconds fits a signed 64-bit timestamp.
pub open spec fn duration_representable(duration_seconds: i64) -> bool {
    &&& 0 < duration_seconds
    &&& duration_seconds * 1000 <= i64::MAX
}

/// The time arithmetic stays in range: `now` survives the scaling to
/// milliseconds, and adding the lifetime does not overflow.
pub open spec fn clock_representable(now_seconds: i64, duration_seconds: i64) -> bool {
    &&& i64::MIN <= now_seconds * 1000
    &&& now_seconds * 1000 <= i64::MAX
    &&& now_seconds * 1000 + duration_seconds * 1000 <= i64::MAX
}

/// Builds the claim set: issuance at `now` truncated to milliseconds,
/// expiration exactly `duration_seconds * 1000` milliseconds later.
///
/// A non-positive or unrepresentable lifetime is an error, never a clamped
/// value; overflowing time arithmetic is an error of its own kind.
pub fn build_claims(issuer_id: Vec<u8>, now_seconds: i64, duration_seconds: i64) -> (r: Result<
    Claims,
    JWTError,
>)
    ensures
        r is Ok <==> duration_representable(duration_seconds) && clock_representable(
            now_seconds,
            duration_seconds,
        ),
        r matches Ok(c) ==> {
            &&& c.issuer_id@ == issuer_id@
            &&& c.issued_at == now_seconds * 1000
            &&& c.expires_at == now_seconds * 1000 + duration_seconds * 1000
            &&& c.expires_at - c.issued_at == duration_seconds * 1000
            &&& c.wf()
        },
        !duration_representable(duration_seconds) ==> r == Err::<Claims, JWTError>(
            JWTError::InvalidDuration,
        ),
        duration_representable(duration_seconds) && !clock_representable(
            now_seconds,
            duration_seconds,
        ) ==> r == Err::<Claims, JWTError>(JWTError::ClockError),
{
    if duration_seconds <= 0 || duration_seconds > MAX_ABS_SECONDS {
        return Err(JWTError::InvalidDuration);
    }
    if now_seconds > MAX_ABS_SECONDS || now_seconds < -MAX_ABS_SECONDS {
        return Err(JWTError::ClockError);
    }
    let iat: i64 = now_seconds * 1000;
    let dur_ms: i64 = duration_seconds * 1000;
    if iat > i64::MAX - dur_ms {
        return Err(JWTError::ClockError);
    }
    Ok(Claims { issuer_id, issued_at: iat, expires_at: iat + dur_ms })
}

} // verus!
