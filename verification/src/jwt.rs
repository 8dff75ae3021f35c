//! The JWTs that the gateway accepts: HS256 tokens whose claims are the user
//! id (`sub`) and the expiry time (`exp`, seconds since the Unix epoch).
use vstd::prelude::*;
use crate::error::{Error, JwtFailure};

verus! {

/// How long a freshly issued token stays valid, in hours.
pub const TOKEN_LIFETIME_HOURS: i64 = 24;

/// The claims of a token.
#[derive(Debug, Clone, Copy, PartialEq, Eq, Structural)]
pub struct Claims {
    /// The user the token was issued to.
    pub sub: i32,
    /// When the token expires, in seconds since the Unix epoch.
    pub exp: usize,
}

/// The token that `jsonwebtoken::encode` makes from the default header
/// (HS256), the claims object `{"sub": sub, "exp": exp}` and the HMAC secret
/// `key`.
pub uninterp spec fn jwt_encoded(key: Seq<u8>, sub: int, exp: int) -> Seq<char>;

/// Whether `jsonwebtoken::decode`, with `DecodingKey::from_secret(key)` and
/// the default validation, accepts `token` apart from its expiry: the token
/// has three parts, its header names HS256, its signature is the HMAC of the
/// first two parts with `key`, its payload is a JSON object with a numeric
/// `exp` and no `aud`. This does not depend on the clock.
pub uninterp spec fn jwt_accepted(key: Seq<u8>, token: Seq<char>) -> bool;

/// The `sub` and `exp` that the payload of `token` carries, each read as an
/// integer where it is one (`serde_json::Value::as_i64` / `as_u64`).
pub uninterp spec fn jwt_claim_fields(token: Seq<char>) -> (Option<i64>, Option<u64>);

/// `token` is accepted with `key` (for clauses on a token that a call gives).
pub open spec fn token_accepted(key: Seq<u8>, token: Seq<char>) -> bool {
    jwt_accepted(key, token)
}

/// Calls `jsonwebtoken::encode` with the default header, the claims
/// `{"sub": sub, "exp": exp}` (in that order) and `EncodingKey::from_secret(key)`.
/// Claimed: it succeeds (an HMAC key matches the default HS256 header, and
/// serialising the header and the claims cannot fail) and gives
/// `jwt_encoded(key, sub, exp)`, a token that decoding with the same key
/// accepts apart from its expiry.
#[verifier::external_body]
fn jwt_encode(key: &[u8], sub: i32, exp: usize) -> (res: Result<String, JwtFailure>)
    ensures
        res is Ok,
        res matches Ok(token) ==> token@ == jwt_encoded(key@, sub as int, exp as int),
        res matches Ok(token) ==> token_accepted(key@, token@),
{
    let mut claims = serde_json::Map::new();
    claims.insert("sub".to_string(), serde_json::Value::from(sub));
    claims.insert("exp".to_string(), serde_json::Value::from(exp));
    let header = jsonwebtoken::Header::default();
    let key = jsonwebtoken::EncodingKey::from_secret(key);
    jsonwebtoken::encode(&header, &serde_json::Value::Object(claims), &key)
        .map_err(|e| JwtFailure { expired: false, message: e.to_string() })
}

/// Calls `jsonwebtoken::decode` with `DecodingKey::from_secret(key)` and the
/// default validation (HS256, `exp` required and not older than 60 seconds
/// before now), and picks the `sub` and `exp` claims as integers.
/// The outcome depends on the clock. Claimed: a token comes back only where
/// it is `jwt_accepted`, and then with the fields its payload carries; an
/// accepted token comes back or is refused as expired, for no other reason; a
/// token made by `jwt_encode` with the same key comes back with its `sub` and
/// `exp`, or is refused as expired. Which error a refused token gets, and
/// when an accepted token counts as expired, is not claimed.
#[verifier::external_body]
fn jwt_decode(key: &[u8], token: &str) -> (res: Result<(Option<i64>, Option<u64>), JwtFailure>)
    ensures
        res is Ok ==> jwt_accepted(key@, token@),
        res matches Ok(fields) ==> fields == jwt_claim_fields(token@),
        jwt_accepted(key@, token@) ==> (res is Ok || (res matches Err(f) && f.expired)),
        forall|sub: i32, exp: usize|
            #![trigger jwt_encoded(key@, sub as int, exp as int)]
            token@ == jwt_encoded(key@, sub as int, exp as int) ==> (res == Ok::<
                (Option<i64>, Option<u64>),
                JwtFailure,
            >((Some(sub as i64), Some(exp as u64))) || (res matches Err(f) && f.expired)),
{
    let key = jsonwebtoken::DecodingKey::from_secret(key);
    let validation = jsonwebtoken::Validation::default();
    match jsonwebtoken::decode::<serde_json::Value>(token, &key, &validation) {
        Ok(data) => Ok((
            data.claims.get("sub").and_then(serde_json::Value::as_i64),
            data.claims.get("exp").and_then(serde_json::Value::as_u64),
        )),
        Err(e) => Err(JwtFailure { expired: matches!(e.kind(), jsonwebtoken::errors::ErrorKind::ExpiredSignature), message: e.to_string() }),
    }
}

/// The earliest and latest whole seconds (since the Unix epoch) that a
/// `chrono::DateTime<Utc>` can hold: -262143-01-01T00:00:00 and
/// 262142-12-31T23:59:59.
pub const MIN_TIMESTAMP: i64 = -8334601228800;
pub const MAX_TIMESTAMP: i64 = 8210266876799;

/// The time `now` plus `hours` hours, where a `DateTime<Utc>` can hold it.
pub open spec fn after_hours(now: int, hours: int) -> Option<int> {
    if MIN_TIMESTAMP <= now + 3600 * hours <= MAX_TIMESTAMP {
        Some(now + 3600 * hours)
    } else {
        None
    }
}

/// Calls `chrono::Utc::now` and takes its `timestamp`. The outcome depends on
/// the clock, and `Utc::now` panics where the system clock is before the
/// Unix epoch. Claimed: the reading is not before the epoch and, being a
/// `DateTime<Utc>`, not after `MAX_TIMESTAMP`.
#[verifier::external_body]
fn clock_now_secs() -> (t: i64)
    ensures
        0 <= t <= MAX_TIMESTAMP,
{
    chrono::Utc::now().timestamp()
}

/// Calls `DateTime::<Utc>::from_timestamp(now, 0)`, adds
/// `TimeDelta::hours(hours)` with `checked_add_signed` and takes the
/// `timestamp` of the sum. Claimed: the sum is `now + 3600 * hours` where a
/// `DateTime<Utc>` can hold it, and none otherwise.
#[verifier::external_body]
fn add_hours(now: i64, hours: i64) -> (res: Option<i64>)
    requires
        MIN_TIMESTAMP <= now <= MAX_TIMESTAMP,
        0 <= hours <= 1_000_000,
    ensures
        res == (match after_hours(now as int, hours as int) {
            Some(t) => Some(t as i64),
            None => None::<i64>,
        }),
{
    chrono::DateTime::from_timestamp(now, 0)
        .and_then(|start| start.checked_add_signed(chrono::TimeDelta::hours(hours)))
        .map(|end| end.timestamp())
}

/// The JWT, signed with `jwt_key`, for `claims`.
pub fn encode_claims(jwt_key: &[u8], claims: &Claims) -> (token: String)
    ensures
        token@ == jwt_encoded(jwt_key@, claims.sub as int, claims.exp as int),
        jwt_accepted(jwt_key@, token@),
{
    match jwt_encode(jwt_key, claims.sub, claims.exp) {
        Ok(token) => token,
        Err(_) => {
            proof {
                assert(false);
            }
            String::new()
        },
    }
}

/// The token for `user_id` that expires at `expiration` (seconds since the
/// Unix epoch), or the error where that time could not be represented.
pub fn token_expiring_at(jwt_key: &[u8], user_id: i32, expiration: Option<i64>) -> (res: Result<String, Error>)
    ensures
        match expiration {
            Some(e) => res matches Ok(t) && t@ == jwt_encoded(jwt_key@, user_id as int, (e as usize) as int)
                && jwt_accepted(jwt_key@, t@),
            None => res matches Err(Error::Jwt(f)) && !f.expired && f.message@ == "valid timestamp"@,
        },
{
    match expiration {
        Some(e) => {
            let claims = Claims { sub: user_id, exp: e as usize };
            Ok(encode_claims(jwt_key, &claims))
        },
        None => Err(Error::Jwt(JwtFailure { expired: false, message: "valid timestamp".to_owned() })),
    }
}

/// The token that is issued for `user_id` when the clock reads `now`
/// (seconds since the Unix epoch): it expires 24 hours later, or, where that
/// time cannot be represented, the "valid timestamp" error.
pub fn token_issued_at(jwt_key: &[u8], user_id: i32, now: i64) -> (res: Result<String, Error>)
    requires
        MIN_TIMESTAMP <= now <= MAX_TIMESTAMP,
    ensures
        match after_hours(now as int, TOKEN_LIFETIME_HOURS as int) {
            Some(e) => res matches Ok(t) && t@ == jwt_encoded(jwt_key@, user_id as int, ((e as i64) as usize) as int)
                && jwt_accepted(jwt_key@, t@),
            None => res matches Err(Error::Jwt(f)) && !f.expired && f.message@ == "valid timestamp"@,
        },
{
    let expiration = add_hours(now, TOKEN_LIFETIME_HOURS);
    token_expiring_at(jwt_key, user_id, expiration)
}

/// Issues a token for `user_id` that expires 24 hours from now.
pub fn generate_jwt(jwt_key: &[u8], user_id: i32) -> (res: Result<String, Error>)
    ensures
        match res {
            Ok(token) => jwt_accepted(jwt_key@, token@) && exists|now: i64|
                0 <= now <= MAX_TIMESTAMP - 3600 * TOKEN_LIFETIME_HOURS && #[trigger] jwt_encoded(
                    jwt_key@,
                    user_id as int,
                    ((now + 3600 * TOKEN_LIFETIME_HOURS) as usize) as int,
                ) == token@,
            Err(e) => e matches Error::Jwt(f) && f.expired == false && f.message@ == "valid timestamp"@,
        },
{
    let now = clock_now_secs();
    let res = token_issued_at(jwt_key, user_id, now);
    proof {
        if now <= MAX_TIMESTAMP - 3600 * TOKEN_LIFETIME_HOURS {
            assert(jwt_encoded(jwt_key@, user_id as int, ((now + 3600 * TOKEN_LIFETIME_HOURS) as usize) as int) == res->Ok_0@);
        }
    }
    res
}

/// The claims of a token, from its `sub` and `exp` claims read as integers:
/// both must be there and fit the claims' types.
pub open spec fn claims_of(sub: Option<i64>, exp: Option<u64>) -> Option<Claims> {
    match (sub, exp) {
        (Some(s), Some(x)) => if i32::MIN <= s <= i32::MAX && x <= usize::MAX {
            Some(Claims { sub: s as i32, exp: x as usize })
        } else {
            None
        },
        _ => None,
    }
}

/// Builds the claims from the `sub` and `exp` read from a token; refuses
/// them where either is missing or does not fit.
pub fn claims_from_fields(sub: Option<i64>, exp: Option<u64>) -> (res: Result<Claims, Error>)
    ensures
        match claims_of(sub, exp) {
            Some(c) => res == Ok::<Claims, Error>(c),
            None => res matches Err(Error::Jwt(f)) && !f.expired,
        },
{
    match (sub, exp) {
        (Some(s), Some(x)) => {
            if s >= -2147483648 && s <= 2147483647 && x <= usize::MAX as u64 {
                Ok(Claims { sub: s as i32, exp: x as usize })
            } else {
                Err(Error::Jwt(JwtFailure { expired: false, message: "invalid claims".to_owned() }))
            }
        },
        _ => Err(Error::Jwt(JwtFailure { expired: false, message: "invalid claims".to_owned() })),
    }
}

/// Checks `token` with `jwt_key` and gives its claims. Only a token that the
/// JWT library accepts with the key gives claims, and then the ones its
/// payload carries. A token issued by
/// `generate_jwt` (or `encode_claims`) with the same key gives back its
/// claims unless it has expired.
pub fn decode_jwt(jwt_key: &[u8], token: &str) -> (res: Result<Claims, Error>)
    ensures
        res matches Err(e) ==> e is Jwt,
        res is Ok ==> jwt_accepted(jwt_key@, token@),
        res matches Ok(c) ==> Some(c) == claims_of(jwt_claim_fields(token@).0, jwt_claim_fields(token@).1),
        jwt_accepted(jwt_key@, token@) ==> match claims_of(jwt_claim_fields(token@).0, jwt_claim_fields(token@).1) {
            Some(c) => res == Ok::<Claims, Error>(c) || (res matches Err(Error::Jwt(f)) && f.expired),
            None => res matches Err(Error::Jwt(_)),
        },
        forall|sub: i32, exp: usize|
            #![trigger jwt_encoded(jwt_key@, sub as int, exp as int)]
            token@ == jwt_encoded(jwt_key@, sub as int, exp as int) ==> (res == Ok::<
                Claims,
                Error,
            >(Claims { sub, exp }) || (res matches Err(Error::Jwt(f)) && f.expired)),
{
    match jwt_decode(jwt_key, token) {
        Ok((sub, exp)) => claims_from_fields(sub, exp),
        Err(f) => Err(Error::Jwt(f)),
    }
}

} // verus!
