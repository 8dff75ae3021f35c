//! The API gateway's decisions: who a request comes from (its `Authorization`
//! header and JWT), and what the HTTP client is answered once the gRPC
//! services have replied.
use vstd::prelude::*;
use vstd::string::StrSliceExecFns;
use crate::decimal::{bool_text, push_bool, push_signed_decimal, signed_decimal};
use crate::error::{Error, Status};
use crate::jwt::{claims_of, decode_jwt, jwt_accepted, jwt_claim_fields, jwt_encoded, Claims};
use crate::services::{AlertResponse, AuthRequest, AuthResponse};

verus! {

/// The HTTP status of a request without valid credentials.
pub const UNAUTHORIZED: u16 = 401;

/// The HTTP status of a refused login or registration.
pub const BAD_REQUEST: u16 = 400;

/// The user that a request was authenticated as.
#[derive(Debug, Clone, Copy, PartialEq, Eq, Structural)]
pub struct AuthenticatedUser {
    pub user_id: i32,
}

/// The JSON body of a login or registration request.
#[derive(Debug, Clone, PartialEq, Eq)]
pub struct AuthClaims {
    pub name: String,
    pub password: String,
}

/// The request that the gateway sends to the auth service for a login or
/// registration body.
pub fn auth_request(claims: AuthClaims) -> (r: AuthRequest)
    ensures
        r.name@ == claims.name@ && r.password@ == claims.password@,
{
    AuthRequest { name: claims.name, password: claims.password }
}

/// The scheme that the `Authorization` header must start with.
pub open spec fn bearer_prefix() -> Seq<char> {
    seq!['B', 'e', 'a', 'r', 'e', 'r', ' ']
}

pub open spec fn has_bearer_prefix(h: Seq<char>) -> bool {
    h.len() >= 7 && h.subrange(0, 7) == bearer_prefix()
}

/// A header written as `Bearer <token>` carries exactly that token, so a
/// token issued by the gateway and sent that way is the one `authenticate`
/// checks.
pub proof fn law_bearer_header_carries_token(token: Seq<char>)
    ensures
        has_bearer_prefix(bearer_prefix() + token),
        (bearer_prefix() + token).skip(7) == token,
{
    assert((bearer_prefix() + token).subrange(0, 7) =~= bearer_prefix());
    assert((bearer_prefix() + token).skip(7) =~= token);
}

/// `header` is a bearer header whose token the JWT library accepts with
/// `key` and whose payload names the user `user_id`.
pub open spec fn admitted(header: Option<&str>, key: Seq<u8>, user_id: i32) -> bool {
    match header {
        Some(h) => {
            let token = h@.skip(7);
            &&& has_bearer_prefix(h@)
            &&& jwt_accepted(key, token)
            &&& claims_of(jwt_claim_fields(token).0, jwt_claim_fields(token).1) matches Some(c)
            &&& c.sub == user_id
        },
        None => false,
    }
}

/// `res` is the rejection with status 401 and message `msg`.
pub open spec fn is_unauthorized<T>(res: Result<T, (u16, String)>, msg: Seq<char>) -> bool {
    res matches Err((code, m)) && code == 401 && m@ == msg
}

/// The token of a bearer `Authorization` header: the text after `Bearer `.
pub fn bearer_token<'a>(header: Option<&'a str>) -> (res: Result<&'a str, (u16, String)>)
    ensures
        match header {
            None => is_unauthorized(res, "Missing Authorization Header"@),
            Some(h) => if has_bearer_prefix(h@) {
                res matches Ok(t) && t@ == h@.skip(7)
            } else {
                is_unauthorized(res, "Invalid Header Format"@)
            },
        },
{
    let h = match header {
        None => {
            return Err((UNAUTHORIZED, "Missing Authorization Header".to_owned()));
        },
        Some(h) => h,
    };
    let n = h.unicode_len();
    let prefix: [char; 7] = ['B', 'e', 'a', 'r', 'e', 'r', ' '];
    assert(prefix@ =~= bearer_prefix());
    if n < 7 {
        return Err((UNAUTHORIZED, "Invalid Header Format".to_owned()));
    }
    let mut i: usize = 0;
    while i < 7
        invariant
            i <= 7,
            header == Some(h),
            n == h@.len(),
            n >= 7,
            prefix@ == bearer_prefix(),
            forall|j: int| 0 <= j < i ==> h@[j] == bearer_prefix()[j],
        decreases 7 - i,
    {
        if h.get_char(i) != prefix[i] {
            assert(h@.subrange(0, 7)[i as int] != bearer_prefix()[i as int]);
            return Err((UNAUTHORIZED, "Invalid Header Format".to_owned()));
        }
        i = i + 1;
    }
    assert(h@.subrange(0, 7) =~= bearer_prefix());
    Ok(h.substring_char(7, n))
}

/// The user of a request whose token was checked with the outcome `decoded`.
pub fn user_from_claims(decoded: Result<Claims, Error>) -> (res: Result<AuthenticatedUser, (u16, String)>)
    ensures
        match decoded {
            Ok(c) => res == Ok::<AuthenticatedUser, (u16, String)>(AuthenticatedUser { user_id: c.sub }),
            Err(_) => is_unauthorized(res, "Invalid or Expired Token"@),
        },
{
    match decoded {
        Ok(c) => Ok(AuthenticatedUser { user_id: c.sub }),
        Err(_) => Err((UNAUTHORIZED, "Invalid or Expired Token".to_owned())),
    }
}

/// Authenticates a request by its `Authorization` header (absent where the
/// header is missing or not visible ASCII), checking its bearer token with
/// `jwt_key`. Only a token that the JWT library accepts with the key lets a
/// request through, as the user its payload names. A token that was issued with the same key for a user gives
/// that user, unless it has expired.
pub fn authenticate(header: Option<&str>, jwt_key: &[u8]) -> (res: Result<AuthenticatedUser, (u16, String)>)
    ensures
        res matches Ok(u) ==> admitted(header, jwt_key@, u.user_id),
        match header {
            None => is_unauthorized(res, "Missing Authorization Header"@),
            Some(h) => if has_bearer_prefix(h@) {
                &&& (res is Ok || is_unauthorized(res, "Invalid or Expired Token"@))
                &&& forall|sub: i32, exp: usize|
                    #![trigger jwt_encoded(jwt_key@, sub as int, exp as int)]
                    h@.skip(7) == jwt_encoded(jwt_key@, sub as int, exp as int) ==> (res == Ok::<
                        AuthenticatedUser,
                        (u16, String),
                    >(AuthenticatedUser { user_id: sub }) || is_unauthorized(
                        res,
                        "Invalid or Expired Token"@,
                    ))
            } else {
                is_unauthorized(res, "Invalid Header Format"@)
            },
        },
{
    let token = match bearer_token(header) {
        Ok(t) => t,
        Err(rejection) => {
            return Err(rejection);
        },
    };
    let decoded = decode_jwt(jwt_key, token);
    user_from_claims(decoded)
}

/// The gateway's answer to a login or registration, from the auth service's
/// reply: the reply itself, or status 400 with the gRPC message.
pub fn auth_reply(outcome: Result<AuthResponse, Status>) -> (res: Result<AuthResponse, (u16, String)>)
    ensures
        match outcome {
            Ok(r) => res == Ok::<AuthResponse, (u16, String)>(r),
            Err(s) => res == Err::<AuthResponse, (u16, String)>((BAD_REQUEST, s.message)),
        },
{
    match outcome {
        Ok(r) => Ok(r),
        Err(s) => Err((BAD_REQUEST, s.message)),
    }
}

/// The text of a created alert: `Success! Alert created. Status: <success>, ID: <alert id>`.
pub open spec fn alert_created_text(r: AlertResponse) -> Seq<char> {
    "Success! Alert created. Status: "@ + bool_text(r.success) + ", ID: "@ + signed_decimal(
        r.alert_id as int,
    )
}

/// The gateway's answer to an alert request, from the tracking service's
/// reply.
pub fn create_alert_reply(outcome: Result<AlertResponse, Status>) -> (res: Result<String, String>)
    ensures
        match outcome {
            Ok(r) => res matches Ok(text) && text@ == alert_created_text(r),
            Err(s) => res matches Err(text) && text@ == "gRPC Error: "@ + s.message@,
        },
{
    match outcome {
        Ok(r) => {
            let mut text = "Success! Alert created. Status: ".to_owned();
            push_bool(&mut text, r.success);
            text.append(", ID: ");
            push_signed_decimal(&mut text, r.alert_id as i64);
            Ok(text)
        },
        Err(s) => {
            let mut text = "gRPC Error: ".to_owned();
            text.append(s.message.as_str());
            Err(text)
        },
    }
}

} // verus!
