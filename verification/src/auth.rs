//! The auth service: Argon2d password hashes, keyed with the service's
//! secret, at registration and at login.
use vstd::prelude::*;
use crate::error::{Code, Status};
use vstd::utf8::encode_utf8;
use crate::services::{AuthRequest, AuthResponse, Role};

verus! {

/// What checking `password` against the PHC hash string `phc` gives with
/// Argon2d, version 0x10, default parameters and the secret `secret`:
/// `Err` with the error's message where `Argon2::new_with_secret` or
/// `PasswordHash::new` fails, else whether `verify_password` accepts.
pub uninterp spec fn argon2_verified(secret: Seq<u8>, phc: Seq<char>, password: Seq<char>) -> Result<
    bool,
    Seq<char>,
>;

/// Calls `argon2::Argon2::new_with_secret(secret, Argon2d, V0x10,
/// Params::DEFAULT)`, `PasswordHash::new(phc)` and `verify_password` with
/// the bytes of `password`. Claimed: the outcome is `argon2_verified` of the
/// arguments.
#[verifier::external_body]
fn argon2_check(secret: &[u8], phc: &str, password: &str) -> (res: Result<bool, String>)
    ensures
        match res {
            Ok(b) => argon2_verified(secret@, phc@, password@) == Ok::<bool, Seq<char>>(b),
            Err(m) => argon2_verified(secret@, phc@, password@) == Err::<bool, Seq<char>>(m@),
        },
{
    let params = argon2::Params::DEFAULT;
    let argon2 = argon2::Argon2::new_with_secret(secret, argon2::Algorithm::Argon2d, argon2::Version::V0x10, params)
        .map_err(|e| e.to_string())?;
    let hash = argon2::PasswordHash::new(phc).map_err(|e| e.to_string())?;
    Ok(argon2::PasswordVerifier::verify_password(&argon2, password.as_bytes(), &hash).is_ok())
}

/// The secret and the password's UTF-8 bytes are within Argon2's limits
/// (`MAX_SECRET_LEN`, `MAX_PWD_LEN`: 0xFFFFFFFF bytes each).
pub open spec fn within_argon2_limits(secret: Seq<u8>, password: Seq<char>) -> bool {
    secret.len() <= 0xFFFF_FFFF && encode_utf8(password).len() <= 0xFFFF_FFFF
}

/// `phc` is a PHC string of an Argon2d hash, version 0x10 (`$argon2d$v=16$...`).
pub open spec fn is_argon2d_phc(phc: Seq<char>) -> bool {
    phc.len() >= 14 && phc.subrange(0, 14) == "$argon2d$v=16$"@
}

/// `phc` is a hash that the secret accepts for `password`.
pub open spec fn hash_accepts(secret: Seq<u8>, phc: Seq<char>, password: Seq<char>) -> bool {
    argon2_verified(secret, phc, password) == Ok::<bool, Seq<char>>(true)
}

/// Calls `argon2::Argon2::new_with_secret(secret, Argon2d, V0x10,
/// Params::DEFAULT)` and `hash_password` with the bytes of `password` and a
/// salt from `SaltString::generate(&mut OsRng)`, and writes the hash as a PHC
/// string. The salt is random, so nothing is claimed of which hash comes
/// out; claimed: a hash that comes out is one that the same secret accepts
/// for the same password: the hash carries its algorithm, version,
/// parameters and salt, and verifying recomputes it from them; it is written
/// as `$argon2d$v=16$` followed by the parameters, salt and hash; and a secret
/// longer than `MAX_SECRET_LEN` (0xFFFFFFFF bytes) is refused, while a
/// secret and a password within `MAX_SECRET_LEN` and `MAX_PWD_LEN` are
/// hashed: the generated salt is always of a valid length.
#[verifier::external_body]
fn argon2_hash(secret: &[u8], password: &str) -> (res: Result<String, String>)
    ensures
        res matches Ok(phc) ==> hash_accepts(secret@, phc@, password@),
        res matches Ok(phc) ==> is_argon2d_phc(phc@),
        secret@.len() > 0xFFFF_FFFF ==> res is Err,
        within_argon2_limits(secret@, password@) ==> res is Ok,
{
    let params = argon2::Params::DEFAULT;
    let argon2 = argon2::Argon2::new_with_secret(secret, argon2::Algorithm::Argon2d, argon2::Version::V0x10, params)
        .map_err(|e| e.to_string())?;
    let salt = argon2::password_hash::SaltString::generate(&mut argon2::password_hash::rand_core::OsRng);
    argon2::PasswordHasher::hash_password(&argon2, password.as_bytes(), &salt).map(|h| h.to_string()).map_err(|e| e.to_string())
}

/// A stored user, as the login looks it up by name.
#[derive(Debug, Clone, PartialEq, Eq)]
pub struct UserRecord {
    pub id: i32,
    /// The PHC string of the user's password hash.
    pub password: String,
}

/// A user to store at registration.
#[derive(Debug, Clone, PartialEq, Eq)]
pub struct NewUser {
    pub name: String,
    /// The PHC string of the user's password hash.
    pub password: String,
    pub role: Role,
}

/// The auth service's secret and its decisions.
pub struct AuthController {
    /// The secret mixed into every password hash.
    pub secret_key: Vec<u8>,
}

/// The outcome of a login with `password` for the user found by name
/// (`(id, hash)`), or none: the user's id, or the status code and message of
/// the refusal.
pub open spec fn login_result(secret: Seq<u8>, user: Option<(i32, Seq<char>)>, password: Seq<char>) -> Result<
    i32,
    (Code, Seq<char>),
> {
    match user {
        None => Err((Code::Unauthenticated, "User not found"@)),
        Some((id, phc)) => match argon2_verified(secret, phc, password) {
            Err(m) => Err((Code::Internal, m)),
            Ok(false) => Err((Code::Unauthenticated, "Incorrent password"@)),
            Ok(true) => Ok(id),
        },
    }
}

/// `res` answers as `expected` says: a successful reply with an empty token
/// for the user, or the status.
pub open spec fn answers(res: Result<AuthResponse, Status>, expected: Result<i32, (Code, Seq<char>)>) -> bool {
    match expected {
        Ok(id) => res matches Ok(r) && r.success && r.token@ == Seq::<char>::empty() && r.user_id == id,
        Err((code, m)) => res matches Err(s) && s.code == code && s.message@ == m,
    }
}

impl AuthController {
    pub fn new(secret_key: Vec<u8>) -> (c: AuthController)
        ensures
            c.secret_key@ == secret_key@,
    {
        AuthController { secret_key }
    }

    /// Answers a login; `user` is the stored user with the request's name,
    /// if there is one.
    pub fn login(&self, request: &AuthRequest, user: Option<UserRecord>) -> (res: Result<AuthResponse, Status>)
        ensures
            answers(
                res,
                login_result(
                    self.secret_key@,
                    match user {
                        Some(u) => Some((u.id, u.password@)),
                        None => None,
                    },
                    request.password@,
                ),
            ),
    {
        let u = match user {
            None => {
                return Err(Status { code: Code::Unauthenticated, message: "User not found".to_owned() });
            },
            Some(u) => u,
        };
        match argon2_check(self.secret_key.as_slice(), u.password.as_str(), request.password.as_str()) {
            Err(m) => Err(Status { code: Code::Internal, message: m }),
            Ok(false) => Err(Status { code: Code::Unauthenticated, message: "Incorrent password".to_owned() }),
            Ok(true) => Ok(AuthResponse { success: true, token: String::new(), user_id: u.id }),
        }
    }

    /// The user that a registration stores: the request's name, the hash of
    /// its password and the role `User`; or, only where the secret or the
    /// password exceeds Argon2's limits, an `Internal` status with the
    /// hasher's message.
    pub fn new_user(&self, request: &AuthRequest) -> (res: Result<NewUser, Status>)
        ensures
            match res {
                Ok(u) => u.name@ == request.name@ && u.role == Role::User && is_argon2d_phc(u.password@) && argon2_verified(
                    self.secret_key@,
                    u.password@,
                    request.password@,
                ) == Ok::<bool, Seq<char>>(true),
                Err(s) => s.code == Code::Internal,
            },
            self.secret_key@.len() > 0xFFFF_FFFF ==> res is Err,
            within_argon2_limits(self.secret_key@, request.password@) ==> res is Ok,
    {
        match argon2_hash(self.secret_key.as_slice(), request.password.as_str()) {
            Ok(phc) => Ok(NewUser { name: request.name.clone(), password: phc, role: Role::User }),
            Err(m) => Err(Status { code: Code::Internal, message: m }),
        }
    }

    /// The answer to a registration once the user is stored under `user_id`.
    pub fn registered(user_id: i32) -> (r: AuthResponse)
        ensures
            r.success && r.token@ == Seq::<char>::empty() && r.user_id == user_id,
    {
        AuthResponse { success: true, token: String::new(), user_id }
    }
}

/// What registration is for: a user stored by `new_user` logs in with the
/// password they registered with, under the same secret.
pub proof fn law_registered_user_logs_in(secret: Seq<u8>, id: i32, phc: Seq<char>, password: Seq<char>)
    requires
        argon2_verified(secret, phc, password) == Ok::<bool, Seq<char>>(true),
    ensures
        login_result(secret, Some((id, phc)), password) == Ok::<i32, (Code, Seq<char>)>(id),
{
}

} // verus!
