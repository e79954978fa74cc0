//! The authentication rules: token claims, the error taxonomy of the
//! authentication endpoints, and the checks those endpoints make before any
//! store or cryptography is involved. Hashing, persistence and token
//! signing are the host's business; what is decided about their results is
//! decided here.

use vstd::prelude::*;
use vstd::string::StrSliceExecFns;
use crate::models::RegisterPayload;

verus! {

/// How long an issued token stays valid, in seconds: two hours.
pub const TOKEN_TTL_SECONDS: usize = 7200;

/// How many characters the "Bearer " scheme prefix of an authorization
/// header has.
pub const BEARER_PREFIX_CHARS: usize = 7;

/// A token's claims: the subject (the username), and expiry and issue time
/// as Unix timestamps in seconds.
pub struct Claims {
    pub sub: String,
    pub exp: usize,
    pub iat: usize,
}

impl Claims {
    /// Issues claims for `sub` at time `iat`; the token expires exactly
    /// [`TOKEN_TTL_SECONDS`] later.
    pub fn new(sub: String, iat: usize) -> (claims: Claims)
        requires
            iat + TOKEN_TTL_SECONDS <= usize::MAX,
        ensures
            claims.sub@ == sub@,
            claims.iat == iat,
            claims.exp == iat + TOKEN_TTL_SECONDS,
    {
        Claims { sub, exp: iat + TOKEN_TTL_SECONDS, iat }
    }
}

/// Everything an authentication endpoint can answer instead of succeeding.
pub enum AuthError {
    WrongCredentials,
    MissingCredentials,
    TokenCreation,
    UserAlreadyExists,
    UserTimeOut,
}

impl AuthError {
    /// The HTTP status code each error answers with.
    pub open spec fn status(self) -> int {
        match self {
            AuthError::WrongCredentials => 401,
            AuthError::MissingCredentials => 400,
            AuthError::TokenCreation => 500,
            AuthError::UserAlreadyExists => 400,
            AuthError::UserTimeOut => 504,
        }
    }

    /// The HTTP status code each error answers with.
    pub fn status_code(&self) -> (code: u16)
        ensures
            code == self.status(),
    {
        match self {
            AuthError::WrongCredentials => 401,
            AuthError::MissingCredentials => 400,
            AuthError::TokenCreation => 500,
            AuthError::UserAlreadyExists => 400,
            AuthError::UserTimeOut => 504,
        }
    }

    /// The message body each error answers with.
    pub fn message(&self) -> (msg: &'static str)
        ensures
            self is WrongCredentials ==> msg@ == "Wrong credentials"@,
            self is MissingCredentials ==> msg@ == "Missing credentials"@,
            self is TokenCreation ==> msg@ == "Token creation error"@,
            self is UserAlreadyExists ==> msg@ == "User already exists"@,
            self is UserTimeOut ==> msg@ == "Time out"@,
    {
        match self {
            AuthError::WrongCredentials => "Wrong credentials",
            AuthError::MissingCredentials => "Missing credentials",
            AuthError::TokenCreation => "Token creation error",
            AuthError::UserAlreadyExists => "User already exists",
            AuthError::UserTimeOut => "Time out",
        }
    }
}

/// The registration gate: a payload that breaks the registration rules is
/// rejected as missing credentials before any other work, and only such a
/// payload is.
pub fn validate_register(payload: &RegisterPayload) -> (r: Result<(), AuthError>)
    ensures
        r is Ok <==> payload.valid(),
        r matches Err(e) ==> e is MissingCredentials,
{
    if payload.validate() {
        Ok(())
    } else {
        Err(AuthError::MissingCredentials)
    }
}

/// Whether the first [`BEARER_PREFIX_CHARS`] characters of `header` spell
/// the "Bearer " scheme.
pub open spec fn has_bearer_prefix(header: Seq<char>) -> bool {
    header.len() >= BEARER_PREFIX_CHARS && header.subrange(
        0,
        BEARER_PREFIX_CHARS as int,
    ) == "Bearer "@
}

/// The middleware's header rule: an authorization header yields a token
/// exactly when it starts with the "Bearer " scheme, and the token is
/// everything after that prefix.
pub fn bearer_token(header: &str) -> (token: Option<&str>)
    ensures
        token is Some <==> has_bearer_prefix(header@),
        token matches Some(t) ==> t@ == header@.skip(BEARER_PREFIX_CHARS as int),
{
    proof {
        reveal_strlit("Bearer ");
    }
    let n = header.unicode_len();
    if n < BEARER_PREFIX_CHARS {
        return None;
    }
    let scheme_ok = header.get_char(0) == 'B' && header.get_char(1) == 'e' && header.get_char(2)
        == 'a' && header.get_char(3) == 'r' && header.get_char(4) == 'e' && header.get_char(5)
        == 'r' && header.get_char(6) == ' ';
    if scheme_ok {
        proof {
            assert(header@.subrange(0, BEARER_PREFIX_CHARS as int) =~= "Bearer "@);
        }
        Some(header.substring_char(BEARER_PREFIX_CHARS, n))
    } else {
        proof {
            if has_bearer_prefix(header@) {
                assert(forall|i: int| 0 <= i < BEARER_PREFIX_CHARS ==> header@.subrange(
                    0,
                    BEARER_PREFIX_CHARS as int,
                )[i] == header@[i]);
            }
        }
        None
    }
}

} // verus!
