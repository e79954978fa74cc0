//! The plain data types the authentication endpoints exchange.

use vstd::prelude::*;
use vstd::string::StrSliceExecFns;
use vstd::string::StringExecFns;

verus! {

/// Fewest characters a username may have at registration.
pub const MIN_USERNAME_CHARS: usize = 3;

/// Fewest characters a password may have at registration.
pub const MIN_PASSWORD_CHARS: usize = 6;

/// What a registration request carries.
pub struct RegisterPayload {
    pub username: String,
    pub password: String,
}

impl RegisterPayload {
    /// The registration rules: a username of at least
    /// [`MIN_USERNAME_CHARS`] characters and a password of at least
    /// [`MIN_PASSWORD_CHARS`].
    pub open spec fn valid(self) -> bool {
        self.username@.len() >= MIN_USERNAME_CHARS && self.password@.len() >= MIN_PASSWORD_CHARS
    }

    /// Checks the registration rules character by character (so a multi-byte
    /// character counts once, as a reader of the rules would expect).
    pub fn validate(&self) -> (ok: bool)
        ensures
            ok == self.valid(),
    {
        self.username.as_str().unicode_len() >= MIN_USERNAME_CHARS
            && self.password.as_str().unicode_len() >= MIN_PASSWORD_CHARS
    }
}

/// What a login request carries; no length rules apply here, the stored
/// credentials decide.
pub struct LoginPayload {
    pub username: String,
    pub password: String,
}

/// What a successful login answers with: the freshly issued token and its
/// scheme.
pub struct AuthBody {
    pub access_token: String,
    pub token_type: String,
}

impl AuthBody {
    /// Wraps an issued token; the scheme is always "Bearer".
    pub fn new(access_token: String) -> (body: AuthBody)
        ensures
            body.access_token@ == access_token@,
            body.token_type@ == "Bearer"@,
    {
        AuthBody { access_token, token_type: String::from_str("Bearer") }
    }
}

} // verus!
