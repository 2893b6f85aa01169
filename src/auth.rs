use vstd::prelude::*;
use vstd::string::{StringExecFns, StringSliceAdditionalSpecFns};

verus! {

#[verifier::external_type_specification]
#[verifier::external_body]
pub struct ExArgon2Error(argon2::Error);

/// What checking `password` against the encoded Argon2 hash `encoded` gives:
/// whether they match, or `None` where the hash cannot be decoded or names
/// parameters outside Argon2's limits.
pub uninterp spec fn argon2_verdict(encoded: Seq<char>, password: Seq<u8>) -> Option<bool>;

/// Relies on argon2::verify_encoded: it decodes the hash and its parameters, fails
/// where they are malformed or out of range, and otherwise tells whether the
/// password hashes to it. The outcome depends on the two arguments alone.
#[verifier::external_body]
fn verify_encoded(encoded: &str, password: &[u8]) -> (r: Result<bool, argon2::Error>)
    ensures
        match r {
            Ok(m) => argon2_verdict(encoded@, password@) == Some(m),
            Err(_) => argon2_verdict(encoded@, password@) is None,
        },
{
    argon2::verify_encoded(encoded, password)
}

/// The encoded Argon2 hash of `password` with `salt` under Argon2's default
/// settings, or `None` where the input lies outside Argon2's limits.
pub uninterp spec fn argon2_encoding(password: Seq<u8>, salt: Seq<u8>) -> Option<Seq<char>>;

/// Relies on argon2::hash_encoded with `argon2::Config::default()`: it hashes the
/// password with the salt and encodes hash and settings as text, and fails where
/// the salt is shorter than 8 bytes or another input is out of range. The outcome
/// depends on password and salt alone.
#[verifier::external_body]
fn hash_encoded(password: &[u8], salt: &[u8]) -> (r: Result<String, argon2::Error>)
    ensures
        match r {
            Ok(s) => argon2_encoding(password@, salt@) == Some(s@),
            Err(_) => argon2_encoding(password@, salt@) is None,
        },
        salt@.len() < 8 ==> r is Err,
{
    argon2::hash_encoded(password, salt, &argon2::Config::default())
}

/// Why a login failed.
#[derive(Debug, Clone)]
pub enum LoginError {
    InvalidPassword,
    UserNotFound,
    InternalError(String),
}

/// Why a registration failed.
#[derive(Debug, Clone)]
pub enum RegisterError {
    InternalError(String),
}

/// What a user sends to register.
#[derive(Debug, Clone)]
pub struct RegisterRequest {
    pub email: String,
    pub username: String,
    pub password: String,
}

/// The text of the error given where a password cannot be hashed.
pub open spec fn unhashable_text() -> Seq<char> {
    "password cannot be hashed"@
}

/// The text of the error given for a stored hash that cannot be checked against.
pub open spec fn malformed_hash_text() -> Seq<char> {
    "malformed password hash"@
}

impl LoginError {
    /// The HTTP status that reports this error.
    pub fn status_code(&self) -> (r: u16)
        ensures
            r == match self {
                LoginError::InvalidPassword => 400u16,
                LoginError::UserNotFound => 404u16,
                LoginError::InternalError(_) => 500u16,
            },
    {
        match self {
            LoginError::InvalidPassword => 400,
            LoginError::UserNotFound => 404,
            LoginError::InternalError(_) => 500,
        }
    }
}

impl RegisterError {
    /// The HTTP status that reports this error.
    pub fn status_code(&self) -> (r: u16)
        ensures
            r == 500,
    {
        match self {
            RegisterError::InternalError(_) => 500,
        }
    }
}

/// Turns the verdict of a password check into the login's outcome: a match lets
/// the login go on, a mismatch is `InvalidPassword`, and a stored hash that could
/// not be checked against is an internal error.
pub fn password_outcome(verdict: Option<bool>) -> (r: Result<(), LoginError>)
    ensures
        verdict == Some(true) <==> r is Ok,
        verdict == Some(false) <==> r matches Err(LoginError::InvalidPassword),
        verdict is None <==> r matches Err(LoginError::InternalError(_)),
        r matches Err(LoginError::InternalError(m)) ==> m@ == malformed_hash_text(),
{
    match verdict {
        Some(true) => Ok(()),
        Some(false) => Err(LoginError::InvalidPassword),
        None => {
            proof {
                reveal_strlit("malformed password hash");
            }
            Err(LoginError::InternalError(String::from_str("malformed password hash")))
        },
    }
}

/// Checks `password` against the stored Argon2 hash `hash`.
pub fn verify_password(hash: &str, password: &str) -> (r: Result<(), LoginError>)
    ensures
        argon2_verdict(hash@, password.spec_bytes()) == Some(true) <==> r is Ok,
        argon2_verdict(hash@, password.spec_bytes()) == Some(false) <==> r matches Err(
            LoginError::InvalidPassword,
        ),
        argon2_verdict(hash@, password.spec_bytes()) is None <==> r matches Err(
            LoginError::InternalError(_),
        ),
        r matches Err(LoginError::InternalError(m)) ==> m@ == malformed_hash_text(),
{
    let verdict = match verify_encoded(hash, password.as_bytes()) {
        Ok(m) => Some(m),
        Err(_) => None,
    };
    password_outcome(verdict)
}

/// Decides a login from what the user store holds for the user (the stored
/// password hash, `None` where there is no such user) and the password given: an
/// unknown user is `UserNotFound`, and otherwise the password is checked.
pub fn check_login(stored_hash: Option<&str>, password: &str) -> (r: Result<(), LoginError>)
    ensures
        stored_hash is None ==> r matches Err(LoginError::UserNotFound),
        stored_hash matches Some(h) ==> {
            &&& argon2_verdict(h@, password.spec_bytes()) == Some(true) <==> r is Ok
            &&& argon2_verdict(h@, password.spec_bytes()) == Some(false) <==> (r matches Err(
                LoginError::InvalidPassword,
            ))
            &&& argon2_verdict(h@, password.spec_bytes()) is None <==> (r matches Err(
                LoginError::InternalError(_),
            ))
        },
        r matches Err(LoginError::InternalError(m)) ==> m@ == malformed_hash_text(),
{
    match stored_hash {
        None => Err(LoginError::UserNotFound),
        Some(hash) => verify_password(hash, password),
    }
}

/// Hashes a new user's password with `salt`, for storing. A password or salt
/// outside Argon2's limits (a salt under 8 bytes) is an internal error.
pub fn hash_password(password: &str, salt: &[u8]) -> (r: Result<String, RegisterError>)
    ensures
        match r {
            Ok(h) => argon2_encoding(password.spec_bytes(), salt@) == Some(h@),
            Err(RegisterError::InternalError(m)) => argon2_encoding(
                password.spec_bytes(),
                salt@,
            ) is None && m@ == unhashable_text(),
        },
        salt@.len() < 8 ==> r is Err,
{
    match hash_encoded(password.as_bytes(), salt) {
        Ok(h) => Ok(h),
        Err(_) => {
            proof {
                reveal_strlit("password cannot be hashed");
            }
            Err(RegisterError::InternalError(String::from_str("password cannot be hashed")))
        },
    }
}

} // verus!
