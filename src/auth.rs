use argon2::PasswordVerifier;
use vstd::prelude::*;
use vstd::utf8::{decode_utf8, valid_utf8};

use crate::error::Error;
use crate::text::{split_at_first, split_once, text_from_utf8, text_is, trim, trimmed};

verus! {

/// The bytes that a base64 text (standard alphabet, padded) decodes to, or
/// `None` where it is not valid base64.
pub uninterp spec fn base64_decoded(text: Seq<char>) -> Option<Seq<u8>>;

/// Whether argon2 accepts `password` for the PHC-format hash `phc`, or
/// `None` where `phc` is not a well-formed PHC string.
pub uninterp spec fn argon2_verdict(password: Seq<char>, phc: Seq<char>) -> Option<bool>;

/// Relies on `base64::decode`: decodes standard, padded base64; the result
/// depends on the text alone.
#[verifier::external_body]
fn decode_base64(text: &str) -> (r: Option<Vec<u8>>)
    ensures
        match r {
            Some(b) => base64_decoded(text@) == Some(b@),
            None => base64_decoded(text@) is None,
        },
{
    base64::decode(text).ok()
}

/// Relies on `argon2::PasswordHash::new` to parse the PHC string and on
/// `PasswordVerifier::verify_password` of `Argon2::default()` to check the
/// password against it; the verdict depends on the two texts alone.
#[verifier::external_body]
fn argon2_check(password: &str, phc: &str) -> (r: Option<bool>)
    ensures
        r == argon2_verdict(password@, phc@),
{
    match argon2::PasswordHash::new(phc) {
        Ok(hash) => Some(argon2::Argon2::default().verify_password(password.as_bytes(), &hash).is_ok()),
        Err(_) => None,
    }
}

/// Operator credentials taken from a basic-auth header: user name and
/// password.
pub struct AuthBasic(pub (String, String));

/// A stored operator account.
pub struct User {
    pub username: String,
    pub password_hash: String,
}

pub const NOT_BASIC_MESSAGE: &'static str = "`Authorization` header must be for basic authentication";

pub const BAD_ENCODING_MESSAGE: &'static str = "`Authorization` header's basic authentication was improperly encoded";

pub const NO_PASSWORD_MESSAGE: &'static str = "Password not present";

pub const BAD_HASH_MESSAGE: &'static str = "Stored password hash is malformed";

/// What decoded basic-auth credentials give: text up to the first `:` is
/// the user name, the rest the password.
pub open spec fn credentials_of(bytes: Seq<u8>) -> Result<(Seq<char>, Seq<char>), Error> {
    if !valid_utf8(bytes) {
        Err(Error::IllegalStateError(BAD_ENCODING_MESSAGE))
    } else {
        match split_at_first(decode_utf8(bytes), ':') {
            None => Err(Error::IllegalStateError(NO_PASSWORD_MESSAGE)),
            Some(pair) => Ok(pair),
        }
    }
}

/// What a whole `Authorization` header value gives.
pub open spec fn header_credentials(header: Seq<char>) -> Result<(Seq<char>, Seq<char>), Error> {
    match split_at_first(header, ' ') {
        None => Err(Error::IllegalStateError(NOT_BASIC_MESSAGE)),
        Some((scheme, contents)) => if scheme != "Basic"@ {
            Err(Error::IllegalStateError(NOT_BASIC_MESSAGE))
        } else {
            match base64_decoded(contents) {
                None => Err(Error::IllegalStateError(BAD_ENCODING_MESSAGE)),
                Some(bytes) => credentials_of(bytes),
            }
        },
    }
}

pub open spec fn same_result(r: Result<AuthBasic, Error>, s: Result<(Seq<char>, Seq<char>), Error>) -> bool {
    match (r, s) {
        (Ok(a), Ok(pair)) => (a.0.0@, a.0.1@) == pair,
        (Err(e), Err(f)) => e == f,
        _ => false,
    }
}

/// Reads decoded basic-auth credentials: UTF-8 text holding `user:password`.
pub fn credentials_from_decoded(bytes: Vec<u8>) -> (r: Result<AuthBasic, Error>)
    ensures
        same_result(r, credentials_of(bytes@)),
{
    match text_from_utf8(bytes) {
        None => Err(Error::IllegalStateError(BAD_ENCODING_MESSAGE)),
        Some(text) => match split_once(text.as_str(), ':') {
            None => Err(Error::IllegalStateError(NO_PASSWORD_MESSAGE)),
            Some((id, password)) => Ok(AuthBasic((id, password))),
        },
    }
}

impl AuthBasic {
    /// Reads the value of an `Authorization` header: the scheme `Basic`, one
    /// space, then base64 of `user:password`.
    pub fn from_header(header: &str) -> (r: Result<AuthBasic, Error>)
        ensures
            same_result(r, header_credentials(header@)),
    {
        match split_once(header, ' ') {
            None => Err(Error::IllegalStateError(NOT_BASIC_MESSAGE)),
            Some((scheme, contents)) => {
                if !text_is(scheme.as_str(), "Basic") {
                    return Err(Error::IllegalStateError(NOT_BASIC_MESSAGE));
                }
                match decode_base64(contents.as_str()) {
                    None => Err(Error::IllegalStateError(BAD_ENCODING_MESSAGE)),
                    Some(bytes) => credentials_from_decoded(bytes),
                }
            },
        }
    }
}

/// Checks `password`, with surrounding white space removed, against the
/// stored PHC hash `phc`. A malformed hash is an error.
pub fn verify_password(password: &str, phc: &str) -> (r: Result<bool, Error>)
    ensures
        match argon2_verdict(trimmed(password@), phc@) {
            None => r == Err::<bool, Error>(Error::IllegalStateError(BAD_HASH_MESSAGE)),
            Some(ok) => r == Ok::<bool, Error>(ok),
        },
{
    let t = trim(password);
    match argon2_check(t.as_str(), phc) {
        None => Err(Error::IllegalStateError(BAD_HASH_MESSAGE)),
        Some(ok) => Ok(ok),
    }
}

/// Whether the operator may act: the looked-up account exists and its hash
/// accepts the password.
pub fn check_password_for_user(user: &Option<User>, password: &str) -> (r: bool)
    ensures
        r == match user {
            None => false,
            Some(u) => argon2_verdict(trimmed(password@), u.password_hash@) == Some(true),
        },
{
    match user {
        None => false,
        Some(u) => match verify_password(password, u.password_hash.as_str()) {
            Ok(true) => true,
            _ => false,
        },
    }
}

} // verus!
