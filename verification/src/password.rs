//! Password hashing and verification on top of the Argon2 primitive.
//!
//! The hash is a PHC-encoded string embedding the algorithm parameters
//! and a per-user random salt, so verification is self-describing.
//! Whether a password verifies against an encoded hash is a function of
//! the two strings alone; it is named `hash_matches` and never spelled
//! out, and every contract of the crate speaks through that name.
//! Whether an encoded string parses as a PHC hash at all is likewise a
//! function of that string alone, named `phc_readable`; every `Internal`
//! answer of this module means the stored hash could not be parsed.

use vstd::prelude::*;

use argon2::Argon2;
use argon2::PasswordHash;
use argon2::PasswordHasher;
use argon2::PasswordVerifier;
use argon2::password_hash::SaltString;

use crate::error::AppError;
use crate::error::ErrorKind;

verus! {

/// Whether Argon2 verification of `password` against the PHC-encoded
/// `encoded` succeeds: a function of the two strings alone.
pub uninterp spec fn hash_matches(password: Seq<char>, encoded: Seq<char>) -> bool;

/// Whether `encoded` parses as a PHC-encoded hash string: a function of
/// that string alone.
pub uninterp spec fn phc_readable(encoded: Seq<char>) -> bool;

/// Relies on argon2's `PasswordHasher::hash_password` with a fresh random
/// salt: whatever salt was drawn, the returned string is the PHC
/// rendering of the computed hash — it starts with "$argon2", parses
/// back, and verifies against the password it was computed from.
#[verifier::external_body]
fn argon2_hash(password: &str) -> (r: Option<String>)
    ensures
        r matches Some(h) ==> {
            &&& hash_matches(password@, h@)
            &&& phc_readable(h@)
            &&& h@.len() > 7
            &&& h@.subrange(0, 7) == "$argon2"@
        },
{
    let salt = SaltString::generate(&mut rand::thread_rng());
    match Argon2::default().hash_password(password.as_bytes(), &salt) {
        Ok(h) => Some(h.to_string()),
        Err(_) => None,
    }
}

/// Relies on argon2's `PasswordVerifier::verify_password`: it recomputes
/// the hash with the parameters and salt embedded in the encoded string
/// and compares, a deterministic function of the two arguments; and on
/// `PasswordHash::new`: `None` exactly when the encoded string does not
/// parse as a PHC hash.
#[verifier::external_body]
fn argon2_verify(password: &str, encoded: &str) -> (r: Option<bool>)
    ensures
        r is Some <==> phc_readable(encoded@),
        r matches Some(b) ==> b == hash_matches(password@, encoded@),
{
    match PasswordHash::new(encoded) {
        Ok(parsed) => Some(
            Argon2::default().verify_password(password.as_bytes(), &parsed).is_ok(),
        ),
        Err(_) => None,
    }
}

/// Hash a password with a fresh random salt. On success the returned
/// encoded hash is a readable PHC string (so it is never the bare
/// plaintext of an ordinary password) and verifies against the same
/// password; hashing itself can fail only inside the primitive,
/// reported as `Internal`.
pub fn hash(password: &str) -> (r: Result<String, AppError>)
    ensures
        r matches Ok(h) ==> {
            &&& hash_matches(password@, h@)
            &&& phc_readable(h@)
            &&& h@.len() > 7
            &&& h@.subrange(0, 7) == "$argon2"@
        },
        r is Err ==> r->Err_0.kind == ErrorKind::Internal,
{
    match argon2_hash(password) {
        Some(h) => Ok(h),
        None => Err(ErrorKind::Internal.with_message(String::from_str(
            "Password hashing failed",
        ))),
    }
}

/// Verify a password against an encoded hash: `Ok` exactly when the
/// stored hash is a readable PHC string, and then the answer is the
/// verification outcome; `Internal` otherwise.
pub fn verify(password: &str, encoded: &str) -> (r: Result<bool, AppError>)
    ensures
        r is Ok <==> phc_readable(encoded@),
        r matches Ok(b) ==> b == hash_matches(password@, encoded@),
        r is Err ==> r->Err_0.kind == ErrorKind::Internal,
{
    match argon2_verify(password, encoded) {
        Some(b) => Ok(b),
        None => Err(ErrorKind::Internal.with_message(String::from_str(
            "Invalid password hash",
        ))),
    }
}

} // verus!
