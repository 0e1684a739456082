use vstd::prelude::*;

use crate::errors::AppError;
use argon2::{Argon2, PasswordHasher, PasswordVerifier};

verus! {

/// Whether argon2 verification of `plaintext` against the self-describing
/// encoded string `encoded` succeeds. The verdict is a function of the two
/// strings alone: the encoded string carries the algorithm id, the cost
/// parameters and the salt, so recomputing the digest is deterministic, and
/// a malformed encoded string never verifies.
pub uninterp spec fn password_verifies(plaintext: Seq<char>, encoded: Seq<char>) -> bool;

/// Relies on argon2's `PasswordHasher::hash_password`: it draws a fresh
/// random salt, derives a memory-hard digest of the plaintext under the
/// default cost parameters, and returns a PHC-encoded string; verifying that
/// string against the same plaintext succeeds.
#[verifier::external_body]
fn argon2_hash(plaintext: &str) -> (r: Result<String, ()>)
    ensures
        (r matches Ok(h) ==> password_verifies(plaintext@, h@)),
{
    match Argon2::default().hash_password(plaintext.as_bytes()) {
        Ok(h) => Ok(h.to_string()),
        Err(_) => Err(()),
    }
}

/// Relies on argon2's `PasswordVerifier::<str>::verify_password`: it decodes
/// the parameters and the salt from the encoded string, recomputes the digest
/// of the plaintext, and compares in constant time; a malformed encoded
/// string is reported as a non-match, never a panic.
#[verifier::external_body]
fn argon2_verify(plaintext: &str, encoded: &str) -> (r: bool)
    ensures
        r == password_verifies(plaintext@, encoded@),
{
    Argon2::default().verify_password(plaintext.as_bytes(), encoded).is_ok()
}

/// Hash a plaintext password into a self-describing encoded string under a
/// fresh random salt. On success the encoded string verifies against exactly
/// the plaintext it was derived from; a hashing failure is fatal for the
/// request and surfaces as `HashingError`, never as a silent downgrade to a
/// failed login.
pub fn hash_password(plaintext: &str) -> (r: Result<String, AppError>)
    ensures
        (r matches Ok(h) ==> password_verifies(plaintext@, h@)),
        (r matches Err(e) ==> e == AppError::HashingError),
{
    match argon2_hash(plaintext) {
        Ok(h) => Ok(h),
        Err(()) => Err(AppError::HashingError),
    }
}

/// Check a plaintext password against a stored encoded hash; the result is
/// exactly the verification verdict, and a malformed stored hash never
/// matches.
pub fn verify_password(plaintext: &str, encoded: &str) -> (r: bool)
    ensures
        r == password_verifies(plaintext@, encoded@),
{
    argon2_verify(plaintext, encoded)
}

} // verus!
