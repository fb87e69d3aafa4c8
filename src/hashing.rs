//! Password hashing: Argon2id with a random salt, and verification of a
//! candidate against a stored PHC-format hash.
use argon2::password_hash::{PasswordHash, PasswordHasher, PasswordVerifier, SaltString};
use argon2::{Algorithm, Argon2, Params, Version};
use vstd::prelude::*;

verus! {

/// What argon2 decides of a candidate password against a stored hash text:
/// `Some(true)` on a match; `Some(false)` on a mismatch, or when the stored text
/// carries no salt or no output; `None` when the text does not parse as a PHC
/// hash or names an algorithm, version or parameters that argon2 refuses.
pub uninterp spec fn argon2_check(hash: Seq<char>, candidate: Seq<char>) -> Option<bool>;

/// The longest password, in characters, that is always hashed: argon2 refuses
/// passwords over `0xFFFF_FFFF` bytes, and a character takes at most four bytes.
pub const MAX_HASHABLE_PASSWORD_CHARS: usize = 0x3FFF_FFFF;

/// Relies on argon2's `PasswordHasher::hash_password` (Argon2id, version 0x13,
/// 15000 KiB, 2 passes, 1 lane) with a salt from `SaltString::generate` over
/// `rand::thread_rng`. The parameters are within argon2's bounds and the salt
/// is always generated, so hashing fails only for a password over `0xFFFF_FFFF`
/// bytes. The PHC text it returns starts with `$argon2id$` and carries version,
/// parameters and salt, so `PasswordVerifier::verify_password` re-derives the
/// same output from the same password.
#[verifier::external_body]
pub(crate) fn compute_password_hash(password: &str) -> (r: Option<String>)
    ensures
        password@.len() <= MAX_HASHABLE_PASSWORD_CHARS ==> r is Some,
        r matches Some(h) ==> argon2_check(h@, password@) == Some(true) && h@.len() >= 10
            && h@.subrange(0, 10) == "$argon2id$"@,
{
    let salt = SaltString::generate(&mut rand::thread_rng());
    let params = match Params::new(15000, 2, 1, None) {
        Ok(p) => p,
        Err(_) => return None,
    };
    match Argon2::new(Algorithm::Argon2id, Version::V0x13, params).hash_password(password.as_bytes(), &salt) {
        Ok(h) => Some(h.to_string()),
        Err(_) => None,
    }
}

/// Relies on argon2's `PasswordHash::new` (parses the PHC text) and
/// `PasswordVerifier::verify_password` of `Argon2::default()`, which re-hashes
/// the candidate with the parameters and salt of the stored text and compares
/// in constant time; `Error::Password` is the mismatch.
#[verifier::external_body]
pub(crate) fn verify_password_hash(hash: &str, candidate: &str) -> (r: Option<bool>)
    ensures
        r == argon2_check(hash@, candidate@),
{
    let parsed = match PasswordHash::new(hash) {
        Ok(p) => p,
        Err(_) => return None,
    };
    match Argon2::default().verify_password(candidate.as_bytes(), &parsed) {
        Ok(()) => Some(true),
        Err(argon2::password_hash::Error::Password) => Some(false),
        Err(_) => None,
    }
}

} // verus!
