//! The credential verifier: hashing a plaintext secret with a fresh salt
//! and checking a presented secret against a stored encoded hash, through
//! the pluggable password hasher.

use vstd::prelude::*;
use vstd::utf8::encode_utf8;
use crate::error::{AppError, AppErrorType};

verus! {

/// Whether the password hasher accepts `pwd` as the preimage of the
/// encoded hash `encoded`: a fixed function of the two arguments.
pub uninterp spec fn argon2_matches(encoded: Seq<char>, pwd: Seq<u8>) -> bool;

/// Whether the encoded text is a hash encoding the password hasher
/// accepts: it decodes, and the decoded parameters, salt and hash length
/// pass the hasher's validation — a fixed function of the encoded text
/// alone.
pub uninterp spec fn argon2_decodable(encoded: Seq<char>) -> bool;

/// Relies on `argon2::verify_encoded`: it decodes the encoded hash,
/// recomputes the hash of the password under the decoded parameters and
/// compares — a deterministic function of its two arguments.  With the
/// password inside the hasher's documented `u32` length bound, it
/// succeeds exactly when the encoded text decodes to an accepted
/// parameter set, a property of the encoded text alone.
#[verifier::external_body]
fn verify_encoded_hash(encoded: &str, pwd: &[u8]) -> (r: Result<bool, ()>)
    requires
        pwd@.len() <= u32::MAX,
    ensures
        r is Ok <==> argon2_decodable(encoded@),
        r matches Ok(m) ==> m == argon2_matches(encoded@, pwd@),
{
    argon2::verify_encoded(encoded, pwd).map_err(|_| ())
}

/// Relies on `argon2::hash_encoded` with the crate's default
/// configuration: it hashes deterministically, succeeds whenever the
/// salt is 8 bytes or longer and salt and password each fit `u32`
/// (the crate's documented context bounds), and its output re-decodes to
/// the same accepted parameters, so it verifies against the same
/// password with `argon2::verify_encoded`.
#[verifier::external_body]
fn hash_encoded_salted(pwd: &[u8], salt: &[u8]) -> (r: Result<String, ()>)
    ensures
        (8 <= salt@.len() <= u32::MAX && pwd@.len() <= u32::MAX) ==> r is Ok,
        r matches Ok(h) ==> argon2_decodable(h@),
        r matches Ok(h) ==> argon2_matches(h@, pwd@),
{
    argon2::hash_encoded(pwd, salt, &argon2::Config::default()).map_err(|_| ())
}

/// Relies on `rand::random`: 16 bytes from the thread-local generator.
/// Nothing is promised of the values beyond the length.
#[verifier::external_body]
fn generate_salt() -> (r: Vec<u8>)
    ensures
        r@.len() == 16,
{
    rand::random::<[u8; 16]>().to_vec()
}

/// Hashes a plaintext password with a fresh 16-byte random salt; the
/// result is a decodable encoding that verifies against the same
/// password.
pub fn hash_password(plain_password: &String) -> (r: Result<String, AppError>)
    requires
        encode_utf8(plain_password@).len() <= u32::MAX,
    ensures
        r is Ok,
        r matches Ok(h) ==> argon2_decodable(h@),
        r matches Ok(h) ==> argon2_matches(h@, encode_utf8(plain_password@)),
{
    let salt = generate_salt();
    match hash_encoded_salted(plain_password.as_str().as_bytes(), salt.as_slice()) {
        Ok(h) => Ok(h),
        Err(_) => {
            proof {
                assert(false);
            }
            Err(
                AppError::new(
                    None,
                    Some("Could not encode password!".to_owned()),
                    AppErrorType::Internal,
                ),
            )
        },
    }
}

/// Checks a presented password against a stored encoded hash: succeeds
/// exactly when the stored hash is a decodable encoding, and then
/// returns whether the password matches it.
pub fn verify_password(hash: &String, password: &String) -> (r: Result<bool, AppError>)
    requires
        encode_utf8(password@).len() <= u32::MAX,
    ensures
        r is Ok <==> argon2_decodable(hash@),
        r matches Ok(m) ==> m == argon2_matches(hash@, encode_utf8(password@)),
        r matches Err(e) ==> (e.error_type == AppErrorType::Internal && e.message is None && (
        e.cause matches Some(c) && c@ == "Could not decode password!"@)),
{
    match verify_encoded_hash(hash.as_str(), password.as_str().as_bytes()) {
        Ok(m) => Ok(m),
        Err(_) => Err(
            AppError::new(
                None,
                Some("Could not decode password!".to_owned()),
                AppErrorType::Internal,
            ),
        ),
    }
}

} // verus!
