//! The credential manager: password hashing and verification, delegated to
//! the argon2 primitive behind exact-as-documented contracts. Every hash
//! call draws a fresh random salt; verification failures of the primitive
//! itself surface as a fatal error, never as "not matching".
use vstd::prelude::*;

use crate::error::ApiError;

verus! {

/// How many random bytes of salt each hash call draws.
pub const SALT_BYTES: usize = 32;

/// The encoded hash that argon2 derives from a password and a salt; a pure
/// function of the two, left unnamed beyond that.
pub uninterp spec fn argon2_encoded_of(pwd: Seq<u8>, salt: Seq<u8>) -> Seq<char>;

/// Whether argon2 accepts a password against an encoded hash; a pure
/// function of the two, true whenever the hash was derived from that
/// password.
pub uninterp spec fn argon2_verify_of(encoded: Seq<char>, pwd: Seq<u8>) -> bool;

/// Whether argon2 can parse an encoded hash back into valid parameters,
/// salt and digest; a pure function of the encoded text alone, true of
/// every hash this library derives.
pub uninterp spec fn argon2_parseable_of(encoded: Seq<char>) -> bool;

#[verifier::external_type_specification]
#[verifier::external_body]
pub struct ExArgon2Error(argon2::Error);

/// Relies on argon2::hash_encoded with the default configuration: the
/// configuration is valid and the salt bounds below are the ones its
/// validation checks, so it returns an encoded hash; the hash is a
/// function of password and salt alone, it parses back (its embedded
/// parameters are the valid defaults), and argon2::verify_encoded
/// accepts the password it was derived from against it.
#[verifier::external_body]
fn argon2_hash(pwd: &[u8], salt: &[u8]) -> (r: Result<String, argon2::Error>)
    requires
        8 <= salt@.len() <= 0xffff_ffff,
        pwd@.len() <= 0xffff_ffff,
    ensures
        r is Ok,
        r matches Ok(h) ==> h@ == argon2_encoded_of(pwd@, salt@) && argon2_parseable_of(h@)
            && argon2_verify_of(h@, pwd@),
{
    argon2::hash_encoded(pwd, salt, &argon2::Config::default())
}

/// Relies on argon2::verify_encoded: a deterministic recomputation. It
/// returns a result exactly when the encoded hash parses and the
/// password is within argon2's length bound (the only two ways its
/// validation can fail), and errs otherwise.
#[verifier::external_body]
fn argon2_check(encoded: &str, pwd: &[u8]) -> (r: Result<bool, argon2::Error>)
    ensures
        r is Ok <==> (argon2_parseable_of(encoded@) && pwd@.len() <= 0xffff_ffff),
        r matches Ok(b) ==> b == argon2_verify_of(encoded@, pwd@),
{
    argon2::verify_encoded(encoded, pwd)
}

/// Relies on rand::fill on the thread generator to draw fresh bytes for
/// salts and token identifiers; nothing is assumed of the values drawn.
#[verifier::external_body]
pub(crate) fn fresh_random_bytes(n: usize) -> (r: Vec<u8>)
    ensures
        r@.len() == n,
{
    let mut v = vec![0u8; n];
    rand::fill(&mut v[..]);
    v
}

/// Hashes a plaintext password under a fresh random salt. The result is
/// the argon2 encoding of the plaintext under that salt, and verifies
/// against the plaintext it was derived from.
pub fn hash_password_string(plaintext: &String) -> (r: String)
    requires
        vstd::utf8::encode_utf8(plaintext@).len() <= 0xffff_ffff,
    ensures
        exists|salt: Seq<u8>|
            salt.len() == SALT_BYTES && r@ == #[trigger] argon2_encoded_of(
                vstd::utf8::encode_utf8(plaintext@),
                salt,
            ),
        argon2_parseable_of(r@),
        argon2_verify_of(r@, vstd::utf8::encode_utf8(plaintext@)),
{
    let salt = fresh_random_bytes(SALT_BYTES);
    match argon2_hash(plaintext.as_str().as_bytes(), salt.as_slice()) {
        Ok(h) => {
            proof {
                assert(h@ == argon2_encoded_of(vstd::utf8::encode_utf8(plaintext@), salt@));
            }
            h
        },
        Err(_) => {
            proof {
                assert(false);
            }
            String::new()
        },
    }
}

/// Recomputes and compares; a hash the primitive cannot parse is a fatal
/// `HashingFailure`, never treated as "not matching". A result is owed
/// exactly when the hash parses and the password is within argon2's
/// length bound.
pub fn verify_password_string(encoded: &String, password: &[u8]) -> (r: Result<bool, ApiError>)
    ensures
        r is Ok <==> argon2_parseable_of(encoded@) && password@.len() <= 0xffff_ffff,
        match r {
            Ok(b) => b == argon2_verify_of(encoded@, password@),
            Err(e) => e == ApiError::HashingFailure,
        },
{
    match argon2_check(encoded.as_str(), password) {
        Ok(b) => Ok(b),
        Err(_) => Err(ApiError::HashingFailure),
    }
}

} // verus!
