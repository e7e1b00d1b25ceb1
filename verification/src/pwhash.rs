//! Argon2id password hashing for stored user credentials.

use vstd::prelude::*;

use crate::fail::Fail;

verus! {

/// What rust-argon2 encodes for a password and salt under the Argon2id
/// variant with the crate's default cost parameters: deterministic in the
/// password and salt alone.
pub uninterp spec fn argon2id_of(pwd: Seq<u8>, salt: Seq<u8>) -> Seq<char>;

/// What rust-argon2's `verify_encoded` answers for an encoded hash and a
/// password: deterministic in the two alone.
pub uninterp spec fn argon2_verifies(encoded: Seq<char>, pwd: Seq<u8>) -> bool;

/// Produces the encoded Argon2id hash of `pwd` under `salt`.
///
/// Relies on rust-argon2's `hash_encoded`: succeeds exactly when the salt is
/// 8 to 2^32-1 bytes and the password at most 2^32-1 bytes; the result is a
/// function of password and salt, and `verify_encoded` accepts it for the
/// same password.
#[verifier::external_body]
fn argon2id_encode(pwd: &[u8], salt: &[u8]) -> (r: Option<String>)
    ensures
        r is Some <==> (8 <= salt@.len() <= 0xffff_ffff && pwd@.len() <= 0xffff_ffff),
        r matches Some(s) ==> s@ == argon2id_of(pwd@, salt@) && argon2_verifies(s@, pwd@),
{
    let config = argon2::Config { variant: argon2::Variant::Argon2id, ..argon2::Config::default() };
    argon2::hash_encoded(pwd, salt, &config).ok()
}

/// The encoded Argon2id hash of `pwd` under `salt`, or `Fail::Hash` when the
/// salt is shorter than 8 bytes or a length exceeds the algorithm's bounds.
pub fn argon2_hash(pwd: &[u8], salt: &[u8]) -> (r: Result<String, Fail>)
    ensures
        r is Ok <==> (8 <= salt@.len() <= 0xffff_ffff && pwd@.len() <= 0xffff_ffff),
        r matches Ok(s) ==> s@ == argon2id_of(pwd@, salt@) && argon2_verifies(s@, pwd@),
        r is Err ==> r == Err::<String, Fail>(Fail::Hash),
{
    match argon2id_encode(pwd, salt) {
        Some(s) => Ok(s),
        None => Err(Fail::Hash),
    }
}

/// Whether `encoded` is an Argon2 hash of `pwd`.
///
/// Relies on rust-argon2's `verify_encoded`: deterministic in the encoded
/// hash and the password; a malformed encoded hash verifies as false.
#[verifier::external_body]
pub fn argon2_verify(encoded: &str, pwd: &[u8]) -> (r: bool)
    ensures
        r == argon2_verifies(encoded@, pwd@),
{
    argon2::verify_encoded(encoded, pwd).unwrap_or(false)
}

} // verus!
