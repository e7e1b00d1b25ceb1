//! SHA3-256 hashing and the hex-chained password digest used by the
//! management API.

use vstd::prelude::*;
use vstd::utf8::encode_utf8;

use sha3::Digest;

use crate::hexcode::{hex_encode, hex_encoded};

verus! {

/// What SHA3-256 makes of a byte string. The digest itself takes a
/// specification document to state; only its length is pinned here, by the
/// wrapper below.
pub uninterp spec fn sha3_of(b: Seq<u8>) -> Seq<u8>;

/// The 32-byte SHA3-256 digest of `b`.
///
/// Relies on sha3's `Sha3_256`: a 32-byte digest, a function of the input
/// bytes alone.
#[verifier::external_body]
fn sha3_256(b: &[u8]) -> (r: Vec<u8>)
    ensures
        r@ == sha3_of(b@),
        r@.len() == 32,
{
    sha3::Sha3_256::digest(b).to_vec()
}

/// The lowercase hex SHA3-256 digest of `plaintext`.
pub fn hash(plaintext: &[u8]) -> (r: String)
    ensures
        r@ == hex_encoded(sha3_of(plaintext@)),
        r@.len() == 64,
{
    let h = sha3_256(plaintext);
    hex_encode(h.as_slice())
}

/// The chained API password digest:
/// `sha3(b"webuniverse" + hex(sha3(username + hex(sha3(password)))))`, each
/// digest hex-encoded before it feeds the next round.
pub open spec fn spec_hash_password(pwd: Seq<u8>, user: Seq<u8>) -> Seq<char> {
    let e1 = hex_encoded(sha3_of(pwd));
    let e2 = hex_encoded(sha3_of(user + encode_utf8(e1)));
    hex_encoded(sha3_of(encode_utf8("webuniverse"@) + encode_utf8(e2)))
}

/// Computes the chained API password digest of a password and user name.
pub fn hash_password(password: &[u8], username: &[u8]) -> (r: String)
    ensures
        r@ == spec_hash_password(password@, username@),
        r@.len() == 64,
{
    let h1 = sha3_256(password);
    let e1 = hex_encode(h1.as_slice());

    let mut buf: Vec<u8> = Vec::new();
    buf.extend_from_slice(username);
    buf.extend_from_slice(e1.as_str().as_bytes());
    proof {
        assert(buf@ =~= username@ + encode_utf8(e1@));
    }
    let h2 = sha3_256(buf.as_slice());
    let e2 = hex_encode(h2.as_slice());

    let mut buf2: Vec<u8> = Vec::new();
    buf2.extend_from_slice("webuniverse".as_bytes());
    buf2.extend_from_slice(e2.as_str().as_bytes());
    proof {
        assert(buf2@ =~= encode_utf8("webuniverse"@) + encode_utf8(e2@));
    }
    let h3 = sha3_256(buf2.as_slice());
    hex_encode(h3.as_slice())
}

} // verus!
