//! The string-level credential helpers offered to the web front end: the
//! chained password digest, salted Argon2id hashing, and hex string codecs.

use vstd::prelude::*;
use vstd::utf8::{decode_utf8, encode_utf8, valid_utf8};

use crate::hexcode;
use crate::hexcode::{hex_decoded, hex_encoded, is_hex};
use crate::pwhash;
use crate::pwhash::{argon2id_of, argon2_verifies};
use crate::rng;
use crate::sha;
use crate::sha::spec_hash_password;
use crate::textenc;

verus! {

/// The chained API password digest of a password and user name, both given
/// as text.
pub fn hash_password(password: &str, username: &str) -> (r: String)
    ensures
        r@ == spec_hash_password(encode_utf8(password@), encode_utf8(username@)),
        r@.len() == 64,
{
    sha::hash_password(password.as_bytes(), username.as_bytes())
}

/// The encoded Argon2id hash of the chained password digest, under a fresh
/// random 16-byte salt. `verify_encoded` accepts the result for that digest.
pub fn argon2_hash(password: &str, username: &str) -> (r: String)
    ensures
        argon2_verifies(
            r@,
            encode_utf8(spec_hash_password(encode_utf8(password@), encode_utf8(username@))),
        ),
        exists|salt: Seq<u8>|
            salt.len() == 16 && r@ == argon2id_of(
                encode_utf8(spec_hash_password(encode_utf8(password@), encode_utf8(username@))),
                salt,
            ),
{
    let salt = rng::random(16);
    let ph = hash_password(password, username);
    proof {
        hexcode::lemma_hex_encoded_ascii(
            sha::sha3_of(
                encode_utf8("webuniverse"@) + encode_utf8(
                    hex_encoded(
                        sha::sha3_of(
                            encode_utf8(username@) + encode_utf8(
                                hex_encoded(sha::sha3_of(encode_utf8(password@))),
                            ),
                        ),
                    ),
                ),
            ),
        );
        vstd::utf8::is_ascii_chars_encode_utf8(ph@);
    }
    match pwhash::argon2_hash(ph.as_str().as_bytes(), salt.as_slice()) {
        Ok(s) => s,
        Err(_) => vstd::pervasive::unreached(),
    }
}

/// The lowercase hex encoding of the text's UTF-8 bytes.
pub fn str_encode(data: &str) -> (r: String)
    ensures
        r@ == hex_encoded(encode_utf8(data@)),
{
    hexcode::hex_encode(data.as_bytes())
}

/// Codec round trip: the hex text of `str_encode` is well-formed hex that
/// denotes the original text's UTF-8 bytes, those bytes are valid UTF-8, and
/// decoding them gives the text back: `str_decode` inverts `str_encode`.
pub proof fn lemma_str_codec_round_trip(s: Seq<char>)
    ensures
        is_hex(hex_encoded(encode_utf8(s))),
        hex_decoded(hex_encoded(encode_utf8(s))) == encode_utf8(s),
        valid_utf8(hex_decoded(hex_encoded(encode_utf8(s)))),
        decode_utf8(hex_decoded(hex_encoded(encode_utf8(s)))) == s,
{
    hexcode::lemma_hex_round_trip(encode_utf8(s));
    vstd::utf8::encode_utf8_valid_utf8(s);
    vstd::utf8::encode_utf8_decode_utf8(s);
}

/// The text whose UTF-8 bytes the hex string denotes. The input must be
/// well-formed hex denoting valid UTF-8, as it is where it came from
/// `str_encode`.
pub fn str_decode(data: &str) -> (r: String)
    requires
        is_hex(data@),
        valid_utf8(hex_decoded(data@)),
    ensures
        r@ == decode_utf8(hex_decoded(data@)),
        encode_utf8(r@) == hex_decoded(data@),
{
    let bytes = match hexcode::hex_decode(data) {
        Some(b) => b,
        None => vstd::pervasive::unreached(),
    };
    match textenc::utf8_to_string(bytes) {
        Some(s) => s,
        None => vstd::pervasive::unreached(),
    }
}

} // verus!
