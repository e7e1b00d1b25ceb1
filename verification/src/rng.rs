//! Random byte strings and random alphanumeric tokens.

use vstd::prelude::*;

use rand::RngExt;

use crate::textenc;

verus! {

/// True for the byte of an ASCII digit or letter.
pub open spec fn is_alnum_byte(b: u8) -> bool {
    (0x30 <= b <= 0x39) || (0x41 <= b <= 0x5a) || (0x61 <= b <= 0x7a)
}

/// True for an ASCII digit or letter.
pub open spec fn is_alnum_char(c: char) -> bool {
    ('0' <= c <= '9') || ('A' <= c <= 'Z') || ('a' <= c <= 'z')
}

/// True when the whole text is ASCII alphanumeric.
pub open spec fn is_alnum_chars(s: Seq<char>) -> bool {
    forall|i: int| 0 <= i < s.len() ==> is_alnum_char(#[trigger] s[i])
}

/// One uniformly random byte.
///
/// Relies on `rand::random::<u8>`; nothing is promised of the value.
#[verifier::external_body]
fn random_byte() -> u8 {
    rand::random::<u8>()
}

/// One random ASCII alphanumeric byte.
///
/// Relies on rand's `Alphanumeric` distribution: every sample is one of the
/// 62 bytes `0-9A-Za-z`.
#[verifier::external_body]
fn random_alnum_byte() -> (r: u8)
    ensures
        is_alnum_byte(r),
{
    rand::rng().sample(rand::distr::Alphanumeric)
}

/// A random byte string of the given length.
pub fn random(size: usize) -> (r: Vec<u8>)
    ensures
        r@.len() == size,
{
    let mut r: Vec<u8> = Vec::new();
    let mut i: usize = 0;
    while i < size
        invariant
            r@.len() == i <= size,
        decreases size - i,
    {
        r.push(random_byte());
        i = i + 1;
    }
    r
}

/// A random alphanumeric string of the given length.
pub fn random_an(len: usize) -> (r: String)
    ensures
        r@.len() == len,
        is_alnum_chars(r@),
{
    let mut bytes: Vec<u8> = Vec::new();
    let mut i: usize = 0;
    while i < len
        invariant
            bytes@.len() == i <= len,
            forall|j: int| 0 <= j < i ==> is_alnum_byte(#[trigger] bytes@[j]),
        decreases len - i,
    {
        bytes.push(random_alnum_byte());
        i = i + 1;
    }
    proof {
        assert(textenc::is_ascii_bytes(bytes@));
        textenc::lemma_ascii_bytes_decode(bytes@);
    }
    match textenc::utf8_to_string(bytes) {
        Some(s) => s,
        None => vstd::pervasive::unreached(),
    }
}

} // verus!
