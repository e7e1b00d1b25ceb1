//! Conversions between bytes and text at the edges of the wire format, and
//! facts about ASCII byte sequences.

use vstd::prelude::*;
use vstd::utf8::{decode_utf8, encode_utf8, valid_utf8};

use crate::fail::Fail;

verus! {

/// True when every byte is ASCII.
pub open spec fn is_ascii_bytes(b: Seq<u8>) -> bool {
    forall|i: int| 0 <= i < b.len() ==> #[trigger] b[i] < 0x80
}

/// ASCII bytes are valid UTF-8 and decode byte-for-byte to chars.
pub proof fn lemma_ascii_bytes_decode(b: Seq<u8>)
    requires
        is_ascii_bytes(b),
    ensures
        valid_utf8(b),
        decode_utf8(b).len() == b.len(),
        forall|i: int| 0 <= i < b.len() ==> #[trigger] decode_utf8(b)[i] == b[i] as char,
    decreases b.len(),
{
    if b.len() > 0 {
        let b0 = b[0];
        assert(b0 & 0x7f == b0) by (bit_vector)
            requires
                b0 < 0x80,
        ;
        assert(vstd::utf8::decode_first_scalar(b) == b0 as u32);
        assert(vstd::utf8::valid_first_scalar(b));
        let rest = vstd::utf8::pop_first_scalar(b);
        assert(rest =~= b.subrange(1, b.len() as int));
        lemma_ascii_bytes_decode(rest);
        assert(valid_utf8(b));
        assert(decode_utf8(b) == seq![vstd::utf8::decode_first_scalar(b) as char] + decode_utf8(
            rest,
        ));
        assert(decode_utf8(b)[0] == (b0 as u32) as char && (b0 as u32) as char == b0 as char);
        assert forall|i: int| 0 <= i < b.len() implies #[trigger] decode_utf8(b)[i] == b[
            i
        ] as char by {
            if i > 0 {
                assert(decode_utf8(b)[i] == decode_utf8(rest)[i - 1]);
                assert(rest[i - 1] == b[i]);
            }
        }
    }
}

/// Whether two texts are the same sequence of characters, decided on their
/// UTF-8 bytes.
pub fn str_eq(a: &str, b: &str) -> (r: bool)
    ensures
        r == (a@ == b@),
{
    proof {
        vstd::utf8::encode_utf8_decode_utf8(a@);
        vstd::utf8::encode_utf8_decode_utf8(b@);
    }
    let ab = a.as_bytes();
    let bb = b.as_bytes();
    if ab.len() != bb.len() {
        return false;
    }
    let n = ab.len();
    let mut i: usize = 0;
    while i < n
        invariant
            n == ab@.len() == bb@.len(),
            ab@ == encode_utf8(a@),
            bb@ == encode_utf8(b@),
            0 <= i <= n,
            forall|j: int| 0 <= j < i ==> ab@[j] == bb@[j],
        decreases n - i,
    {
        if ab[i] != bb[i] {
            return false;
        }
        i = i + 1;
    }
    proof {
        assert(ab@ =~= bb@);
        assert(decode_utf8(encode_utf8(a@)) == decode_utf8(encode_utf8(b@)));
    }
    true
}

/// Turns bytes into the text they encode.
///
/// Relies on `String::from_utf8`: succeeds exactly on valid UTF-8 and returns
/// the text those bytes encode.
#[verifier::external_body]
pub(crate) fn utf8_to_string(b: Vec<u8>) -> (r: Option<String>)
    ensures
        r is Some <==> valid_utf8(b@),
        r matches Some(s) ==> s@ == decode_utf8(b@) && encode_utf8(s@) == b@,
{
    String::from_utf8(b).ok()
}

/// What `String::from_utf8_lossy` makes of a byte sequence: the text itself
/// where the bytes are valid UTF-8, with invalid parts replaced.
pub uninterp spec fn lossy_decode(b: Seq<u8>) -> Seq<char>;

/// Turns bytes into text, substituting the replacement character for
/// ill-formed parts.
///
/// Relies on `String::from_utf8_lossy`: deterministic in the bytes alone, and
/// the identity decoding on valid UTF-8.
#[verifier::external_body]
pub(crate) fn utf8_lossy(b: &[u8]) -> (r: String)
    ensures
        r@ == lossy_decode(b@),
        valid_utf8(b@) ==> r@ == decode_utf8(b@),
{
    String::from_utf8_lossy(b).into_owned()
}

/// Turns bytes into text, or reports `Fail::NotUtf8`: the fallible edge used
/// where the wire hands the logic a tag or a name.
pub fn text_of_bytes(b: Vec<u8>) -> (r: Result<String, Fail>)
    ensures
        r is Ok <==> valid_utf8(b@),
        r matches Ok(s) ==> s@ == decode_utf8(b@) && encode_utf8(s@) == b@,
        r is Err ==> r == Err::<String, Fail>(Fail::NotUtf8),
{
    match utf8_to_string(b) {
        Some(s) => Ok(s),
        None => Err(Fail::NotUtf8),
    }
}

} // verus!
