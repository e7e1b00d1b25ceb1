//! Hexadecimal encoding and decoding of byte strings, exactly specified.

use vstd::prelude::*;

verus! {

/// The sixteen lowercase hex digits, in value order.
pub open spec fn hex_digits() -> Seq<char> {
    seq!['0', '1', '2', '3', '4', '5', '6', '7', '8', '9', 'a', 'b', 'c', 'd', 'e', 'f']
}

/// The numeric value of a hex digit, or 16 when `c` is no hex digit.
pub open spec fn hex_digit_val(c: char) -> nat {
    if '0' <= c <= '9' {
        (c as nat - '0' as nat) as nat
    } else if 'a' <= c <= 'f' {
        (c as nat - 'a' as nat + 10) as nat
    } else if 'A' <= c <= 'F' {
        (c as nat - 'A' as nat + 10) as nat
    } else {
        16
    }
}

pub open spec fn is_hex_digit(c: char) -> bool {
    hex_digit_val(c) < 16
}

/// True when `s` is a well-formed hex string: an even number of hex digits.
pub open spec fn is_hex(s: Seq<char>) -> bool {
    s.len() % 2 == 0 && forall|i: int| 0 <= i < s.len() ==> is_hex_digit(#[trigger] s[i])
}

/// The bytes a hex string denotes, two digits per byte, high digit first.
pub open spec fn hex_decoded(s: Seq<char>) -> Seq<u8> {
    Seq::new(
        s.len() / 2,
        |i: int| (hex_digit_val(s[2 * i]) * 16 + hex_digit_val(s[2 * i + 1])) as u8,
    )
}

/// The lowercase hex encoding of a byte string, two digits per byte.
pub open spec fn hex_encoded(b: Seq<u8>) -> Seq<char> {
    Seq::new(
        2 * b.len(),
        |i: int|
            if i % 2 == 0 {
                hex_digits()[b[i / 2] as int / 16]
            } else {
                hex_digits()[b[i / 2] as int % 16]
            },
    )
}

/// Encodes bytes as lowercase hex.
///
/// Relies on `hex::encode`: two lowercase hex digits per byte, high digit
/// first, bytes in order.
#[verifier::external_body]
pub fn hex_encode(b: &[u8]) -> (r: String)
    ensures
        r@ == hex_encoded(b@),
{
    hex::encode(b)
}

/// Decodes a hex string to bytes.
///
/// Relies on `hex::decode`: succeeds exactly on an even count of hex digits
/// of either case, and pairs digits high-first into bytes.
#[verifier::external_body]
pub fn hex_decode(s: &str) -> (r: Option<Vec<u8>>)
    ensures
        r is Some <==> is_hex(s@),
        r matches Some(b) ==> b@ == hex_decoded(s@),
{
    hex::decode(s).ok()
}

/// Every encoded digit is a lowercase hex digit with the byte's value.
pub proof fn lemma_hex_digits()
    ensures
        forall|v: int| 0 <= v < 16 ==> hex_digit_val(#[trigger] hex_digits()[v]) == v,
        forall|v: int| 0 <= v < 16 ==> (#[trigger] hex_digits()[v]) < 0x80,
{
    assert forall|v: int| 0 <= v < 16 implies hex_digit_val(#[trigger] hex_digits()[v]) == v && (
    hex_digits()[v]) < 0x80 by {
        if v < 10 {
            assert(hex_digits()[v] == seq![
                '0',
                '1',
                '2',
                '3',
                '4',
                '5',
                '6',
                '7',
                '8',
                '9',
            ][v]);
        }
    }
}

/// Decoding inverts encoding: the hex encoding of any byte string is
/// well-formed hex and decodes to the same bytes.
pub proof fn lemma_hex_round_trip(b: Seq<u8>)
    ensures
        is_hex(hex_encoded(b)),
        hex_decoded(hex_encoded(b)) == b,
{
    lemma_hex_digits();
    let s = hex_encoded(b);
    assert forall|i: int| 0 <= i < s.len() implies is_hex_digit(#[trigger] s[i]) by {
        assert(0 <= b[i / 2] / 16 < 16 && 0 <= b[i / 2] % 16 < 16);
    }
    assert forall|i: int| 0 <= i < b.len() implies #[trigger] hex_decoded(s)[i] == b[i] by {
        assert(s[2 * i] == hex_digits()[b[i] as int / 16]);
        assert(s[2 * i + 1] == hex_digits()[b[i] as int % 16]);
        assert(hex_digit_val(s[2 * i]) * 16 + hex_digit_val(s[2 * i + 1]) == (b[i] as int / 16) * 16
            + b[i] as int % 16);
    }
    assert(hex_decoded(s) =~= b);
}

/// Hex encodings are ASCII.
pub proof fn lemma_hex_encoded_ascii(b: Seq<u8>)
    ensures
        vstd::utf8::is_ascii_chars(hex_encoded(b)),
{
    lemma_hex_digits();
    assert forall|i: int| 0 <= i < hex_encoded(b).len() implies '\0' <= #[trigger] hex_encoded(
        b,
    )[i] <= '\u{7f}' by {
        assert(0 <= b[i / 2] / 16 < 16 && 0 <= b[i / 2] % 16 < 16);
    }
}

} // verus!
