//! Helpers the management API layer uses on a request's header map: typed
//! lookups and the JSON error body.

use vstd::prelude::*;
use vstd::utf8::encode_utf8;

use crate::fail::Fail;
use crate::kvmap::KvMap;
use crate::rng::is_alnum_char;

verus! {

/// A request's header map: header name to value.
pub type Headers = KvMap<String>;

/// The value under `key`, or `Fail::Missing` naming the key.
pub fn get_str<'a>(data: &'a Headers, key: &str) -> (r: Result<&'a String, Fail>)
    requires
        data.wf(),
    ensures
        r is Ok <==> data@.dom().contains(key@),
        r matches Ok(v) ==> *v == data@[key@],
        r matches Err(e) ==> (e matches Fail::Missing(k) && k@ == key@),
{
    match data.get(key) {
        Some(v) => Ok(v),
        None => Err(Fail::Missing(key.to_owned())),
    }
}

/// The numeric value of a decimal digit, and 0 for any other character.
pub open spec fn digit_val(c: char) -> nat {
    if '0' <= c <= '9' {
        (c as nat - '0' as nat) as nat
    } else {
        0
    }
}

/// True when `s` is one or more decimal digits.
pub open spec fn is_digits(s: Seq<char>) -> bool {
    s.len() > 0 && forall|i: int| 0 <= i < s.len() ==> '0' <= #[trigger] s[i] <= '9'
}

/// The number the digit string denotes.
pub open spec fn dec_val(s: Seq<char>) -> nat
    decreases s.len(),
{
    if s.len() == 0 {
        0
    } else {
        (dec_val(s.drop_last()) * 10 + digit_val(s.last())) as nat
    }
}

/// The digits after an optional leading plus sign.
pub open spec fn strip_plus(s: Seq<char>) -> Seq<char> {
    if s.len() > 0 && s[0] == '+' {
        s.drop_first()
    } else {
        s
    }
}

/// True when `s` parses as a `u64`: an optional plus sign, then digits, with
/// a value that fits.
pub open spec fn parses_u64(s: Seq<char>) -> bool {
    is_digits(strip_plus(s)) && dec_val(strip_plus(s)) <= u64::MAX
}

/// A longer digit string never denotes a smaller number.
proof fn lemma_dec_val_prefix(s: Seq<char>, k: int)
    requires
        0 <= k <= s.len(),
    ensures
        dec_val(s.take(k)) <= dec_val(s),
    decreases s.len() - k,
{
    if k < s.len() {
        lemma_dec_val_prefix(s, k + 1);
        assert(s.take(k + 1).drop_last() =~= s.take(k));
        assert(dec_val(s.take(k + 1)) == dec_val(s.take(k)) * 10 + digit_val(s[k]));
    } else {
        assert(s.take(k) =~= s);
    }
}

/// Parses a `u64` from decimal text: an optional plus sign and digits,
/// rejecting anything else and values that overflow.
pub fn parse_u64(s: &str) -> (r: Option<u64>)
    ensures
        r is Some <==> parses_u64(s@),
        r matches Some(v) ==> v == dec_val(strip_plus(s@)),
{
    let n = s.unicode_len();
    let start: usize = if n > 0 && s.get_char(0) == '+' {
        1
    } else {
        0
    };
    let ghost digits = strip_plus(s@);
    proof {
        assert(digits =~= s@.subrange(start as int, n as int));
    }
    if n == start {
        return None;
    }
    let mut v: u64 = 0;
    let mut i: usize = start;
    while i < n
        invariant
            start <= i <= n,
            n == s@.len(),
            digits == s@.subrange(start as int, n as int),
            digits == strip_plus(s@),
            digits.len() > 0,
            forall|j: int| 0 <= j < i - start ==> '0' <= #[trigger] digits[j] <= '9',
            v == dec_val(digits.take(i - start)),
        decreases n - i,
    {
        let c = s.get_char(i);
        let cu = c as u32;
        if cu < 0x30 || cu > 0x39 {
            proof {
                assert(digits[i - start] == c);
                assert(!('0' <= digits[i - start] <= '9'));
                assert(!is_digits(digits));
            }
            return None;
        }
        let d: u64 = (cu - 0x30) as u64;
        proof {
            assert(digits.take(i + 1 - start).drop_last() =~= digits.take(i - start));
            assert(digits[i - start] == c);
            assert(dec_val(digits.take(i + 1 - start)) == v * 10 + d);
        }
        if v > (u64::MAX - d) / 10 {
            proof {
                lemma_dec_val_prefix(digits, i + 1 - start);
                assert(v * 10 + d > u64::MAX) by (nonlinear_arith)
                    requires
                        d < 10,
                        v > (u64::MAX - d) / 10,
                ;
            }
            return None;
        }
        v = v * 10 + d;
        i = i + 1;
    }
    proof {
        assert(digits.take(n - start) =~= digits);
    }
    Some(v)
}

/// The value under `key` read as a `u64`: `Fail::Missing` without it,
/// `Fail::NotANumber` naming the key when it does not parse.
pub fn get(data: &Headers, key: &str) -> (r: Result<u64, Fail>)
    requires
        data.wf(),
    ensures
        r is Ok <==> data@.dom().contains(key@) && parses_u64(data@[key@]@),
        r matches Ok(v) ==> v == dec_val(strip_plus(data@[key@]@)),
        !data@.dom().contains(key@) ==> (r matches Err(e) && (e matches Fail::Missing(k) && k@
            == key@)),
        data@.dom().contains(key@) && !parses_u64(data@[key@]@) ==> (r matches Err(e) && (e matches
            Fail::NotANumber(k) && k@ == key@)),
{
    let v = get_str(data, key)?;
    match parse_u64(v.as_str()) {
        Some(x) => Ok(x),
        None => Err(Fail::NotANumber(key.to_owned())),
    }
}

/// What `char::is_alphanumeric` answers: whether the character is a Unicode
/// letter or digit.
pub uninterp spec fn unicode_alnum(c: char) -> bool;

/// Whether one character is alphanumeric.
///
/// Relies on `char::is_alphanumeric`: a property of the character alone;
/// among ASCII, exactly the digits and letters qualify.
#[verifier::external_body]
fn char_alphanumeric(c: char) -> (r: bool)
    ensures
        r == unicode_alnum(c),
        c <= '\u{7f}' ==> r == is_alnum_char(c),
{
    c.is_alphanumeric()
}

/// True when every character of `s` is alphanumeric.
pub open spec fn all_alnum(s: Seq<char>) -> bool {
    forall|i: int| 0 <= i < s.len() ==> unicode_alnum(#[trigger] s[i])
}

/// The value under `key`, required to be alphanumeric throughout:
/// `Fail::Missing` without it, `Fail::NotAlphanumeric` naming the key when
/// any character is not.
pub fn get_an<'a>(data: &'a Headers, key: &str) -> (r: Result<&'a String, Fail>)
    requires
        data.wf(),
    ensures
        r is Ok <==> data@.dom().contains(key@) && all_alnum(data@[key@]@),
        r matches Ok(v) ==> *v == data@[key@],
        !data@.dom().contains(key@) ==> (r matches Err(e) && (e matches Fail::Missing(k) && k@
            == key@)),
        data@.dom().contains(key@) && !all_alnum(data@[key@]@) ==> (r matches Err(e) && (e matches
            Fail::NotAlphanumeric(k) && k@ == key@)),
{
    let v = get_str(data, key)?;
    let s = v.as_str();
    let n = s.unicode_len();
    let mut i: usize = 0;
    while i < n
        invariant
            n == s@.len(),
            0 <= i <= n,
            data@.dom().contains(key@),
            s@ == data@[key@]@,
            forall|j: int| 0 <= j < i ==> unicode_alnum(#[trigger] s@[j]),
        decreases n - i,
    {
        if !char_alphanumeric(s.get_char(i)) {
            return Err(Fail::NotAlphanumeric(key.to_owned()));
        }
        i = i + 1;
    }
    Ok(v)
}

/// The user name header, required to be alphanumeric.
pub fn get_username<'a>(data: &'a Headers) -> (r: Result<&'a String, Fail>)
    requires
        data.wf(),
    ensures
        r is Ok <==> data@.dom().contains("username"@) && all_alnum(data@["username"@]@),
        r matches Ok(v) ==> *v == data@["username"@],
{
    get_an(data, "username")
}

/// One escaped byte of a JSON string: quote and backslash get a backslash,
/// control bytes become `\u00XX`, everything else stands as it is.
pub open spec fn json_escaped_byte(b: u8) -> Seq<u8> {
    if b == 0x22 || b == 0x5c {
        seq![0x5cu8, b]
    } else if b < 0x20 {
        seq![
            0x5cu8,
            0x75u8,
            0x30u8,
            0x30u8,
            hex_digit_byte((b / 16) as nat),
            hex_digit_byte((b % 16) as nat),
        ]
    } else {
        seq![b]
    }
}

/// The ASCII byte of a lowercase hex digit.
pub open spec fn hex_digit_byte(d: nat) -> u8 {
    if d < 10 {
        (0x30 + d) as u8
    } else {
        (0x57 + d) as u8
    }
}

/// A byte string escaped for a JSON string literal.
pub open spec fn json_escaped(s: Seq<u8>) -> Seq<u8>
    decreases s.len(),
{
    if s.len() == 0 {
        Seq::empty()
    } else {
        json_escaped(s.drop_last()) + json_escaped_byte(s.last())
    }
}

/// Renders an error message as the UTF-8 bytes of the JSON object
/// `{"error":"<message>"}`, with the message escaped.
pub fn json_error(err: &str) -> (r: Vec<u8>)
    ensures
        r@ == encode_utf8("{\"error\":\""@) + json_escaped(encode_utf8(err@)) + encode_utf8(
            "\"}"@,
        ),
{
    let mut r: Vec<u8> = Vec::new();
    r.extend_from_slice("{\"error\":\"".as_bytes());
    let b = err.as_bytes();
    let n = b.len();
    let ghost prefix = encode_utf8("{\"error\":\""@);
    let mut i: usize = 0;
    while i < n
        invariant
            n == b@.len(),
            0 <= i <= n,
            r@ == prefix + json_escaped(b@.take(i as int)),
        decreases n - i,
    {
        proof {
            assert(b@.take(i + 1).drop_last() =~= b@.take(i as int));
            assert(b@.take(i + 1).last() == b@[i as int]);
        }
        let x = b[i];
        if x == 0x22 || x == 0x5c {
            r.push(0x5c);
            r.push(x);
        } else if x < 0x20 {
            r.push(0x5c);
            r.push(0x75);
            r.push(0x30);
            r.push(0x30);
            let hi = x / 16;
            let lo = x % 16;
            r.push(
                if hi < 10 {
                    0x30 + hi
                } else {
                    0x57 + hi
                },
            );
            r.push(
                if lo < 10 {
                    0x30 + lo
                } else {
                    0x57 + lo
                },
            );
        } else {
            r.push(x);
        }
        proof {
            assert(r@ =~= prefix + json_escaped(b@.take(i + 1)));
        }
        i = i + 1;
    }
    proof {
        assert(b@.take(n as int) =~= b@);
    }
    r.extend_from_slice("\"}".as_bytes());
    r
}

} // verus!
