//! Big-endian integer encodings used by the wire format: the 8-byte frame
//! length prefix, the 2-byte port advertisement, and the 8-byte fields of a
//! telemetry record.

use vstd::prelude::*;

verus! {

/// The value of a byte sequence read as a big-endian integer.
pub open spec fn be_val(s: Seq<u8>) -> nat
    decreases s.len(),
{
    if s.len() == 0 {
        0
    } else {
        (be_val(s.drop_last()) * 256 + s.last()) as nat
    }
}

/// The `n`-byte big-endian encoding of `x` (the low `n` base-256 digits).
pub open spec fn be_bytes(x: nat, n: nat) -> Seq<u8>
    decreases n,
{
    if n == 0 {
        Seq::empty()
    } else {
        be_bytes(x / 256, (n - 1) as nat).push((x % 256) as u8)
    }
}

/// 256 to the power `n`.
pub open spec fn pow256(n: nat) -> nat
    decreases n,
{
    if n == 0 {
        1
    } else {
        256 * pow256((n - 1) as nat)
    }
}

pub proof fn lemma_pow256_8()
    ensures
        pow256(2) == 0x1_0000,
        pow256(8) == 0x1_0000_0000_0000_0000,
{
    reveal_with_fuel(pow256, 9);
}

proof fn lemma_pow256_le(m: nat, n: nat)
    requires
        m <= n,
    ensures
        pow256(m) <= pow256(n),
    decreases n,
{
    if m < n {
        lemma_pow256_le(m, (n - 1) as nat);
    }
}

pub proof fn lemma_be_bytes_len(x: nat, n: nat)
    ensures
        be_bytes(x, n).len() == n,
    decreases n,
{
    if n > 0 {
        lemma_be_bytes_len(x / 256, (n - 1) as nat);
    }
}

/// A big-endian value is bounded by 256 to the length.
pub proof fn lemma_be_val_bound(s: Seq<u8>)
    ensures
        be_val(s) < pow256(s.len()),
    decreases s.len(),
{
    if s.len() > 0 {
        lemma_be_val_bound(s.drop_last());
        assert(be_val(s.drop_last()) * 256 + s.last() < pow256(s.len())) by (nonlinear_arith)
            requires
                be_val(s.drop_last()) < pow256((s.len() - 1) as nat),
                s.last() < 256,
                pow256(s.len()) == 256 * pow256((s.len() - 1) as nat),
        ;
    }
}

/// Decoding inverts encoding: reading the `n`-byte big-endian encoding of a
/// value below 256^n gives that value back.
pub proof fn lemma_be_val_be_bytes(x: nat, n: nat)
    requires
        x < pow256(n),
    ensures
        be_val(be_bytes(x, n)) == x,
    decreases n,
{
    if n > 0 {
        lemma_be_bytes_len(x / 256, (n - 1) as nat);
        assert(be_bytes(x, n).drop_last() =~= be_bytes(x / 256, (n - 1) as nat));
        assert(x / 256 < pow256((n - 1) as nat) && x == (x / 256) * 256 + x % 256)
            by (nonlinear_arith)
            requires
                x < 256 * pow256((n - 1) as nat),
        ;
        lemma_be_val_be_bytes(x / 256, (n - 1) as nat);
    }
}

/// The 8-byte big-endian encoding of a `u64`.
pub fn u64_to_be(x: u64) -> (r: Vec<u8>)
    ensures
        r@ == be_bytes(x as nat, 8),
        r@.len() == 8,
        be_val(r@) == x,
{
    let q1: u64 = x / 256;
    let q2: u64 = q1 / 256;
    let q3: u64 = q2 / 256;
    let q4: u64 = q3 / 256;
    let q5: u64 = q4 / 256;
    let q6: u64 = q5 / 256;
    let q7: u64 = q6 / 256;
    let mut r: Vec<u8> = Vec::new();
    r.push((q7 % 256) as u8);
    r.push((q6 % 256) as u8);
    r.push((q5 % 256) as u8);
    r.push((q4 % 256) as u8);
    r.push((q3 % 256) as u8);
    r.push((q2 % 256) as u8);
    r.push((q1 % 256) as u8);
    r.push((x % 256) as u8);
    proof {
        reveal_with_fuel(be_bytes, 9);
        assert(q7 / 256 == 0);
        assert(r@ =~= be_bytes(x as nat, 8));
        lemma_pow256_8();
        lemma_be_val_be_bytes(x as nat, 8);
    }
    r
}

/// The 2-byte big-endian encoding of a `u16`.
pub fn u16_to_be(x: u16) -> (r: Vec<u8>)
    ensures
        r@ == be_bytes(x as nat, 2),
        r@.len() == 2,
        be_val(r@) == x,
{
    let q1: u16 = x / 256;
    let mut r: Vec<u8> = Vec::new();
    r.push((q1 % 256) as u8);
    r.push((x % 256) as u8);
    proof {
        reveal_with_fuel(be_bytes, 3);
        assert(q1 / 256 == 0);
        assert(r@ =~= be_bytes(x as nat, 2));
        lemma_pow256_8();
        lemma_be_val_be_bytes(x as nat, 2);
    }
    r
}

/// Reads 8 bytes as a big-endian `u64`.
pub fn u64_from_be(s: &[u8]) -> (r: u64)
    requires
        s@.len() == 8,
    ensures
        r == be_val(s@),
{
    let mut r: u64 = 0;
    let mut i: usize = 0;
    while i < 8
        invariant
            0 <= i <= 8,
            s@.len() == 8,
            r == be_val(s@.take(i as int)),
            r < pow256(i as nat),
        decreases 8 - i,
    {
        let b = s[i];
        proof {
            assert(s@.take(i + 1).drop_last() =~= s@.take(i as int));
            assert(s@.take(i + 1).last() == s@[i as int]);
            assert(r * 256 + b < pow256((i + 1) as nat)) by (nonlinear_arith)
                requires
                    r < pow256(i as nat),
                    b < 256,
                    pow256((i + 1) as nat) == 256 * pow256(i as nat),
            ;
            lemma_pow256_le((i + 1) as nat, 8);
            lemma_pow256_8();
        }
        r = r * 256 + (b as u64);
        i = i + 1;
    }
    proof {
        assert(s@.take(8) =~= s@);
    }
    r
}

/// Whether two byte strings hold the same bytes.
pub fn bytes_eq(a: &[u8], b: &[u8]) -> (r: bool)
    ensures
        r == (a@ == b@),
{
    if a.len() != b.len() {
        proof {
            assert(a@ != b@);
        }
        return false;
    }
    let n = a.len();
    let mut i: usize = 0;
    while i < n
        invariant
            n == a@.len() == b@.len(),
            0 <= i <= n,
            forall|j: int| 0 <= j < i ==> a@[j] == b@[j],
        decreases n - i,
    {
        if a[i] != b[i] {
            return false;
        }
        i = i + 1;
    }
    proof {
        assert(a@ =~= b@);
    }
    true
}

/// Reads 2 bytes as a big-endian `u16`.
pub fn u16_from_be(s: &[u8]) -> (r: u16)
    requires
        s@.len() == 2,
    ensures
        r == be_val(s@),
{
    let b0 = s[0];
    let b1 = s[1];
    let r: u16 = (b0 as u16) * 256 + (b1 as u16);
    proof {
        reveal_with_fuel(be_val, 3);
        assert(s@.take(1).drop_last() =~= Seq::<u8>::empty());
        assert(s@.take(1).last() == s@[0]);
        assert(s@.drop_last() =~= s@.take(1));
        assert(be_val(s@.take(1)) == s@[0]);
    }
    r
}

} // verus!
