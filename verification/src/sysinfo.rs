//! Parsers for the host data the telemetry client samples: CPU jiffies from
//! the kernel's stat table, memory from its meminfo table, and disk space
//! from the disk-free tool's output. The sampler reads the files and runs
//! the tool; the functions here turn the raw bytes into numbers.

use vstd::prelude::*;

use crate::fail::Fail;

verus! {

/// ASCII whitespace, as tokenization by whitespace sees it.
pub open spec fn is_ws(b: u8) -> bool {
    b == 0x20 || b == 0x09 || b == 0x0a || b == 0x0c || b == 0x0d
}

pub open spec fn is_digit_b(b: u8) -> bool {
    0x30 <= b <= 0x39
}

/// The numeric value of a decimal digit byte, and 0 for any other byte.
pub open spec fn digit_b(b: u8) -> nat {
    if is_digit_b(b) {
        (b - 0x30) as nat
    } else {
        0
    }
}

/// The number a digit-byte string denotes.
pub open spec fn dec_val_b(s: Seq<u8>) -> nat
    decreases s.len(),
{
    if s.len() == 0 {
        0
    } else {
        (dec_val_b(s.drop_last()) * 10 + digit_b(s.last())) as nat
    }
}

pub open spec fn is_digits_b(s: Seq<u8>) -> bool {
    s.len() > 0 && forall|i: int| 0 <= i < s.len() ==> is_digit_b(#[trigger] s[i])
}

/// The digits after an optional leading plus sign.
pub open spec fn strip_plus_b(s: Seq<u8>) -> Seq<u8> {
    if s.len() > 0 && s[0] == 0x2b {
        s.drop_first()
    } else {
        s
    }
}

/// True when the bytes parse as a `u64`.
pub open spec fn parses_u64_b(s: Seq<u8>) -> bool {
    is_digits_b(strip_plus_b(s)) && dec_val_b(strip_plus_b(s)) <= u64::MAX
}

/// The `u64` the bytes denote.
pub open spec fn val_b(s: Seq<u8>) -> nat {
    dec_val_b(strip_plus_b(s))
}

proof fn lemma_dec_val_b_prefix(s: Seq<u8>, k: int)
    requires
        0 <= k <= s.len(),
    ensures
        dec_val_b(s.take(k)) <= dec_val_b(s),
    decreases s.len() - k,
{
    if k < s.len() {
        lemma_dec_val_b_prefix(s, k + 1);
        assert(s.take(k + 1).drop_last() =~= s.take(k));
        assert(dec_val_b(s.take(k + 1)) == dec_val_b(s.take(k)) * 10 + digit_b(s[k]));
    } else {
        assert(s.take(k) =~= s);
    }
}

/// Parses a `u64` from decimal bytes: an optional plus sign and digits,
/// rejecting anything else and values that overflow.
pub fn parse_u64_b(s: &[u8]) -> (r: Option<u64>)
    ensures
        r is Some <==> parses_u64_b(s@),
        r matches Some(v) ==> v == val_b(s@),
{
    let n = s.len();
    let start: usize = if n > 0 && s[0] == 0x2b {
        1
    } else {
        0
    };
    let ghost digits = strip_plus_b(s@);
    proof {
        assert(digits =~= s@.subrange(start as int, n as int));
    }
    if n == start {
        return None;
    }
    let mut v: u64 = 0;
    let mut i: usize = start;
    while i < n
        invariant
            start <= i <= n,
            n == s@.len(),
            digits == s@.subrange(start as int, n as int),
            digits == strip_plus_b(s@),
            digits.len() > 0,
            forall|j: int| 0 <= j < i - start ==> is_digit_b(#[trigger] digits[j]),
            v == dec_val_b(digits.take(i - start)),
        decreases n - i,
    {
        let b = s[i];
        if b < 0x30 || b > 0x39 {
            proof {
                assert(digits[i - start] == b);
                assert(!is_digits_b(digits));
            }
            return None;
        }
        let d: u64 = (b - 0x30) as u64;
        proof {
            assert(digits.take(i + 1 - start).drop_last() =~= digits.take(i - start));
            assert(digits[i - start] == b);
            assert(dec_val_b(digits.take(i + 1 - start)) == v * 10 + d);
        }
        if v > (u64::MAX - d) / 10 {
            proof {
                lemma_dec_val_b_prefix(digits, i + 1 - start);
                assert(v * 10 + d > u64::MAX) by (nonlinear_arith)
                    requires
                        d < 10,
                        v > (u64::MAX - d) / 10,
                ;
            }
            return None;
        }
        v = v * 10 + d;
        i = i + 1;
    }
    proof {
        assert(digits.take(n - start) =~= digits);
    }
    Some(v)
}

/// The length of the leading whitespace-free run.
pub open spec fn token_len(s: Seq<u8>) -> nat
    decreases s.len(),
{
    if s.len() == 0 || is_ws(s[0]) {
        0
    } else {
        1 + token_len(s.drop_first())
    }
}

proof fn lemma_token_len(s: Seq<u8>)
    ensures
        token_len(s) <= s.len(),
        forall|j: int| 0 <= j < token_len(s) ==> !is_ws(#[trigger] s[j]),
        token_len(s) < s.len() ==> is_ws(s[token_len(s) as int]),
    decreases s.len(),
{
    if s.len() > 0 && !is_ws(s[0]) {
        lemma_token_len(s.drop_first());
        assert forall|j: int| 0 <= j < token_len(s) implies !is_ws(#[trigger] s[j]) by {
            if j > 0 {
                assert(s.drop_first()[j - 1] == s[j]);
            }
        }
    }
}

/// Where a token known to span `[0, k)` and stop there ends.
proof fn lemma_token_len_value(s: Seq<u8>, k: int)
    requires
        0 <= k <= s.len(),
        forall|j: int| 0 <= j < k ==> !is_ws(#[trigger] s[j]),
        k == s.len() || is_ws(s[k]),
    ensures
        token_len(s) == k,
    decreases k,
{
    if k == 0 {
    } else {
        assert(s.drop_first() =~= s.subrange(1, s.len() as int));
        lemma_token_len_value(s.drop_first(), k - 1);
    }
}

/// The maximal whitespace-separated tokens of `s`, in order.
pub open spec fn split_ws(s: Seq<u8>) -> Seq<Seq<u8>>
    decreases s.len(),
    via split_ws_dec
{
    if s.len() == 0 {
        Seq::empty()
    } else if is_ws(s[0]) {
        split_ws(s.drop_first())
    } else {
        seq![s.take(token_len(s) as int)] + split_ws(s.skip(token_len(s) as int))
    }
}

#[via_fn]
proof fn split_ws_dec(s: Seq<u8>) {
    if s.len() > 0 && !is_ws(s[0]) {
        lemma_token_len(s);
    }
}

/// Splits bytes into their whitespace-separated tokens.
pub fn split_tokens(s: &[u8]) -> (r: Vec<Vec<u8>>)
    ensures
        r@.map_values(|t: Vec<u8>| t@) == split_ws(s@),
{
    let n = s.len();
    let mut r: Vec<Vec<u8>> = Vec::new();
    let mut p: usize = 0;
    proof {
        assert(s@.skip(0) =~= s@);
        assert(r@.map_values(|t: Vec<u8>| t@) + split_ws(s@) =~= split_ws(s@));
    }
    while p < n
        invariant
            0 <= p <= n,
            n == s@.len(),
            split_ws(s@) == r@.map_values(|t: Vec<u8>| t@) + split_ws(s@.skip(p as int)),
        decreases n - p,
    {
        let b = s[p];
        if b == 0x20 || b == 0x09 || b == 0x0a || b == 0x0c || b == 0x0d {
            proof {
                assert(s@.skip(p as int).drop_first() =~= s@.skip(p + 1));
            }
            p = p + 1;
        } else {
            let mut q: usize = p + 1;
            while q < n && !(s[q] == 0x20 || s[q] == 0x09 || s[q] == 0x0a || s[q] == 0x0c || s[q]
                == 0x0d)
                invariant
                    p < q <= n,
                    n == s@.len(),
                    forall|j: int| p < j < q ==> !is_ws(#[trigger] s@[j]),
                decreases n - q,
            {
                q = q + 1;
            }
            let ghost r0 = r@;
            let ghost rest = s@.skip(p as int);
            proof {
                assert(!is_ws(rest[0]));
                assert forall|j: int| 0 <= j < q - p implies !is_ws(#[trigger] rest[j]) by {
                    assert(rest[j] == s@[p + j]);
                }
                if q < n {
                    assert(rest[q - p] == s@[q as int]);
                }
                lemma_token_len_value(rest, q - p);
                assert(rest.take(q - p) =~= s@.subrange(p as int, q as int));
                assert(rest.skip(q - p) =~= s@.skip(q as int));
            }
            let tok = vstd::slice::slice_to_vec(vstd::slice::slice_subrange(s, p, q));
            r.push(tok);
            proof {
                assert(r@.map_values(|t: Vec<u8>| t@) =~= r0.map_values(|t: Vec<u8>| t@).push(
                    s@.subrange(p as int, q as int),
                ));
                assert(split_ws(rest) == seq![s@.subrange(p as int, q as int)] + split_ws(
                    s@.skip(q as int),
                ));
                assert(r0.map_values(|t: Vec<u8>| t@) + split_ws(rest) =~= r@.map_values(
                    |t: Vec<u8>| t@,
                ) + split_ws(s@.skip(q as int)));
            }
            p = q;
        }
    }
    proof {
        assert(s@.skip(n as int) =~= Seq::<u8>::empty());
        assert(r@.map_values(|t: Vec<u8>| t@) + split_ws(s@.skip(n as int)) =~= r@.map_values(
            |t: Vec<u8>| t@,
        ));
    }
    r
}

/// The length of the leading run without a newline: where the first line
/// ends.
pub open spec fn line_end(s: Seq<u8>) -> nat
    decreases s.len(),
{
    if s.len() == 0 || s[0] == 0x0a {
        0
    } else {
        1 + line_end(s.drop_first())
    }
}

proof fn lemma_line_end_value(s: Seq<u8>, k: int)
    requires
        0 <= k <= s.len(),
        forall|j: int| 0 <= j < k ==> s[j] != 0x0a,
        k == s.len() || s[k] == 0x0a,
    ensures
        line_end(s) == k,
    decreases k,
{
    if k > 0 {
        assert(s.drop_first() =~= s.subrange(1, s.len() as int));
        lemma_line_end_value(s.drop_first(), k - 1);
    }
}

/// Finds the end of the line beginning at `from`: the index of the next
/// newline byte, or the end of the input.
fn scan_line_end(s: &[u8], from: usize) -> (r: usize)
    requires
        from <= s@.len(),
    ensures
        from <= r <= s@.len(),
        r - from == line_end(s@.skip(from as int)),
        forall|j: int| from <= j < r ==> s@[j] != 0x0a,
        r < s@.len() ==> s@[r as int] == 0x0a,
{
    let n = s.len();
    let mut q: usize = from;
    while q < n && s[q] != 0x0a
        invariant
            from <= q <= n,
            n == s@.len(),
            forall|j: int| from <= j < q ==> s@[j] != 0x0a,
        decreases n - q,
    {
        q = q + 1;
    }
    proof {
        let rest = s@.skip(from as int);
        assert forall|j: int| 0 <= j < q - from implies rest[j] != 0x0a by {
            assert(rest[j] == s@[from + j]);
        }
        if q < n {
            assert(rest[q - from] == s@[q as int]);
        }
        lemma_line_end_value(rest, q - from);
    }
    q
}

/// True when every token parses as a `u64`.
pub open spec fn all_parse(toks: Seq<Seq<u8>>) -> bool {
    forall|i: int| 0 <= i < toks.len() ==> parses_u64_b(#[trigger] toks[i])
}

/// The sum of the numbers the tokens denote.
pub open spec fn sum_vals(toks: Seq<Seq<u8>>) -> nat
    decreases toks.len(),
{
    if toks.len() == 0 {
        0
    } else {
        (sum_vals(toks.drop_last()) + val_b(toks.last())) as nat
    }
}

proof fn lemma_sum_vals_prefix(toks: Seq<Seq<u8>>, k: int)
    requires
        0 <= k <= toks.len(),
    ensures
        sum_vals(toks.take(k)) <= sum_vals(toks),
    decreases toks.len() - k,
{
    if k < toks.len() {
        lemma_sum_vals_prefix(toks, k + 1);
        assert(toks.take(k + 1).drop_last() =~= toks.take(k));
        assert(sum_vals(toks.take(k + 1)) == sum_vals(toks.take(k)) + val_b(toks[k]));
    } else {
        assert(toks.take(k) =~= toks);
    }
}

/// The whitespace-separated tokens after the five-byte label of the CPU
/// summary line, the first line of the kernel's stat table.
pub open spec fn cpu_toks(buf: Seq<u8>) -> Seq<Seq<u8>> {
    split_ws(buf.take(line_end(buf) as int).skip(5))
}

/// True when the stat table's first line is well-formed: at least 10 bytes
/// before the newline, at least four numeric fields after the label, every
/// field numeric, and their sum within `u64`.
pub open spec fn cpu_line_ok(buf: Seq<u8>) -> bool {
    &&& line_end(buf) >= 10
    &&& cpu_toks(buf).len() >= 4
    &&& all_parse(cpu_toks(buf))
    &&& sum_vals(cpu_toks(buf)) <= u64::MAX
}

/// Reads the CPU idle and total jiffies from the kernel's stat table: the
/// fourth field of the summary line is the idle time, the sum of all its
/// fields the total.
pub fn parse_cpu_times(buf: &[u8]) -> (r: Result<(u64, u64), Fail>)
    ensures
        r is Ok <==> cpu_line_ok(buf@),
        r matches Ok(p) ==> p.0 == val_b(cpu_toks(buf@)[3]) && p.1 == sum_vals(cpu_toks(buf@)),
        r matches Err(e) ==> (e matches Fail::Malformed(w) && w@ == "/proc/stat"@),
{
    let end = scan_line_end(buf, 0);
    proof {
        assert(buf@.skip(0) =~= buf@);
    }
    if end < 10 {
        return Err(Fail::Malformed("/proc/stat".to_owned()));
    }
    let rest = vstd::slice::slice_subrange(buf, 5, end);
    proof {
        assert(rest@ =~= buf@.take(end as int).skip(5));
    }
    let toks = split_tokens(rest);
    let ghost tseq = cpu_toks(buf@);
    let n = toks.len();
    if n < 4 {
        return Err(Fail::Malformed("/proc/stat".to_owned()));
    }
    let mut vals: Vec<u64> = Vec::new();
    let mut i: usize = 0;
    while i < n
        invariant
            0 <= i <= n,
            n == toks@.len(),
            toks@.map_values(|t: Vec<u8>| t@) == tseq,
            tseq == cpu_toks(buf@),
            vals@.len() == i,
            forall|j: int| 0 <= j < i ==> parses_u64_b(#[trigger] tseq[j]),
            forall|j: int| 0 <= j < i ==> #[trigger] vals@[j] == val_b(tseq[j]),
        decreases n - i,
    {
        proof {
            assert(toks@[i as int]@ == tseq[i as int]);
        }
        match parse_u64_b(toks[i].as_slice()) {
            Some(v) => {
                vals.push(v);
            },
            None => {
                return Err(Fail::Malformed("/proc/stat".to_owned()));
            },
        }
        i = i + 1;
    }
    let mut total: u64 = 0;
    let mut i: usize = 0;
    while i < n
        invariant
            0 <= i <= n,
            n == tseq.len() == vals@.len(),
            tseq == cpu_toks(buf@),
            line_end(buf@) >= 10,
            tseq.len() >= 4,
            forall|j: int| 0 <= j < n ==> parses_u64_b(#[trigger] tseq[j]),
            forall|j: int| 0 <= j < n ==> #[trigger] vals@[j] == val_b(tseq[j]),
            total == sum_vals(tseq.take(i as int)),
        decreases n - i,
    {
        let v = vals[i];
        proof {
            assert(tseq.take(i + 1).drop_last() =~= tseq.take(i as int));
            assert(sum_vals(tseq.take(i + 1)) == sum_vals(tseq.take(i as int)) + val_b(
                tseq[i as int],
            ));
        }
        if total > u64::MAX - v {
            proof {
                lemma_sum_vals_prefix(tseq, i + 1);
            }
            return Err(Fail::Malformed("/proc/stat".to_owned()));
        }
        total = total + v;
        i = i + 1;
    }
    proof {
        assert(tseq.take(n as int) =~= tseq);
    }
    let idle = vals[3];
    Ok((idle, total))
}

/// How the memory scan folds over the tokens of the kernel's meminfo table:
/// the first numeric token becomes the total, the second arms the scan, and
/// the third — the available amount — yields used = total - available;
/// an available amount above the total is malformed. A table with fewer
/// numeric fields yields what the scan reached.
pub open spec fn mem_fold(toks: Seq<Seq<u8>>, i: int, used: u64, total: u64) -> Option<(u64, u64)>
    decreases toks.len() - i,
{
    if i < 0 || i >= toks.len() {
        Some((used, total))
    } else if !parses_u64_b(toks[i]) {
        mem_fold(toks, i + 1, used, total)
    } else {
        let u = val_b(toks[i]) as u64;
        if total == 0 {
            mem_fold(toks, i + 1, used, u)
        } else if used == 0 {
            mem_fold(toks, i + 1, 1u64, total)
        } else if total < u {
            None
        } else {
            Some(((total - u) as u64, total))
        }
    }
}

/// Reads used and total memory in kB from the kernel's meminfo table.
pub fn parse_meminfo(buf: &[u8]) -> (r: Result<(u64, u64), Fail>)
    ensures
        r is Ok <==> mem_fold(split_ws(buf@), 0, 0, 0) is Some,
        r matches Ok(p) ==> Some(p) == mem_fold(split_ws(buf@), 0, 0, 0),
        r matches Err(e) ==> (e matches Fail::Malformed(w) && w@ == "/proc/meminfo"@),
{
    let toks = split_tokens(buf);
    let ghost tseq = split_ws(buf@);
    let n = toks.len();
    let mut used: u64 = 0;
    let mut total: u64 = 0;
    let mut i: usize = 0;
    while i < n
        invariant
            0 <= i <= n,
            n == toks@.len(),
            toks@.map_values(|t: Vec<u8>| t@) == tseq,
            tseq == split_ws(buf@),
            mem_fold(tseq, 0, 0, 0) == mem_fold(tseq, i as int, used, total),
        decreases n - i,
    {
        proof {
            assert(toks@[i as int]@ == tseq[i as int]);
        }
        match parse_u64_b(toks[i].as_slice()) {
            Some(u) => {
                if total == 0 {
                    total = u;
                } else if used == 0 {
                    used = 1;
                } else if total < u {
                    return Err(Fail::Malformed("/proc/meminfo".to_owned()));
                } else {
                    return Ok((total - u, total));
                }
            },
            None => {},
        }
        i = i + 1;
    }
    Ok((used, total))
}

/// How the disk scan folds over the tokens of one line of the disk-free
/// tool's output: the first numeric token is the total, the next the used
/// amount.
pub open spec fn disk_fold(toks: Seq<Seq<u8>>, i: int, total: u64) -> (u64, u64)
    decreases toks.len() - i,
{
    if i < 0 || i >= toks.len() {
        (0, total)
    } else if !parses_u64_b(toks[i]) {
        disk_fold(toks, i + 1, total)
    } else {
        let u = val_b(toks[i]) as u64;
        if total == 0 {
            disk_fold(toks, i + 1, u)
        } else {
            (u, total)
        }
    }
}

/// The second line of the output, where the root filesystem's numbers
/// stand.
pub open spec fn second_line(s: Seq<u8>) -> Seq<u8> {
    let rest = s.skip(line_end(s) as int + 1);
    rest.take(line_end(rest) as int)
}

/// True when the output has a second line at all.
pub open spec fn has_second_line(s: Seq<u8>) -> bool {
    line_end(s) + 1 < s.len()
}

/// Reads used and total disk space in kB for the root filesystem from the
/// disk-free tool's output: the first two numeric fields of its second
/// line.
pub fn parse_df(out: &[u8]) -> (r: Result<(u64, u64), Fail>)
    ensures
        r is Ok <==> has_second_line(out@),
        r matches Ok(p) ==> p == disk_fold(split_ws(second_line(out@)), 0, 0),
        r matches Err(e) ==> (e matches Fail::Malformed(w) && w@ == "df output"@),
{
    let p = scan_line_end(out, 0);
    proof {
        assert(out@.skip(0) =~= out@);
    }
    if p >= out.len() || p + 1 >= out.len() {
        return Err(Fail::Malformed("df output".to_owned()));
    }
    let q = scan_line_end(out, p + 1);
    let line = vstd::slice::slice_subrange(out, p + 1, q);
    proof {
        let rest = out@.skip(p + 1);
        assert(line@ =~= rest.take(line_end(rest) as int));
    }
    let toks = split_tokens(line);
    let ghost tseq = split_ws(second_line(out@));
    let n = toks.len();
    let mut total: u64 = 0;
    let mut i: usize = 0;
    while i < n
        invariant
            0 <= i <= n,
            n == toks@.len(),
            toks@.map_values(|t: Vec<u8>| t@) == tseq,
            tseq == split_ws(second_line(out@)),
            has_second_line(out@),
            disk_fold(tseq, 0, 0) == disk_fold(tseq, i as int, total),
        decreases n - i,
    {
        proof {
            assert(toks@[i as int]@ == tseq[i as int]);
        }
        match parse_u64_b(toks[i].as_slice()) {
            Some(u) => {
                if total == 0 {
                    total = u;
                } else {
                    return Ok((u, total));
                }
            },
            None => {},
        }
        i = i + 1;
    }
    Ok((0, total))
}

} // verus!
