//! The flat `key=value` text format of the stored user table: one entry per
//! line, both sides trimmed of surrounding whitespace, keys lowercased.
//!
//! Trimming and lowercasing are the Unicode mappings of std's `str::trim`
//! and `str::to_lowercase`, named in the contracts as `trim_of` and
//! `lower_of`.

use vstd::prelude::*;
use vstd::utf8::{decode_utf8, valid_utf8};

use crate::fail::Fail;
use crate::kvmap::KvMap;
use crate::textenc;

verus! {

/// The length of the leading run free of `stop`.
pub open spec fn scan_len(s: Seq<char>, stop: char) -> nat
    decreases s.len(),
{
    if s.len() == 0 || s[0] == stop {
        0
    } else {
        1 + scan_len(s.drop_first(), stop)
    }
}

proof fn lemma_scan_len_value(s: Seq<char>, stop: char, k: int)
    requires
        0 <= k <= s.len(),
        forall|j: int| 0 <= j < k ==> s[j] != stop,
        k == s.len() || s[k] == stop,
    ensures
        scan_len(s, stop) == k,
    decreases k,
{
    if k > 0 {
        assert(s.drop_first() =~= s.subrange(1, s.len() as int));
        lemma_scan_len_value(s.drop_first(), stop, k - 1);
    }
}

/// The lines of the text, split at line feeds; a text without one is a
/// single line, and every line feed ends a line.
pub open spec fn split_lines(s: Seq<char>) -> Seq<Seq<char>>
    decreases s.len(),
    via split_lines_dec
{
    if scan_len(s, '\n') == s.len() {
        seq![s]
    } else {
        seq![s.take(scan_len(s, '\n') as int)] + split_lines(s.skip(scan_len(s, '\n') as int + 1))
    }
}

proof fn lemma_scan_len_le(s: Seq<char>, stop: char)
    ensures
        scan_len(s, stop) <= s.len(),
    decreases s.len(),
{
    if s.len() > 0 && s[0] != stop {
        lemma_scan_len_le(s.drop_first(), stop);
    }
}

#[via_fn]
proof fn split_lines_dec(s: Seq<char>) {
    lemma_scan_len_le(s, '\n');
}

proof fn lemma_split_lines_nonempty(s: Seq<char>)
    ensures
        split_lines(s).len() >= 1,
{
}

/// What one line contributes: the text left and right of its first equals
/// sign, trimmed, the key lowercased; nothing from a line without one.
pub open spec fn line_entry(line: Seq<char>) -> Option<(Seq<char>, Seq<char>)> {
    let j = scan_len(line, '=') as int;
    if j == line.len() {
        None
    } else {
        Some((lower_of(trim_of(line.take(j))), trim_of(line.skip(j + 1))))
    }
}

/// The map the lines denote: entries in line order, a later line under the
/// same key overwriting an earlier one.
pub open spec fn spec_parse_lines(lines: Seq<Seq<char>>) -> Map<Seq<char>, Seq<char>>
    decreases lines.len(),
{
    if lines.len() == 0 {
        Map::empty()
    } else {
        let m = spec_parse_lines(lines.drop_last());
        match line_entry(lines.last()) {
            Some(kv) => m.insert(kv.0, kv.1),
            None => m,
        }
    }
}

/// The map a storage text denotes.
pub open spec fn spec_parse(text: Seq<char>) -> Map<Seq<char>, Seq<char>> {
    spec_parse_lines(split_lines(text))
}

/// The store matches a denoted map: same keys, same text under each.
pub open spec fn matches_parsed(m: Map<Seq<char>, String>, p: Map<Seq<char>, Seq<char>>) -> bool {
    m.dom() == p.dom() && forall|k: Seq<char>| p.dom().contains(k) ==> (#[trigger] m[k])@ == p[k]
}

/// The characters of a text, in order.
fn str_to_chars(s: &str) -> (r: Vec<char>)
    ensures
        r@ == s@,
{
    let n = s.unicode_len();
    let mut r: Vec<char> = Vec::new();
    let mut i: usize = 0;
    while i < n
        invariant
            0 <= i <= n,
            n == s@.len(),
            r@ == s@.take(i as int),
        decreases n - i,
    {
        r.push(s.get_char(i));
        proof {
            assert(r@ =~= s@.take(i + 1));
        }
        i = i + 1;
    }
    proof {
        assert(s@.take(n as int) =~= s@);
    }
    r
}

/// The text a character sequence forms.
///
/// Relies on `String`'s `FromIterator`: collecting characters yields the
/// text with exactly those characters.
#[verifier::external_body]
fn chars_to_string(v: &Vec<char>) -> (r: String)
    ensures
        r@ == v@,
{
    v.iter().collect()
}

/// What `str::trim` leaves of a text: the text without its leading and
/// trailing Unicode whitespace, a function of the characters alone.
pub uninterp spec fn trim_of(s: Seq<char>) -> Seq<char>;

/// Drops surrounding Unicode whitespace.
///
/// Relies on `str::trim`: deterministic in the characters alone.
#[verifier::external_body]
fn trim_str(s: &str) -> (r: String)
    ensures
        r@ == trim_of(s@),
{
    s.trim().to_string()
}

/// What `str::to_lowercase` makes of a text: its Unicode lowercase mapping,
/// a function of the characters alone.
pub uninterp spec fn lower_of(s: Seq<char>) -> Seq<char>;

/// Lowercases a text.
///
/// Relies on `str::to_lowercase`: deterministic in the characters alone.
#[verifier::external_body]
fn lowercase_str(s: &str) -> (r: String)
    ensures
        r@ == lower_of(s@),
{
    s.to_lowercase()
}

/// Parses a storage file's bytes into the user table: UTF-8 text, one
/// `key=value` entry per line, keys lowercased and both sides trimmed;
/// lines without an equals sign carry nothing. Bytes that are not UTF-8 are
/// rejected whole.
pub fn parse(buf: Vec<u8>) -> (r: Result<KvMap<String>, Fail>)
    ensures
        r is Ok <==> valid_utf8(buf@),
        r matches Ok(m) ==> m.wf() && matches_parsed(m@, spec_parse(decode_utf8(buf@))),
        r is Err ==> r == Err::<KvMap<String>, Fail>(Fail::NotUtf8),
{
    let text = match textenc::text_of_bytes(buf) {
        Ok(t) => t,
        Err(e) => {
            return Err(Fail::NotUtf8);
        },
    };
    let cs = str_to_chars(text.as_str());
    let n = cs.len();
    let ghost lines = split_lines(cs@);
    let mut m: KvMap<String> = KvMap::new();
    let mut p: usize = 0;
    let ghost mut i: int = 0;
    proof {
        assert(cs@.skip(0) =~= cs@);
        assert(lines.take(0) =~= Seq::<Seq<char>>::empty());
        assert(matches_parsed(m@, spec_parse_lines(lines.take(0))));
    }
    loop
        invariant_except_break
            0 <= p <= n,
            n == cs@.len(),
            0 <= i < lines.len(),
            lines == split_lines(cs@),
            lines.skip(i) == split_lines(cs@.skip(p as int)),
            m.wf(),
            matches_parsed(m@, spec_parse_lines(lines.take(i))),
        ensures
            m.wf(),
            matches_parsed(m@, spec_parse_lines(lines)),
        decreases n - p,
    {
        let ghost rest = cs@.skip(p as int);
        let mut e: usize = p;
        while e < n && cs[e] != '\n'
            invariant
                p <= e <= n,
                n == cs@.len(),
                forall|j: int| p <= j < e ==> cs@[j] != '\n',
            decreases n - e,
        {
            e = e + 1;
        }
        let ghost line = cs@.subrange(p as int, e as int);
        proof {
            assert forall|j: int| 0 <= j < e - p implies rest[j] != '\n' by {
                assert(rest[j] == cs@[p + j]);
            }
            if e < n {
                assert(rest[e - p] == cs@[e as int]);
            }
            lemma_scan_len_value(rest, '\n', e - p);
            assert(rest.take(e - p) =~= line);
            if e == n {
                assert(rest =~= line);
                assert(split_lines(rest) == seq![line]);
            } else {
                assert(split_lines(rest) == seq![line] + split_lines(rest.skip(e - p + 1)));
                lemma_split_lines_nonempty(rest.skip(e - p + 1));
            }
            assert(lines.skip(i)[0] == lines[i]);
            assert(lines[i] == line);
        }
        // the line's first equals sign, if any
        let mut j: usize = p;
        while j < e && cs[j] != '='
            invariant
                p <= j <= e <= n,
                n == cs@.len(),
                forall|t: int| p <= t < j ==> cs@[t] != '=',
            decreases e - j,
        {
            j = j + 1;
        }
        proof {
            assert forall|t: int| 0 <= t < j - p implies line[t] != '=' by {
                assert(line[t] == cs@[p + t]);
            }
            if j < e {
                assert(line[j - p] == cs@[j as int]);
            }
            lemma_scan_len_value(line, '=', j - p);
        }
        if j < e {
            let key_raw = chars_to_string(
                &vstd::slice::slice_to_vec(vstd::slice::slice_subrange(cs.as_slice(), p, j)),
            );
            let key_s = lowercase_str(trim_str(key_raw.as_str()).as_str());
            let val_raw = chars_to_string(
                &vstd::slice::slice_to_vec(vstd::slice::slice_subrange(cs.as_slice(), j + 1, e)),
            );
            let val_s = trim_str(val_raw.as_str());
            proof {
                assert(key_raw@ =~= line.take(j - p));
                assert(val_raw@ =~= line.skip(j - p + 1));
            }
            m.insert(key_s, val_s);
            proof {
                assert(line_entry(line) == Some(
                    (lower_of(trim_of(line.take(j - p))), trim_of(line.skip(j - p + 1))),
                ));
                assert(lines.take(i + 1).drop_last() =~= lines.take(i));
                assert(lines.take(i + 1).last() == line);
                assert(m@.dom() =~= spec_parse_lines(lines.take(i + 1)).dom());
                assert(matches_parsed(m@, spec_parse_lines(lines.take(i + 1))));
            }
        } else {
            proof {
                assert(line_entry(line) is None);
                assert(lines.take(i + 1).drop_last() =~= lines.take(i));
                assert(lines.take(i + 1).last() == line);
                assert(matches_parsed(m@, spec_parse_lines(lines.take(i + 1))));
            }
        }
        proof {
            i = i + 1;
        }
        if e == n {
            proof {
                assert(lines.skip(i - 1).len() == 1);
                assert(lines.take(i) =~= lines);
            }
            break ;
        }
        proof {
            assert(rest.skip(e - p + 1) =~= cs@.skip(e + 1));
            assert(lines.skip(i - 1).drop_first() =~= lines.skip(i));
        }
        p = e + 1;
    }
    Ok(m)
}

/// The text of the whole store: each entry as `key=value` on its own line,
/// in storage order.
pub open spec fn spec_serialize(entries: Seq<(String, String)>) -> Seq<char>
    decreases entries.len(),
{
    if entries.len() == 0 {
        Seq::empty()
    } else {
        spec_serialize(entries.drop_last()) + entries.last().0@ + seq!['='] + entries.last().1@
            + seq!['\n']
    }
}

/// Renders the store as its storage text.
pub fn serialize(data: &KvMap<String>) -> (r: Result<String, Fail>)
    ensures
        r is Ok,
        r matches Ok(s) ==> s@ == spec_serialize(data.entries()),
{
    let n = data.len();
    let mut out: String = String::new();
    let mut i: usize = 0;
    proof {
        reveal_strlit("=");
        reveal_strlit("\n");
        assert("="@ =~= seq!['=']);
        assert("\n"@ =~= seq!['\n']);
    }
    while i < n
        invariant
            0 <= i <= n,
            n == data.entries().len(),
            "="@ == seq!['='],
            "\n"@ == seq!['\n'],
            out@ == spec_serialize(data.entries().take(i as int)),
        decreases n - i,
    {
        proof {
            assert(data.entries().take(i + 1).drop_last() =~= data.entries().take(i as int));
            assert(data.entries().take(i + 1).last() == data.entries()[i as int]);
        }
        out.append(data.key_at(i).as_str());
        out.append("=");
        out.append(data.val_at(i).as_str());
        out.append("\n");
        i = i + 1;
    }
    proof {
        assert(data.entries().take(n as int) =~= data.entries());
    }
    Ok(out)
}

} // verus!
