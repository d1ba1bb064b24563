//! Verified helpers over strings, used throughout the pipeline: equality,
//! prefix/suffix/substring tests, case-insensitive comparison, trimming,
//! line splitting and joining.

use vstd::prelude::*;
use vstd::string::{StrSliceExecFns, StringExecFns};

verus! {

pub open spec fn spec_starts_with(s: Seq<char>, p: Seq<char>) -> bool {
    p.len() <= s.len() && s.subrange(0, p.len() as int) == p
}

pub open spec fn spec_ends_with(s: Seq<char>, p: Seq<char>) -> bool {
    p.len() <= s.len() && s.subrange(s.len() - p.len(), s.len() as int) == p
}

/// `p` occurs in `s` starting at position `k`.
pub open spec fn matches_at(s: Seq<char>, p: Seq<char>, k: int) -> bool {
    0 <= k && k + p.len() <= s.len() && s.subrange(k, k + p.len()) == p
}

pub open spec fn spec_contains(s: Seq<char>, p: Seq<char>) -> bool {
    exists|k: int| matches_at(s, p, k)
}

pub fn str_eq(a: &str, b: &str) -> (r: bool)
    ensures
        r == (a@ == b@),
{
    let alen = a.unicode_len();
    let blen = b.unicode_len();
    if alen != blen {
        return false;
    }
    let mut i: usize = 0;
    while i < alen
        invariant
            alen == a@.len(),
            blen == b@.len(),
            alen == blen,
            i <= alen,
            forall|j: int| 0 <= j < i ==> a@[j] == b@[j],
        decreases alen - i,
    {
        if a.get_char(i) != b.get_char(i) {
            return false;
        }
        i = i + 1;
    }
    proof {
        assert(a@ =~= b@);
    }
    true
}

/// Whether `p` occurs in `s` at position `k`.
fn check_match_at(s: &str, p: &str, k: usize) -> (r: bool)
    requires
        k + p@.len() <= s@.len(),
    ensures
        r == matches_at(s@, p@, k as int),
{
    let slen = s.unicode_len();
    let plen = p.unicode_len();
    let mut i: usize = 0;
    while i < plen
        invariant
            slen == s@.len(),
            plen == p@.len(),
            k + plen <= slen,
            i <= plen,
            forall|j: int| 0 <= j < i ==> s@[k + j] == p@[j],
        decreases plen - i,
    {
        if s.get_char(k + i) != p.get_char(i) {
            proof {
                assert(s@.subrange(k as int, k + p@.len()) != p@) by {
                    assert(s@.subrange(k as int, k + p@.len())[i as int] != p@[i as int]);
                }
            }
            return false;
        }
        i = i + 1;
    }
    proof {
        assert(s@.subrange(k as int, k + p@.len()) =~= p@);
    }
    true
}

pub fn starts_with(s: &str, p: &str) -> (r: bool)
    ensures
        r == spec_starts_with(s@, p@),
{
    let slen = s.unicode_len();
    let plen = p.unicode_len();
    if plen > slen {
        return false;
    }
    check_match_at(s, p, 0)
}

pub fn ends_with(s: &str, p: &str) -> (r: bool)
    ensures
        r == spec_ends_with(s@, p@),
{
    let slen = s.unicode_len();
    let plen = p.unicode_len();
    if plen > slen {
        return false;
    }
    check_match_at(s, p, slen - plen)
}

pub fn has_substring(s: &str, p: &str) -> (r: bool)
    ensures
        r == spec_contains(s@, p@),
{
    let slen = s.unicode_len();
    let plen = p.unicode_len();
    if plen > slen {
        proof {
            assert(forall|k: int| !matches_at(s@, p@, k));
        }
        return false;
    }
    if plen == 0 {
        proof {
            assert(matches_at(s@, p@, 0)) by {
                assert(s@.subrange(0, 0) =~= p@);
            }
        }
        return true;
    }
    let mut k: usize = 0;
    while k <= slen - plen
        invariant
            slen == s@.len(),
            plen == p@.len(),
            1 <= plen <= slen,
            k as int <= slen as int - plen as int + 1,
            forall|j: int| 0 <= j < k ==> !matches_at(s@, p@, j),
        decreases slen as int - plen as int + 1 - k as int,
    {
        if check_match_at(s, p, k) {
            return true;
        }
        k = k + 1;
    }
    proof {
        assert(forall|j: int| j >= k ==> !matches_at(s@, p@, j));
    }
    false
}

/// The ASCII-lowercased code point of a character.
pub open spec fn lower_cp(c: char) -> u32 {
    if 65 <= c as u32 && c as u32 <= 90 {
        (c as u32 + 32) as u32
    } else {
        c as u32
    }
}

pub open spec fn lower_seq(s: Seq<char>) -> Seq<u32> {
    s.map_values(|c: char| lower_cp(c))
}

pub fn eq_ignore_ascii_case(a: &str, b: &str) -> (r: bool)
    ensures
        r == (lower_seq(a@) == lower_seq(b@)),
{
    let alen = a.unicode_len();
    let blen = b.unicode_len();
    if alen != blen {
        proof {
            assert(lower_seq(a@).len() != lower_seq(b@).len());
        }
        return false;
    }
    let mut i: usize = 0;
    while i < alen
        invariant
            alen == a@.len(),
            blen == b@.len(),
            alen == blen,
            i <= alen,
            forall|j: int| 0 <= j < i ==> lower_cp(a@[j]) == lower_cp(b@[j]),
        decreases alen - i,
    {
        let ca = a.get_char(i) as u32;
        let cb = b.get_char(i) as u32;
        let la = if 65 <= ca && ca <= 90 {
            ca + 32
        } else {
            ca
        };
        let lb = if 65 <= cb && cb <= 90 {
            cb + 32
        } else {
            cb
        };
        if la != lb {
            proof {
                assert(lower_seq(a@)[i as int] != lower_seq(b@)[i as int]);
            }
            return false;
        }
        i = i + 1;
    }
    proof {
        assert(lower_seq(a@) =~= lower_seq(b@));
    }
    true
}

pub fn strcat(a: &str, b: &str) -> (r: String)
    ensures
        r@ == a@ + b@,
{
    String::from_str(a).concat(b)
}

pub fn strcat3(a: &str, b: &str, c: &str) -> (r: String)
    ensures
        r@ == a@ + b@ + c@,
{
    String::from_str(a).concat(b).concat(c)
}

pub open spec fn is_ws(c: char) -> bool {
    c == ' ' || c == '\t' || c == '\r' || c == '\n'
}

/// Index of the first non-whitespace character at or after `i`.
pub open spec fn ws_prefix_end(s: Seq<char>, i: int) -> int
    decreases s.len() - i,
{
    if 0 <= i < s.len() && is_ws(s[i]) {
        ws_prefix_end(s, i + 1)
    } else {
        i
    }
}

/// Index just after the last non-whitespace character before `e`,
/// never moving below `b`.
pub open spec fn ws_suffix_start(s: Seq<char>, e: int, b: int) -> int
    decreases e,
{
    if 0 <= b && b < e <= s.len() && is_ws(s[e - 1]) {
        ws_suffix_start(s, e - 1, b)
    } else {
        e
    }
}

/// What remains of `s` after removing leading and trailing whitespace.
pub open spec fn spec_trim(s: Seq<char>) -> Seq<char> {
    let b = ws_prefix_end(s, 0);
    let e = ws_suffix_start(s, s.len() as int, b);
    s.subrange(b, e)
}

proof fn lemma_ws_prefix_end(s: Seq<char>, k: int, i: int)
    requires
        0 <= k <= i <= s.len(),
        forall|j: int| k <= j < i ==> is_ws(s[j]),
        i == s.len() || !is_ws(s[i]),
    ensures
        ws_prefix_end(s, k) == i,
    decreases i - k,
{
    if k < i {
        lemma_ws_prefix_end(s, k + 1, i);
    }
}

proof fn lemma_ws_suffix_start(s: Seq<char>, k: int, e: int, b: int)
    requires
        0 <= b <= e <= k <= s.len(),
        forall|j: int| e <= j < k ==> is_ws(s[j]),
        e == b || !is_ws(s[e - 1]),
    ensures
        ws_suffix_start(s, k, b) == e,
    decreases k,
{
    if e < k {
        lemma_ws_suffix_start(s, k - 1, e, b);
    }
}

pub fn trim<'a>(s: &'a str) -> (r: &'a str)
    ensures
        r@ == spec_trim(s@),
{
    let len = s.unicode_len();
    let mut b: usize = 0;
    while b < len && is_ws_exec(s.get_char(b))
        invariant
            len == s@.len(),
            b <= len,
            forall|j: int| 0 <= j < b ==> is_ws(s@[j]),
        decreases len - b,
    {
        b = b + 1;
    }
    proof {
        lemma_ws_prefix_end(s@, 0, b as int);
    }
    let mut e: usize = len;
    while e > b && is_ws_exec(s.get_char(e - 1))
        invariant
            len == s@.len(),
            b <= e <= len,
            forall|j: int| e <= j < len ==> is_ws(s@[j]),
        decreases e,
    {
        e = e - 1;
    }
    proof {
        lemma_ws_suffix_start(s@, len as int, e as int, b as int);
    }
    s.substring_char(b, e)
}

fn is_ws_exec(c: char) -> (r: bool)
    ensures
        r == is_ws(c),
{
    c == ' ' || c == '\t' || c == '\r' || c == '\n'
}

/// Index of the first newline at or after `i`, or the length of `s`.
pub open spec fn next_nl(s: Seq<char>, i: int) -> int
    decreases s.len() - i,
{
    if 0 <= i < s.len() && s[i] != '\n' {
        next_nl(s, i + 1)
    } else {
        i
    }
}

/// One line spanning `[start, end)` of `s`, with a trailing carriage
/// return removed.
pub open spec fn line_at(s: Seq<char>, start: int, end: int) -> Seq<char> {
    if end > start && s[end - 1] == '\r' {
        s.subrange(start, end - 1)
    } else {
        s.subrange(start, end)
    }
}

pub proof fn lemma_next_nl_bounds(s: Seq<char>, i: int)
    requires
        0 <= i <= s.len(),
    ensures
        i <= next_nl(s, i) <= s.len(),
    decreases s.len() - i,
{
    if i < s.len() && s[i] != '\n' {
        lemma_next_nl_bounds(s, i + 1);
    }
}

/// The lines of `s` from position `i` on, split at newlines, with no
/// empty line after a final newline.
pub open spec fn lines_from(s: Seq<char>, i: int) -> Seq<Seq<char>>
    decreases s.len() - i,
{
    if i >= s.len() || i < 0 {
        Seq::empty()
    } else {
        let j = next_nl(s, i);
        if j >= s.len() {
            seq![line_at(s, i, j)]
        } else {
            proof {
                lemma_next_nl_bounds(s, i);
            }
            seq![line_at(s, i, j)] + lines_from(s, j + 1)
        }
    }
}

pub open spec fn spec_lines(s: Seq<char>) -> Seq<Seq<char>> {
    lines_from(s, 0)
}

proof fn lemma_next_nl(s: Seq<char>, k: int, i: int)
    requires
        0 <= k <= i <= s.len(),
        forall|j: int| k <= j < i ==> s[j] != '\n',
        i == s.len() || s[i] == '\n',
    ensures
        next_nl(s, k) == i,
    decreases i - k,
{
    if k < i {
        lemma_next_nl(s, k + 1, i);
    }
}

/// Splits `s` into its lines, as `str::lines` does.
pub fn split_lines(s: &str) -> (r: Vec<String>)
    ensures
        r.deep_view() == spec_lines(s@),
{
    let len = s.unicode_len();
    let mut out: Vec<String> = Vec::new();
    let mut i: usize = 0;
    while i < len
        invariant
            len == s@.len(),
            0 <= i <= len,
            out.deep_view() + lines_from(s@, i as int) =~= spec_lines(s@),
        decreases len - i,
    {
        let ghost old_out = out.deep_view();
        let mut j: usize = i;
        while j < len && s.get_char(j) != '\n'
            invariant
                len == s@.len(),
                i <= j <= len,
                forall|t: int| i <= t < j ==> s@[t] != '\n',
            decreases len - j,
        {
            j = j + 1;
        }
        proof {
            lemma_next_nl(s@, i as int, j as int);
        }
        let end = if j > i && s.get_char(j - 1) == '\r' {
            j - 1
        } else {
            j
        };
        let piece = s.substring_char(i, end);
        let ghost old_i = i as int;
        out.push(String::from_str(piece));
        proof {
            assert(piece@ == line_at(s@, old_i, j as int));
            assert(out.deep_view() =~= old_out + seq![line_at(s@, old_i, j as int)]);
        }
        if j >= len {
            i = len;
            proof {
                assert(lines_from(s@, old_i) == seq![line_at(s@, old_i, j as int)]);
                assert(lines_from(s@, len as int) =~= Seq::<Seq<char>>::empty());
                assert(out.deep_view() + lines_from(s@, i as int) =~= out.deep_view());
                assert(out.deep_view() =~= old_out + lines_from(s@, old_i));
            }
        } else {
            i = j + 1;
            proof {
                assert(lines_from(s@, old_i) == seq![line_at(s@, old_i, j as int)] + lines_from(s@, j + 1));
                assert(out.deep_view() + lines_from(s@, i as int) =~= old_out + lines_from(s@, old_i));
            }
        }
    }
    proof {
        assert(lines_from(s@, i as int) =~= Seq::<Seq<char>>::empty());
        assert(out.deep_view() =~= out.deep_view() + lines_from(s@, i as int));
    }
    out
}

/// The elements of `parts` joined with `sep` between them.
pub open spec fn spec_join(parts: Seq<Seq<char>>, sep: Seq<char>) -> Seq<char>
    decreases parts.len(),
{
    if parts.len() == 0 {
        Seq::empty()
    } else if parts.len() == 1 {
        parts[0]
    } else {
        parts[0] + sep + spec_join(parts.drop_first(), sep)
    }
}

proof fn lemma_join_push(parts: Seq<Seq<char>>, sep: Seq<char>, x: Seq<char>)
    requires
        parts.len() >= 1,
    ensures
        spec_join(parts.push(x), sep) == spec_join(parts, sep) + sep + x,
    decreases parts.len(),
{
    assert(parts.push(x)[0] == parts[0]);
    if parts.len() == 1 {
        assert(parts.push(x).drop_first() =~= seq![x]);
        assert(spec_join(parts.push(x), sep) == parts[0] + sep + spec_join(seq![x], sep));
        assert(spec_join(seq![x], sep) == x);
    } else {
        lemma_join_push(parts.drop_first(), sep, x);
        assert(parts.push(x).drop_first() =~= parts.drop_first().push(x));
        assert(spec_join(parts.push(x), sep)
            == parts[0] + sep + (spec_join(parts.drop_first(), sep) + sep + x));
        assert(parts[0] + sep + (spec_join(parts.drop_first(), sep) + sep + x)
            =~= (parts[0] + sep + spec_join(parts.drop_first(), sep)) + sep + x);
    }
}

pub fn join_with(parts: &Vec<String>, sep: &str) -> (r: String)
    ensures
        r@ == spec_join(parts.deep_view(), sep@),
{
    let mut out = String::new();
    let n = parts.len();
    let mut i: usize = 0;
    while i < n
        invariant
            n == parts.len(),
            i <= n,
            out@ == spec_join(parts.deep_view().take(i as int), sep@),
        decreases n - i,
    {
        if i > 0 {
            out.append(sep);
        }
        out.append(parts[i].as_str());
        proof {
            let taken = parts.deep_view().take(i as int);
            assert(parts.deep_view().take(i + 1) =~= taken.push(parts.deep_view()[i as int]));
            if i > 0 {
                lemma_join_push(taken, sep@, parts.deep_view()[i as int]);
            } else {
                assert(taken.push(parts.deep_view()[i as int]) =~= seq![parts.deep_view()[i as int]]);
                assert(out@ =~= parts.deep_view()[i as int]);
            }
        }
        i = i + 1;
    }
    proof {
        assert(parts.deep_view().take(n as int) =~= parts.deep_view());
    }
    out
}

} // verus!
