//! Plain-text searching and splicing over character sequences.
//!
//! Everything the rest of the library does with the bootstrap script and the
//! metadata attributes reduces to locating literal tokens inside text and
//! recombining the pieces.  This module gives those operations exact
//! specifications: `spec_find` is the mathematical "index of the first
//! occurrence", and the executable search and replacement functions are proved
//! to compute it.

use vstd::prelude::*;

verus! {

/// True when `needle` occurs in `hay` starting exactly at index `i`.
pub open spec fn match_at(hay: Seq<char>, needle: Seq<char>, i: int) -> bool {
    &&& 0 <= i
    &&& i + needle.len() <= hay.len()
    &&& hay.subrange(i, i + needle.len() as int) == needle
}

/// True when `needle` occurs somewhere in `hay` at or after `from`.
pub open spec fn contains_from(hay: Seq<char>, needle: Seq<char>, from: int) -> bool {
    exists|i: int| from <= i && match_at(hay, needle, i)
}

/// Index of the first occurrence of `needle` in `hay` at or after `from`,
/// or `None` when there is no occurrence.
pub open spec fn spec_find(hay: Seq<char>, needle: Seq<char>, from: int) -> Option<int>
    decreases hay.len() - from,
{
    if from < 0 || from + needle.len() > hay.len() {
        None
    } else if needle.len() == 0 || match_at(hay, needle, from) {
        Some(from)
    } else {
        spec_find(hay, needle, from + 1)
    }
}

/// What `spec_find` returns is the first match: a found index is a match with
/// none before it, and `None` means there is no match at all.
pub proof fn lemma_spec_find_characterization(hay: Seq<char>, needle: Seq<char>, from: int)
    requires
        0 <= from,
    ensures
        match spec_find(hay, needle, from) {
            Some(i) => {
                &&& from <= i
                &&& match_at(hay, needle, i)
                &&& forall|j: int| from <= j < i ==> !match_at(hay, needle, j)
            },
            None => forall|j: int| from <= j ==> !match_at(hay, needle, j),
        },
    decreases hay.len() - from,
{
    if from + needle.len() > hay.len() {
        assert forall|j: int| from <= j implies !match_at(hay, needle, j) by {
            assert(j + needle.len() >= from + needle.len());
        }
    } else if needle.len() == 0 {
        assert(hay.subrange(from, from) =~= needle);
    } else if match_at(hay, needle, from) {
    } else {
        lemma_spec_find_characterization(hay, needle, from + 1);
    }
}

/// A match with no match before it is exactly what `spec_find` returns.
pub proof fn lemma_spec_find_first(hay: Seq<char>, needle: Seq<char>, from: int, i: int)
    requires
        0 <= from <= i,
        match_at(hay, needle, i),
        forall|j: int| from <= j < i ==> !match_at(hay, needle, j),
    ensures
        spec_find(hay, needle, i) == Some(i),
        spec_find(hay, needle, from) == Some(i),
    decreases i - from,
{
    if from < i {
        if needle.len() == 0 {
            assert(hay.subrange(from, from) =~= needle);
            assert(match_at(hay, needle, from));
        }
        lemma_spec_find_first(hay, needle, from + 1, i);
        assert(!match_at(hay, needle, from));
        assert(spec_find(hay, needle, from) == spec_find(hay, needle, from + 1));
    }
}

/// No match anywhere at or after `from` means `spec_find` returns `None`.
pub proof fn lemma_spec_find_none(hay: Seq<char>, needle: Seq<char>, from: int)
    requires
        0 <= from,
        forall|j: int| from <= j ==> !match_at(hay, needle, j),
    ensures
        spec_find(hay, needle, from) is None,
{
    lemma_spec_find_characterization(hay, needle, from);
    if spec_find(hay, needle, from) is Some {
        assert(match_at(hay, needle, spec_find(hay, needle, from)->Some_0));
    }
}

/// Whether `needle` occurs in `hay` starting exactly at `i`.
fn check_match_at(hay: &str, needle: &str, i: usize, hlen: usize, nlen: usize) -> (r: bool)
    requires
        hlen == hay@.len(),
        nlen == needle@.len(),
        i + nlen <= hlen,
    ensures
        r == match_at(hay@, needle@, i as int),
{
    let mut j: usize = 0;
    while j < nlen
        invariant
            j <= nlen,
            hlen == hay@.len(),
            nlen == needle@.len(),
            i + nlen <= hlen,
            forall|k: int| 0 <= k < j ==> hay@[i + k] == needle@[k],
        decreases nlen - j,
    {
        let hc = hay.get_char(i + j);
        let nc = needle.get_char(j);
        if hc != nc {
            proof {
                let sub = hay@.subrange(i as int, i + nlen);
                assert(sub[j as int] == hay@[i + j]);
                if match_at(hay@, needle@, i as int) {
                    assert(sub[j as int] == needle@[j as int]);
                }
            }
            return false;
        }
        j += 1;
    }
    proof {
        assert(hay@.subrange(i as int, i + nlen) =~= needle@);
    }
    true
}

/// Index of the first occurrence of `needle` in `hay` at or after `from`,
/// searching by character position.
pub fn find_from(hay: &str, from: usize, needle: &str) -> (r: Option<usize>)
    ensures
        match r {
            Some(i) => spec_find(hay@, needle@, from as int) == Some(i as int),
            None => spec_find(hay@, needle@, from as int) is None,
        },
{
    let hlen = hay.unicode_len();
    let nlen = needle.unicode_len();
    if from > hlen || nlen > hlen - from {
        proof {
            assert forall|j: int| from as int <= j implies !match_at(hay@, needle@, j) by {
                assert(j + needle@.len() >= from + needle@.len());
            }
            lemma_spec_find_none(hay@, needle@, from as int);
        }
        return None;
    }
    let limit = hlen - nlen;
    let mut i: usize = from;
    while i < limit
        invariant
            from <= i <= limit,
            limit == hlen - nlen,
            nlen <= hlen,
            hlen == hay@.len(),
            nlen == needle@.len(),
            forall|j: int| from <= j < i ==> !match_at(hay@, needle@, j),
        decreases limit - i,
    {
        if check_match_at(hay, needle, i, hlen, nlen) {
            proof {
                lemma_spec_find_first(hay@, needle@, from as int, i as int);
            }
            return Some(i);
        }
        i += 1;
    }
    if check_match_at(hay, needle, limit, hlen, nlen) {
        proof {
            lemma_spec_find_first(hay@, needle@, from as int, limit as int);
        }
        return Some(limit);
    }
    proof {
        assert forall|j: int| from as int <= j implies !match_at(hay@, needle@, j) by {
            if j <= limit {
            } else {
                assert(j + needle@.len() > hay@.len());
            }
        }
        lemma_spec_find_none(hay@, needle@, from as int);
    }
    None
}

/// Whether `needle` occurs anywhere in `hay`.
pub fn contains_sub(hay: &str, needle: &str) -> (r: bool)
    ensures
        r == contains_from(hay@, needle@, 0),
{
    let r = find_from(hay, 0, needle);
    proof {
        lemma_spec_find_characterization(hay@, needle@, 0);
        if r is Some {
            let i = spec_find(hay@, needle@, 0)->Some_0;
            assert(0 <= i && match_at(hay@, needle@, i));
        } else {
            if contains_from(hay@, needle@, 0) {
                let i = choose|i: int| 0 <= i && match_at(hay@, needle@, i);
                assert(!match_at(hay@, needle@, i));
            }
        }
    }
    r.is_some()
}

/// The text of `s` from `pos` on, with every occurrence of `pat` (searched
/// left to right, non-overlapping) replaced by `to`.
pub open spec fn replace_from(s: Seq<char>, pat: Seq<char>, to: Seq<char>, pos: int) -> Seq<char>
    decreases s.len() - pos,
        when 0 <= pos && pat.len() > 0
        via lemma_replace_from_decreases
{
    match spec_find(s, pat, pos) {
        None => s.subrange(pos, s.len() as int),
        Some(i) => s.subrange(pos, i) + to + replace_from(s, pat, to, i + pat.len()),
    }
}

#[via_fn]
proof fn lemma_replace_from_decreases(s: Seq<char>, pat: Seq<char>, to: Seq<char>, pos: int) {
    lemma_spec_find_characterization(s, pat, pos);
}

/// `s` with every occurrence of `pat` (searched left to right,
/// non-overlapping) replaced by `to`; `s` unchanged when `pat` is empty.
pub open spec fn spec_replace(s: Seq<char>, pat: Seq<char>, to: Seq<char>) -> Seq<char> {
    if pat.len() == 0 {
        s
    } else {
        replace_from(s, pat, to, 0)
    }
}

/// `s` with every occurrence of `pat` replaced by `to`, searching left to
/// right over non-overlapping occurrences.
pub fn replace_all(s: &str, pat: &str, to: &str) -> (r: String)
    requires
        pat@.len() > 0,
    ensures
        r@ == spec_replace(s@, pat@, to@),
{
    let mut out = String::new();
    let mut pos: usize = 0;
    let slen = s.unicode_len();
    let plen = pat.unicode_len();
    proof {
        assert(out@ + replace_from(s@, pat@, to@, 0) =~= replace_from(s@, pat@, to@, 0));
    }
    loop
        invariant
            pos <= slen,
            slen == s@.len(),
            plen == pat@.len(),
            plen > 0,
            spec_replace(s@, pat@, to@) == out@ + replace_from(s@, pat@, to@, pos as int),
        decreases slen - pos,
    {
        let ghost out0 = out@;
        let ghost pos0 = pos as int;
        match find_from(s, pos, pat) {
            Some(i) => {
                proof {
                    lemma_spec_find_characterization(s@, pat@, pos as int);
                }
                let piece = substring(s, pos, i);
                out.append(piece.as_str());
                out.append(to);
                pos = i + plen;
                proof {
                    assert(replace_from(s@, pat@, to@, pos0) == s@.subrange(pos0, i as int)
                        + to@ + replace_from(s@, pat@, to@, pos as int));
                    assert(out0 + (s@.subrange(pos0, i as int) + to@ + replace_from(
                        s@,
                        pat@,
                        to@,
                        pos as int,
                    )) =~= out@ + replace_from(s@, pat@, to@, pos as int));
                }
            },
            None => {
                let piece = substring(s, pos, slen);
                out.append(piece.as_str());
                proof {
                    assert(replace_from(s@, pat@, to@, pos0) == s@.subrange(pos0, slen as int));
                }
                return out;
            },
        }
    }
}

/// The characters of `s` from `from` (inclusive) to `to` (exclusive), as an
/// owned string.
pub fn substring(s: &str, from: usize, to: usize) -> (r: String)
    requires
        from <= to <= s@.len(),
    ensures
        r@ == s@.subrange(from as int, to as int),
{
    s.substring_char(from, to).to_owned()
}

/// Whether two strings hold the same characters.
pub fn str_eq(a: &str, b: &str) -> (r: bool)
    ensures
        r == (a@ == b@),
{
    let alen = a.unicode_len();
    let blen = b.unicode_len();
    if alen != blen {
        return false;
    }
    let mut i: usize = 0;
    while i < alen
        invariant
            i <= alen,
            alen == a@.len(),
            alen == b@.len(),
            forall|k: int| 0 <= k < i ==> a@[k] == b@[k],
        decreases alen - i,
    {
        let ca = a.get_char(i);
        let cb = b.get_char(i);
        if ca != cb {
            return false;
        }
        i += 1;
    }
    proof {
        assert(a@ =~= b@);
    }
    true
}

/// The whitespace characters the script splitter strips at fragment edges.
pub open spec fn is_space(c: char) -> bool {
    c == ' ' || c == '\t' || c == '\n' || c == '\r'
}

/// `s` without its leading whitespace.
pub open spec fn spec_trim_start(s: Seq<char>) -> Seq<char>
    decreases s.len(),
{
    if s.len() > 0 && is_space(s[0]) {
        spec_trim_start(s.drop_first())
    } else {
        s
    }
}

/// `s` without its trailing whitespace.
pub open spec fn spec_trim_end(s: Seq<char>) -> Seq<char>
    decreases s.len(),
{
    if s.len() > 0 && is_space(s.last()) {
        spec_trim_end(s.drop_last())
    } else {
        s
    }
}

/// `s` without its leading and trailing whitespace.
pub open spec fn spec_trim(s: Seq<char>) -> Seq<char> {
    spec_trim_end(spec_trim_start(s))
}

proof fn lemma_trim_start_subrange(s: Seq<char>, i: int)
    requires
        0 <= i <= s.len(),
        forall|j: int| 0 <= j < i ==> is_space(s[j]),
        i == s.len() || !is_space(s[i]),
    ensures
        spec_trim_start(s) == s.subrange(i, s.len() as int),
    decreases i,
{
    if i == 0 {
        assert(s.subrange(0, s.len() as int) =~= s);
    } else {
        assert(is_space(s[0]));
        let t = s.drop_first();
        assert(t =~= s.subrange(1, s.len() as int));
        lemma_trim_start_subrange(t, i - 1);
        assert(t.subrange(i - 1, t.len() as int) =~= s.subrange(i, s.len() as int));
    }
}

proof fn lemma_trim_end_subrange(s: Seq<char>, m: int)
    requires
        0 <= m <= s.len(),
        forall|j: int| m <= j < s.len() ==> is_space(s[j]),
        m == 0 || !is_space(s[m - 1]),
    ensures
        spec_trim_end(s) == s.subrange(0, m),
    decreases s.len(),
{
    if m == s.len() {
        if s.len() == 0 {
            assert(s.subrange(0, 0) =~= s);
        } else {
            assert(!is_space(s.last()));
            assert(s.subrange(0, m) =~= s);
        }
    } else {
        assert(is_space(s.last()));
        let t = s.drop_last();
        assert(t =~= s.subrange(0, s.len() - 1));
        lemma_trim_end_subrange(t, m);
        assert(t.subrange(0, m) =~= s.subrange(0, m));
    }
}

/// Whether `c` is one of the whitespace characters stripped at fragment
/// edges.
pub fn is_space_char(c: char) -> (r: bool)
    ensures
        r == is_space(c),
{
    c == ' ' || c == '\t' || c == '\n' || c == '\r'
}

/// `s` without its leading and trailing whitespace, as an owned string.
pub fn trim_spaces(s: &str) -> (r: String)
    ensures
        r@ == spec_trim(s@),
{
    let len = s.unicode_len();
    let mut a: usize = 0;
    while a < len && is_space_char(s.get_char(a))
        invariant
            a <= len,
            len == s@.len(),
            forall|j: int| 0 <= j < a ==> is_space(s@[j]),
        decreases len - a,
    {
        a += 1;
    }
    let mut b: usize = len;
    while b > a && is_space_char(s.get_char(b - 1))
        invariant
            a <= b <= len,
            len == s@.len(),
            forall|j: int| b <= j < len ==> is_space(s@[j]),
        decreases b,
    {
        b -= 1;
    }
    proof {
        lemma_trim_start_subrange(s@, a as int);
        let t = s@.subrange(a as int, len as int);
        if b == a && a < len {
            assert(is_space(s@[a as int]));
        }
        if a == len {
            assert(t.len() == 0);
            lemma_trim_end_subrange(t, 0);
        } else {
            assert(!is_space(s@[b - 1]));
            assert forall|j: int| (b - a) <= j < t.len() implies is_space(t[j]) by {
                assert(t[j] == s@[a + j]);
            }
            assert(t[b - a - 1] == s@[b - 1]);
            lemma_trim_end_subrange(t, b - a);
            assert(t.subrange(0, b - a) =~= s@.subrange(a as int, b as int));
        }
    }
    substring(s, a, b)
}

} // verus!
