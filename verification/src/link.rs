//! Extractor for the first well-formed URL in free text: a scheme `http` or
//! `https`, then `://`, a dot-separated host of word/`_`/`-` segments, and an
//! optional path/query tail that must not end on trailing punctuation.
use vstd::prelude::*;

use crate::text::digit;
use crate::text::is_digit;

verus! {

/// A word character: ASCII letter, digit or underscore.
pub open spec fn is_word_char(c: char) -> bool {
    ('a' <= c && c <= 'z') || ('A' <= c && c <= 'Z') || is_digit(c) || c == '_'
}

/// A character allowed in a host segment.
pub open spec fn is_host_char(c: char) -> bool {
    is_word_char(c) || c == '-'
}

/// A character allowed anywhere in the path/query tail.
pub open spec fn is_tail_char(c: char) -> bool {
    is_word_char(c) || c == '.' || c == ',' || c == '@' || c == '?' || c == '^' || c == '=' || c
        == '%' || c == '&' || c == ':' || c == '/' || c == '~' || c == '+' || c == '#' || c == '-'
}

/// A character the tail may end on: tail characters except the three that
/// would read as trailing punctuation.
pub open spec fn is_tail_end_char(c: char) -> bool {
    is_tail_char(c) && c != '.' && c != ',' && c != ':'
}

fn word_char(c: char) -> (r: bool)
    ensures
        r == is_word_char(c),
{
    ('a' <= c && c <= 'z') || ('A' <= c && c <= 'Z') || digit(c) || c == '_'
}

fn host_char(c: char) -> (r: bool)
    ensures
        r == is_host_char(c),
{
    word_char(c) || c == '-'
}

fn tail_char(c: char) -> (r: bool)
    ensures
        r == is_tail_char(c),
{
    word_char(c) || c == '.' || c == ',' || c == '@' || c == '?' || c == '^' || c == '=' || c == '%'
        || c == '&' || c == ':' || c == '/' || c == '~' || c == '+' || c == '#' || c == '-'
}

fn tail_end_char(c: char) -> (r: bool)
    ensures
        r == is_tail_end_char(c),
{
    tail_char(c) && c != '.' && c != ',' && c != ':'
}

/// The end of the run of host characters starting at `i`.
pub open spec fn host_run_end(s: Seq<char>, i: int) -> int
    decreases s.len() - i,
{
    if 0 <= i < s.len() && is_host_char(s[i]) {
        host_run_end(s, i + 1)
    } else {
        i
    }
}

/// The end of the run of tail characters starting at `i`.
pub open spec fn tail_run_end(s: Seq<char>, i: int) -> int
    decreases s.len() - i,
{
    if 0 <= i < s.len() && is_tail_char(s[i]) {
        tail_run_end(s, i + 1)
    } else {
        i
    }
}

/// The end of the tail after giving back characters it may not end on,
/// never giving back past `lo`.
pub open spec fn tail_trim(s: Seq<char>, lo: int, hi: int) -> int
    decreases hi - lo,
{
    if lo < hi && hi <= s.len() && !is_tail_end_char(s[hi - 1]) {
        tail_trim(s, lo, hi - 1)
    } else {
        hi
    }
}

/// The end of the chain of `.`-prefixed host segments starting at `i`
/// (which must be the end of a preceding segment).
pub open spec fn segs_end(s: Seq<char>, i: int) -> int
    decreases s.len() - i,
{
    if 0 <= i && i + 1 < s.len() && s[i] == '.' && is_host_char(s[i + 1]) {
        let e = host_run_end(s, i + 1);
        if i + 1 < e && e <= s.len() {
            segs_end(s, e)
        } else {
            i + 1
        }
    } else {
        i
    }
}

/// The position after the scheme `http` or `https` at `i`; negative when
/// no scheme starts there.
pub open spec fn scheme_end(s: Seq<char>, i: int) -> int {
    if 0 <= i && i + 4 <= s.len() && s[i] == 'h' && s[i + 1] == 't' && s[i + 2] == 't' && s[i + 3]
        == 'p' {
        if i + 4 < s.len() && s[i + 4] == 's' {
            i + 5
        } else {
            i + 4
        }
    } else {
        -1
    }
}

/// The position after `scheme://` at `i`; negative when absent.
pub open spec fn host_start(s: Seq<char>, i: int) -> int {
    let j = scheme_end(s, i);
    if j >= 0 && j + 3 <= s.len() && s[j] == ':' && s[j + 1] == '/' && s[j + 2] == '/' {
        j + 3
    } else {
        -1
    }
}

/// The end of the host at `i`: a first segment and at least one further
/// `.`-separated segment; negative when no such host follows the scheme.
pub open spec fn host_end(s: Seq<char>, i: int) -> int {
    let h0 = host_start(s, i);
    if h0 >= 0 {
        let h1 = host_run_end(s, h0);
        if h1 > h0 {
            let h2 = segs_end(s, h1);
            if h2 > h1 {
                h2
            } else {
                -1
            }
        } else {
            -1
        }
    } else {
        -1
    }
}

/// The end of the URL starting at `i`: the host, then the greedy tail with
/// trailing punctuation given back; negative when no URL starts at `i`.
pub open spec fn url_end(s: Seq<char>, i: int) -> int {
    let h2 = host_end(s, i);
    if h2 >= 0 {
        tail_trim(s, h2, tail_run_end(s, h2))
    } else {
        -1
    }
}

/// The first position at or after `i` where a URL starts; negative when none.
pub open spec fn first_url_start(s: Seq<char>, i: int) -> int
    decreases s.len() - i,
{
    if !(0 <= i < s.len()) {
        -1
    } else if url_end(s, i) >= 0 {
        i
    } else {
        first_url_start(s, i + 1)
    }
}

/// The first well-formed URL in the text; empty when there is none.
pub open spec fn extracted_link(s: Seq<char>) -> Seq<char> {
    let st = first_url_start(s, 0);
    if st >= 0 {
        s.subrange(st, url_end(s, st))
    } else {
        Seq::empty()
    }
}

fn scan_host(s: &str, i: usize, n: usize) -> (e: usize)
    requires
        i <= n,
        n == s@.len(),
    ensures
        e as int == host_run_end(s@, i as int),
        i <= e <= n,
{
    let mut j: usize = i;
    while j < n && host_char(s.get_char(j))
        invariant
            i <= j <= n,
            n == s@.len(),
            host_run_end(s@, i as int) == host_run_end(s@, j as int),
        decreases n - j,
    {
        j = j + 1;
    }
    j
}

fn scan_tail(s: &str, i: usize, n: usize) -> (e: usize)
    requires
        i <= n,
        n == s@.len(),
    ensures
        e as int == tail_run_end(s@, i as int),
        i <= e <= n,
{
    let mut j: usize = i;
    while j < n && tail_char(s.get_char(j))
        invariant
            i <= j <= n,
            n == s@.len(),
            tail_run_end(s@, i as int) == tail_run_end(s@, j as int),
        decreases n - j,
    {
        j = j + 1;
    }
    j
}

fn scan_segs(s: &str, i: usize, n: usize) -> (e: usize)
    requires
        i <= n,
        n == s@.len(),
    ensures
        e as int == segs_end(s@, i as int),
        i <= e <= n,
    decreases n - i,
{
    if n - i >= 2 && s.get_char(i) == '.' && host_char(s.get_char(i + 1)) {
        let e = scan_host(s, i + 1, n);
        assert(e > i + 1) by {
            assert(host_run_end(s@, i as int + 1) == host_run_end(s@, i as int + 2));
            lemma_host_run_bounds(s@, i as int + 2);
        }
        scan_segs(s, e, n)
    } else {
        i
    }
}

proof fn lemma_host_run_bounds(s: Seq<char>, i: int)
    requires
        0 <= i <= s.len(),
    ensures
        i <= host_run_end(s, i) <= s.len(),
    decreases s.len() - i,
{
    if i < s.len() && is_host_char(s[i]) {
        lemma_host_run_bounds(s, i + 1);
    }
}

fn trim_tail(s: &str, lo: usize, hi: usize) -> (e: usize)
    requires
        lo <= hi <= s@.len(),
    ensures
        e as int == tail_trim(s@, lo as int, hi as int),
        lo <= e <= hi,
{
    let mut h: usize = hi;
    while h > lo && !tail_end_char(s.get_char(h - 1))
        invariant
            lo <= h <= hi <= s@.len(),
            tail_trim(s@, lo as int, hi as int) == tail_trim(s@, lo as int, h as int),
        decreases h,
    {
        h = h - 1;
    }
    h
}

/// Decide whether a URL starts at `i`, and where it ends.
fn url_at(s: &str, i: usize, n: usize) -> (r: Option<usize>)
    requires
        i < n,
        n == s@.len(),
    ensures
        match r {
            Some(e) => e as int == url_end(s@, i as int) && i < e <= n,
            None => url_end(s@, i as int) < 0,
        },
{
    if n - i < 4 {
        return None;
    }
    if s.get_char(i) != 'h' || s.get_char(i + 1) != 't' || s.get_char(i + 2) != 't' || s.get_char(
        i + 3,
    ) != 'p' {
        return None;
    }
    let j: usize = if i + 4 < n && s.get_char(i + 4) == 's' {
        i + 5
    } else {
        i + 4
    };
    if n - j < 3 {
        return None;
    }
    if s.get_char(j) != ':' || s.get_char(j + 1) != '/' || s.get_char(j + 2) != '/' {
        return None;
    }
    let h0 = j + 3;
    let h1 = scan_host(s, h0, n);
    if h1 == h0 {
        return None;
    }
    let h2 = scan_segs(s, h1, n);
    if h2 == h1 {
        return None;
    }
    let t = scan_tail(s, h2, n);
    let e = trim_tail(s, h2, t);
    Some(e)
}

/// Scan free text for the first well-formed URL it holds.
pub fn get_url(text: &str) -> (r: Option<String>)
    ensures
        match r {
            Some(u) => first_url_start(text@, 0) >= 0 && u@ == extracted_link(text@) && u@.len()
                > 0,
            None => first_url_start(text@, 0) < 0 && extracted_link(text@).len() == 0,
        },
{
    let n = text.unicode_len();
    let mut i: usize = 0;
    while i < n
        invariant
            i <= n,
            n == text@.len(),
            first_url_start(text@, 0) == first_url_start(text@, i as int),
        decreases n - i,
    {
        match url_at(text, i, n) {
            Some(e) => {
                let sub = text.substring_char(i, e);
                return Some(sub.to_owned());
            },
            None => {
                i = i + 1;
            },
        }
    }
    None
}

} // verus!
