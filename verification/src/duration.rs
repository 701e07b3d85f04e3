//! Parser for the upstream duration code `PT[{h}H][{m}M][{s}S]`: any subset
//! of the three fields may be present, in that order, each an unsigned
//! decimal number. A malformed or overflowing code counts as zero seconds,
//! so that a bad code degrades one message instead of aborting a cycle.
use vstd::prelude::*;

use crate::text::digit;
use crate::text::digit_val;
use crate::text::is_digit;

verus! {

/// The end of the run of decimal digits starting at `i`.
pub open spec fn digits_end(s: Seq<char>, i: int) -> int
    decreases s.len() - i,
{
    if 0 <= i < s.len() && is_digit(s[i]) {
        digits_end(s, i + 1)
    } else {
        i
    }
}

/// The number denoted by a sequence of decimal digits (zero when empty).
pub open spec fn digits_val(s: Seq<char>) -> int
    decreases s.len(),
{
    if s.len() == 0 {
        0
    } else {
        digits_val(s.drop_last()) * 10 + digit_val(s.last())
    }
}

/// The position after the optional field `<digits><marker>` at `i`; `i`
/// itself when the field is absent there.
pub open spec fn field_end(s: Seq<char>, i: int, marker: char) -> int {
    let e = digits_end(s, i);
    if e > i && e < s.len() && s[e] == marker {
        e + 1
    } else {
        i
    }
}

/// The number carried by the optional field at `i`; zero when absent.
pub open spec fn field_val(s: Seq<char>, i: int, marker: char) -> int {
    let e = digits_end(s, i);
    if e > i && e < s.len() && s[e] == marker {
        digits_val(s.subrange(i, e))
    } else {
        0
    }
}

/// A well-formed duration code: the prefix `PT`, then the optional hour,
/// minute and second fields in that order, and nothing else.
pub open spec fn is_duration_code(s: Seq<char>) -> bool {
    let p1 = field_end(s, 2, 'H');
    let p2 = field_end(s, p1, 'M');
    let p3 = field_end(s, p2, 'S');
    s.len() >= 2 && s[0] == 'P' && s[1] == 'T' && p3 == s.len()
}

/// The total seconds denoted by the fields of a duration code.
pub open spec fn duration_secs(s: Seq<char>) -> int {
    let p1 = field_end(s, 2, 'H');
    let p2 = field_end(s, p1, 'M');
    field_val(s, 2, 'H') * 3600 + field_val(s, p1, 'M') * 60 + field_val(s, p2, 'S')
}

/// The seconds a code stands for, with the degradation policy applied:
/// a malformed code, or one whose total does not fit in 64 bits, is zero.
pub open spec fn duration_secs_of(s: Seq<char>) -> int {
    if is_duration_code(s) && duration_secs(s) <= u64::MAX {
        duration_secs(s)
    } else {
        0
    }
}

proof fn lemma_digits_val_nonneg(s: Seq<char>)
    requires
        forall|k: int| 0 <= k < s.len() ==> is_digit(s[k]),
    ensures
        digits_val(s) >= 0,
    decreases s.len(),
{
    if s.len() > 0 {
        lemma_digits_val_nonneg(s.drop_last());
    }
}

proof fn lemma_digits_val_mono(s: Seq<char>, k: int)
    requires
        0 <= k <= s.len(),
        forall|t: int| 0 <= t < s.len() ==> is_digit(s[t]),
    ensures
        digits_val(s.take(k)) <= digits_val(s),
    decreases s.len() - k,
{
    if k == s.len() {
        assert(s.take(k) =~= s);
    } else {
        lemma_digits_val_mono(s, k + 1);
        assert(s.take(k + 1).drop_last() =~= s.take(k));
        lemma_digits_val_nonneg(s.take(k));
        assert(digits_val(s.take(k + 1)) == digits_val(s.take(k)) * 10 + digit_val(s[k]));
    }
}

/// End of the digit run starting at `i`, found by a forward scan.
fn scan_digits(s: &str, i: usize, n: usize) -> (e: usize)
    requires
        i <= n,
        n == s@.len(),
    ensures
        e as int == digits_end(s@, i as int),
        i <= e <= n,
        forall|k: int| i <= k < e ==> is_digit(s@[k]),
{
    let mut j: usize = i;
    while j < n && digit(s.get_char(j))
        invariant
            i <= j <= n,
            n == s@.len(),
            digits_end(s@, i as int) == digits_end(s@, j as int),
            forall|k: int| i <= k < j ==> is_digit(s@[k]),
        decreases n - j,
    {
        j = j + 1;
    }
    j
}

/// The value of the digit run `s[i..e]` as a 64-bit number; the second
/// component is false when the run's value does not fit.
fn digits_to_u64(s: &str, i: usize, e: usize) -> (r: (u64, bool))
    requires
        i <= e <= s@.len(),
        forall|k: int| i <= k < e ==> is_digit(s@[k]),
    ensures
        r.1 ==> r.0 as int == digits_val(s@.subrange(i as int, e as int)),
        !r.1 ==> digits_val(s@.subrange(i as int, e as int)) > u64::MAX,
{
    let ghost t = s@.subrange(i as int, e as int);
    proof {
        assert(forall|k: int| 0 <= k < t.len() ==> is_digit(t[k]));
    }
    let mut acc: u64 = 0;
    let mut j: usize = i;
    while j < e
        invariant
            i <= j <= e <= s@.len(),
            t == s@.subrange(i as int, e as int),
            forall|k: int| i <= k < e ==> is_digit(s@[k]),
            acc as int == digits_val(t.take(j - i)),
        decreases e - j,
    {
        let c = s.get_char(j);
        let d: u64 = (c as u32 - '0' as u32) as u64;
        proof {
            assert(is_digit(s@[j as int]));
            assert(d as int == digit_val(t[j - i]));
        }
        if acc > u64::MAX / 10 || (acc == u64::MAX / 10 && d > u64::MAX % 10) {
            proof {
                assert(t.take(j - i + 1).drop_last() =~= t.take(j - i));
                assert(digits_val(t.take(j - i + 1)) == acc as int * 10 + d as int);
                assert(digits_val(t.take(j - i + 1)) > u64::MAX);
                lemma_digits_val_mono(t, j - i + 1);
            }
            return (0, false);
        }
        proof {
            assert(t.take(j - i + 1).drop_last() =~= t.take(j - i));
        }
        acc = acc * 10 + d;
        j = j + 1;
    }
    proof {
        assert(t.take(e - i) =~= t);
    }
    (acc, true)
}

/// Scan the optional field `<digits><marker>` at `i`: the position after it,
/// its value, and whether the value fits in 64 bits.
fn take_field(s: &str, i: usize, n: usize, marker: char) -> (r: (usize, u64, bool))
    requires
        i <= n,
        n == s@.len(),
    ensures
        r.0 as int == field_end(s@, i as int, marker),
        i <= r.0 <= n,
        r.2 ==> r.1 as int == field_val(s@, i as int, marker),
        !r.2 ==> field_val(s@, i as int, marker) > u64::MAX,
        field_val(s@, i as int, marker) >= 0,
{
    let e = scan_digits(s, i, n);
    if e > i && e < n && s.get_char(e) == marker {
        let (v, fits) = digits_to_u64(s, i, e);
        proof {
            lemma_digits_val_nonneg(s@.subrange(i as int, e as int));
        }
        (e + 1, v, fits)
    } else {
        (i, 0, true)
    }
}

/// Parse an upstream duration code into total whole seconds. A malformed
/// code, or one whose total overflows 64 bits, counts as zero.
pub fn get_duration(code: &str) -> (r: u64)
    ensures
        r as int == duration_secs_of(code@),
{
    let n = code.unicode_len();
    if n < 2 {
        return 0;
    }
    if code.get_char(0) != 'P' || code.get_char(1) != 'T' {
        return 0;
    }
    let (p1, h, fh) = take_field(code, 2, n, 'H');
    let (p2, m, fm) = take_field(code, p1, n, 'M');
    let (p3, sec, fs) = take_field(code, p2, n, 'S');
    if p3 != n {
        return 0;
    }
    if !(fh && fm && fs) {
        return 0;
    }
    let total: u128 = h as u128 * 3600 + m as u128 * 60 + sec as u128;
    if total > u64::MAX as u128 {
        return 0;
    }
    total as u64
}

} // verus!
