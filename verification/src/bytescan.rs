//! Byte-level scanning primitives shared by the /proc text parsers: line and
//! token boundaries, whitespace trimming, and bounded decimal parsing.

use vstd::prelude::*;

verus! {

/// A line break.
pub open spec fn is_nl(b: u8) -> bool {
    b == 10
}

/// Horizontal whitespace (and the carriage return) as the parsed files use
/// it.
pub open spec fn is_ws(b: u8) -> bool {
    b == 32 || b == 9 || b == 13
}

/// An ASCII decimal digit.
pub open spec fn is_dec_digit(b: u8) -> bool {
    48 <= b <= 57
}

/// The index of the first byte at or after `from` that satisfies `p`, or the
/// sequence's length when none does.
pub open spec fn scan_to(s: Seq<u8>, from: int, p: spec_fn(u8) -> bool) -> int
    decreases s.len() - from
        when 0 <= from
{
    if from >= s.len() {
        s.len() as int
    } else if p(s[from]) {
        from
    } else {
        scan_to(s, from + 1, p)
    }
}

/// The index of the first line break at or after `from`, or the length.
pub open spec fn next_nl(s: Seq<u8>, from: int) -> int {
    scan_to(s, from, |b: u8| is_nl(b))
}

/// The first non-whitespace index at or after `from`.
pub open spec fn first_non_ws(s: Seq<u8>, from: int) -> int {
    scan_to(s, from, |b: u8| !is_ws(b))
}

/// The first whitespace index at or after `from`.
pub open spec fn first_ws(s: Seq<u8>, from: int) -> int {
    scan_to(s, from, |b: u8| is_ws(b))
}

/// The first colon at or after `from`.
pub open spec fn first_colon(s: Seq<u8>, from: int) -> int {
    scan_to(s, from, |b: u8| b == 58)
}

pub proof fn lemma_next_nl_bounds(s: Seq<u8>, from: int)
    requires
        0 <= from <= s.len(),
    ensures
        from <= next_nl(s, from) <= s.len(),
    decreases s.len() - from,
{
    if from < s.len() && !is_nl(s[from]) {
        lemma_next_nl_bounds(s, from + 1);
    }
}

pub proof fn lemma_first_non_ws_bounds(s: Seq<u8>, from: int)
    requires
        0 <= from <= s.len(),
    ensures
        from <= first_non_ws(s, from) <= s.len(),
    decreases s.len() - from,
{
    if from < s.len() && is_ws(s[from]) {
        lemma_first_non_ws_bounds(s, from + 1);
    }
}

pub proof fn lemma_first_ws_bounds(s: Seq<u8>, from: int)
    requires
        0 <= from <= s.len(),
    ensures
        from <= first_ws(s, from) <= s.len(),
    decreases s.len() - from,
{
    if from < s.len() && !is_ws(s[from]) {
        lemma_first_ws_bounds(s, from + 1);
    }
}

pub proof fn lemma_first_colon_bounds(s: Seq<u8>, from: int)
    requires
        0 <= from <= s.len(),
    ensures
        from <= first_colon(s, from) <= s.len(),
    decreases s.len() - from,
{
    if from < s.len() && s[from] != 58 {
        lemma_first_colon_bounds(s, from + 1);
    }
}

/// The end of `s[lo..hi]` once trailing whitespace is dropped: the largest
/// `e` in `[lo, hi]` such that `s[e - 1]` is no whitespace (or `lo` when all
/// of the range is).
pub open spec fn trimmed_end(s: Seq<u8>, lo: int, hi: int) -> int
    decreases hi - lo
        when lo <= hi
{
    if hi <= lo {
        lo
    } else if is_ws(s[hi - 1]) {
        trimmed_end(s, lo, hi - 1)
    } else {
        hi
    }
}

pub proof fn lemma_trimmed_end_bounds(s: Seq<u8>, lo: int, hi: int)
    requires
        lo <= hi,
    ensures
        lo <= trimmed_end(s, lo, hi) <= hi,
    decreases hi - lo,
{
    if hi > lo && is_ws(s[hi - 1]) {
        lemma_trimmed_end_bounds(s, lo, hi - 1);
    }
}

/// `s` with leading and trailing whitespace dropped.
pub open spec fn trim_ws(s: Seq<u8>) -> Seq<u8> {
    let a = first_non_ws(s, 0);
    if a >= s.len() {
        Seq::empty()
    } else {
        s.subrange(a, trimmed_end(s, a, s.len() as int))
    }
}

/// `p` is a prefix of `s`.
pub open spec fn starts_with(s: Seq<u8>, p: Seq<u8>) -> bool {
    p.len() <= s.len() && s.subrange(0, p.len() as int) == p
}

/// The value of a digit string read left to right.
pub open spec fn dec_value(s: Seq<u8>) -> int
    decreases s.len(),
{
    if s.len() == 0 {
        0
    } else {
        dec_value(s.drop_last()) * 10 + (s.last() - 48)
    }
}

pub open spec fn all_digits(s: Seq<u8>) -> bool {
    forall|i: int| 0 <= i < s.len() ==> is_dec_digit(#[trigger] s[i])
}

/// A non-empty all-digit string whose value fits an `i64` parses to that
/// value; everything else is rejected.
pub open spec fn parse_dec_i64(s: Seq<u8>) -> Option<int> {
    if s.len() > 0 && all_digits(s) && dec_value(s) <= i64::MAX {
        Some(dec_value(s))
    } else {
        None
    }
}

pub proof fn lemma_dec_value_nonneg(s: Seq<u8>)
    requires
        all_digits(s),
    ensures
        dec_value(s) >= 0,
    decreases s.len(),
{
    if s.len() > 0 {
        assert(all_digits(s.drop_last()));
        lemma_dec_value_nonneg(s.drop_last());
    }
}

/// Reading more digits never shrinks the value.
pub proof fn lemma_dec_value_take_le(s: Seq<u8>, k: int)
    requires
        all_digits(s),
        0 <= k <= s.len(),
    ensures
        dec_value(s.take(k)) <= dec_value(s),
    decreases s.len() - k,
{
    if k < s.len() {
        lemma_dec_value_take_le(s, k + 1);
        let t = s.take(k + 1);
        assert(t.drop_last() =~= s.take(k));
        assert(all_digits(t));
        lemma_dec_value_nonneg(t.drop_last());
        assert(dec_value(t) == dec_value(s.take(k)) * 10 + (t.last() - 48));
    } else {
        assert(s.take(k) =~= s);
    }
}

/// First index at or after `from` holding a line break, or the length.
pub fn find_nl(s: &[u8], from: usize) -> (r: usize)
    requires
        from <= s@.len(),
    ensures
        r == next_nl(s@, from as int),
{
    let mut i = from;
    while i < s.len() && s[i] != 10
        invariant
            from <= i <= s@.len(),
            next_nl(s@, from as int) == next_nl(s@, i as int),
        decreases s@.len() - i,
    {
        i = i + 1;
    }
    i
}

/// First index at or after `from` holding something besides whitespace, or
/// the length.
pub fn find_non_ws(s: &[u8], from: usize) -> (r: usize)
    requires
        from <= s@.len(),
    ensures
        r == first_non_ws(s@, from as int),
{
    let mut i = from;
    while i < s.len() && (s[i] == 32 || s[i] == 9 || s[i] == 13)
        invariant
            from <= i <= s@.len(),
            first_non_ws(s@, from as int) == first_non_ws(s@, i as int),
        decreases s@.len() - i,
    {
        i = i + 1;
    }
    i
}

/// First whitespace index at or after `from`, or the length.
pub fn find_ws(s: &[u8], from: usize) -> (r: usize)
    requires
        from <= s@.len(),
    ensures
        r == first_ws(s@, from as int),
{
    let mut i = from;
    while i < s.len() && !(s[i] == 32 || s[i] == 9 || s[i] == 13)
        invariant
            from <= i <= s@.len(),
            first_ws(s@, from as int) == first_ws(s@, i as int),
        decreases s@.len() - i,
    {
        i = i + 1;
    }
    i
}

/// First colon index at or after `from`, or the length.
pub fn find_colon(s: &[u8], from: usize) -> (r: usize)
    requires
        from <= s@.len(),
    ensures
        r == first_colon(s@, from as int),
{
    let mut i = from;
    while i < s.len() && s[i] != 58
        invariant
            from <= i <= s@.len(),
            first_colon(s@, from as int) == first_colon(s@, i as int),
        decreases s@.len() - i,
    {
        i = i + 1;
    }
    i
}

/// The end of `s[lo..hi]` without its trailing whitespace.
pub fn find_trimmed_end(s: &[u8], lo: usize, hi: usize) -> (r: usize)
    requires
        lo <= hi <= s@.len(),
    ensures
        r == trimmed_end(s@, lo as int, hi as int),
{
    let mut e = hi;
    while e > lo && (s[e - 1] == 32 || s[e - 1] == 9 || s[e - 1] == 13)
        invariant
            lo <= e <= hi <= s@.len(),
            trimmed_end(s@, lo as int, hi as int) == trimmed_end(s@, lo as int, e as int),
        decreases e,
    {
        e = e - 1;
    }
    e
}

/// A copy of `s[lo..hi]`.
pub fn copy_range(s: &[u8], lo: usize, hi: usize) -> (r: Vec<u8>)
    requires
        lo <= hi <= s@.len(),
    ensures
        r@ == s@.subrange(lo as int, hi as int),
{
    let mut v: Vec<u8> = Vec::new();
    let mut i = lo;
    while i < hi
        invariant
            lo <= i <= hi <= s@.len(),
            v@ =~= s@.subrange(lo as int, i as int),
        decreases hi - i,
    {
        v.push(s[i]);
        assert(v@ =~= s@.subrange(lo as int, i as int + 1));
        i = i + 1;
    }
    assert(v@ =~= s@.subrange(lo as int, hi as int));
    v
}

/// Whether `p` is a prefix of `s`.
pub fn starts_with_bytes(s: &[u8], p: &[u8]) -> (r: bool)
    ensures
        r == starts_with(s@, p@),
{
    if p.len() > s.len() {
        assert(!starts_with(s@, p@));
        return false;
    }
    let mut i: usize = 0;
    while i < p.len()
        invariant
            0 <= i <= p@.len() <= s@.len(),
            forall|j: int| 0 <= j < i ==> s@[j] == p@[j],
        decreases p@.len() - i,
    {
        if s[i] != p[i] {
            assert(s@.subrange(0, p@.len() as int)[i as int] != p@[i as int]);
            return false;
        }
        i = i + 1;
    }
    assert(s@.subrange(0, p@.len() as int) =~= p@);
    true
}

/// Whether two byte strings hold the same bytes.
pub fn bytes_eq(a: &[u8], b: &[u8]) -> (r: bool)
    ensures
        r == (a@ == b@),
{
    if a.len() != b.len() {
        return false;
    }
    let mut i: usize = 0;
    while i < a.len()
        invariant
            0 <= i <= a@.len(),
            a@.len() == b@.len(),
            forall|j: int| 0 <= j < i ==> a@[j] == b@[j],
        decreases a@.len() - i,
    {
        if a[i] != b[i] {
            return false;
        }
        i = i + 1;
    }
    assert(a@ =~= b@);
    true
}

/// Parse `s[lo..hi]` as a non-negative decimal `i64`; `None` on an empty or
/// non-digit string and on a value above the `i64` ceiling.
pub fn parse_dec_range(s: &[u8], lo: usize, hi: usize) -> (r: Option<i64>)
    requires
        lo <= hi <= s@.len(),
    ensures
        match r {
            Some(v) => parse_dec_i64(s@.subrange(lo as int, hi as int)) == Some(v as int) && v
                >= 0,
            None => parse_dec_i64(s@.subrange(lo as int, hi as int)) is None,
        },
{
    let ghost t = s@.subrange(lo as int, hi as int);
    if lo == hi {
        return None;
    }
    let mut acc: i64 = 0;
    let mut i = lo;
    while i < hi
        invariant
            lo <= i <= hi <= s@.len(),
            t == s@.subrange(lo as int, hi as int),
            all_digits(t.take(i - lo)),
            acc as int == dec_value(t.take(i - lo)),
            acc >= 0,
        decreases hi - i,
    {
        let b = s[i];
        if b < 48 || b > 57 {
            proof {
                assert(t[i - lo] == b && !is_dec_digit(b));
                assert(!all_digits(t));
            }
            return None;
        }
        let d = (b - 48) as i64;
        proof {
            assert(t[i - lo] == b);
            let t1 = t.take(i - lo + 1);
            assert(t1.drop_last() =~= t.take(i - lo));
            assert(t1.last() == b);
            assert(all_digits(t1)) by {
                assert(forall|j: int|
                    0 <= j < i - lo ==> #[trigger] t1[j] == t.take(i - lo)[j]);
            }
            assert(dec_value(t1) == acc as int * 10 + d);
        }
        if acc > (i64::MAX - d) / 10 {
            proof {
                lemma_div_by_ten(i64::MAX - d, acc as int);
                assert(dec_value(t.take(i - lo + 1)) > i64::MAX);
                lemma_overflowing_prefix(t, i - lo + 1);
            }
            return None;
        }
        proof {
            lemma_div_by_ten(i64::MAX - d, acc as int);
        }
        acc = acc * 10 + d;
        i = i + 1;
    }
    proof {
        assert(t.take(hi - lo) =~= t);
    }
    Some(acc)
}

/// For non-negative `y`: `x` is above `y / 10` exactly when `10 x` is above
/// `y - 9`; both directions of the decimal accumulator's overflow guard.
proof fn lemma_div_by_ten(y: int, x: int)
    requires
        y >= 0,
    ensures
        x > y / 10 ==> 10 * x > y,
        x <= y / 10 ==> 10 * x <= y,
{
    vstd::arithmetic::div_mod::lemma_fundamental_div_mod(y, 10);
    vstd::arithmetic::div_mod::lemma_mod_bound(y, 10);
}

/// When some prefix of an all-digit string already exceeds the ceiling, the
/// whole string does, so it does not parse.
proof fn lemma_overflowing_prefix(t: Seq<u8>, k: int)
    requires
        0 <= k <= t.len(),
        all_digits(t.take(k)),
        dec_value(t.take(k)) > i64::MAX,
    ensures
        parse_dec_i64(t) is None,
{
    if all_digits(t) {
        lemma_dec_value_take_le(t, k);
    }
}

} // verus!
