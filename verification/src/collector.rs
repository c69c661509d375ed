//! System metrics sampling logic.
//!
//! The embedding program owns the tick loop and the host-metrics facility
//! (CPU and memory figures are floating point there); everything that
//! decides or computes — delta clamping, the /proc counter and connection
//! parsers, and the address frequency counts behind the entropy figure —
//! lives here. The facility must be refreshed once, unrecorded, before the
//! first real sample: its first CPU reading is unreliable and must not be
//! reported as data.

use vstd::prelude::*;
use vstd::string::*;
use crate::bytescan::{
    copy_range, find_colon, find_nl, find_non_ws, find_trimmed_end, find_ws, first_colon,
    first_non_ws, first_ws, lemma_first_colon_bounds, lemma_first_non_ws_bounds,
    lemma_first_ws_bounds, lemma_next_nl_bounds, lemma_trimmed_end_bounds, next_nl, parse_dec_i64,
    parse_dec_range, starts_with, starts_with_bytes, trim_ws,
};
use crate::store::SystemSample;

verus! {

/// max(0, cur - prev), saturating at the column's ceiling: a raw counter
/// that decreased (a process restart, a wrapped counter) yields 0, never a
/// negative delta.
pub open spec fn spec_clamped_delta(cur: int, prev: int) -> int {
    if cur <= prev {
        0
    } else if cur - prev <= i64::MAX {
        cur - prev
    } else {
        i64::MAX as int
    }
}

/// The non-negative change from `prev` to `cur`.
pub fn clamped_delta(cur: i64, prev: i64) -> (r: i64)
    ensures
        r as int == spec_clamped_delta(cur as int, prev as int),
        r >= 0,
{
    if cur <= prev {
        0
    } else {
        let wide: i128 = cur as i128 - prev as i128;
        if wide > i64::MAX as i128 {
            i64::MAX
        } else {
            wide as i64
        }
    }
}

pub open spec fn read_key() -> Seq<u8> {
    "read_bytes: ".spec_bytes()
}

pub open spec fn write_key() -> Seq<u8> {
    "write_bytes: ".spec_bytes()
}

/// The counter a line reports under `key`: present exactly when the line
/// starts with the key; the rest of the line, trimmed, read as a decimal
/// (zero when it is not one that fits the column).
pub open spec fn parsed_counter(line: Seq<u8>, key: Seq<u8>) -> Option<int> {
    if starts_with(line, key) {
        match parse_dec_i64(trim_ws(line.skip(key.len() as int))) {
            Some(v) => Some(v),
            None => Some(0),
        }
    } else {
        None
    }
}

/// Fold over the lines from `from` on: each line reporting a counter
/// overrides the accumulated value; the result is the final (read, write)
/// pair.
pub open spec fn io_scan(s: Seq<u8>, from: int, r: int, w: int) -> (int, int)
    decreases s.len() - from + 1
        when 0 <= from
        via io_scan_decreases
{
    if from >= s.len() {
        (r, w)
    } else {
        let end = next_nl(s, from);
        let line = s.subrange(from, end);
        let r2 = match parsed_counter(line, read_key()) {
            Some(v) => v,
            None => r,
        };
        let w2 = match parsed_counter(line, write_key()) {
            Some(v) => v,
            None => w,
        };
        io_scan(s, end + 1, r2, w2)
    }
}

#[via_fn]
proof fn io_scan_decreases(s: Seq<u8>, from: int, r: int, w: int) {
    if 0 <= from < s.len() {
        lemma_next_nl_bounds(s, from);
    }
}

/// The (read_bytes, write_bytes) pair reported by the text of /proc/self/io,
/// starting from (0, 0).
pub open spec fn spec_parse_proc_io(s: Seq<u8>) -> (int, int) {
    io_scan(s, 0, 0, 0)
}

/// The counter one line reports under `key`, if any.
fn parse_counter_line(line: &[u8], key: &[u8]) -> (r: Option<i64>)
    ensures
        match r {
            Some(v) => parsed_counter(line@, key@) == Some(v as int) && v >= 0,
            None => parsed_counter(line@, key@) is None,
        },
{
    if !starts_with_bytes(line, key) {
        return None;
    }
    let tail = copy_range(line, key.len(), line.len());
    proof {
        assert(tail@ =~= line@.skip(key@.len() as int));
    }
    let a = find_non_ws(tail.as_slice(), 0);
    proof {
        lemma_first_non_ws_bounds(tail@, 0);
    }
    if a >= tail.len() {
        // All whitespace: no digits, so the counter reads as zero.
        return Some(0);
    }
    let e = find_trimmed_end(tail.as_slice(), a, tail.len());
    proof {
        lemma_trimmed_end_bounds(tail@, a as int, tail@.len() as int);
        assert(trim_ws(tail@) == tail@.subrange(a as int, e as int));
    }
    match parse_dec_range(tail.as_slice(), a, e) {
        Some(v) => Some(v),
        None => Some(0),
    }
}

/// Read the cumulative (read_bytes, write_bytes) counters out of the text of
/// /proc/self/io. A missing counter reads as zero; when a counter line
/// repeats, the last one wins.
pub fn parse_proc_io(content: &[u8]) -> (r: (i64, i64))
    ensures
        (r.0 as int, r.1 as int) == spec_parse_proc_io(content@),
        r.0 >= 0,
        r.1 >= 0,
{
    let mut rv: i64 = 0;
    let mut wv: i64 = 0;
    let mut pos: usize = 0;
    while pos < content.len()
        invariant
            0 <= pos <= content@.len(),
            io_scan(content@, pos as int, rv as int, wv as int) == spec_parse_proc_io(content@),
            rv >= 0,
            wv >= 0,
        decreases content@.len() - pos,
    {
        let end = find_nl(content, pos);
        proof {
            lemma_next_nl_bounds(content@, pos as int);
        }
        let line = copy_range(content, pos, end);
        let r_new = match parse_counter_line(line.as_slice(), "read_bytes: ".as_bytes()) {
            Some(v) => v,
            None => rv,
        };
        let w_new = match parse_counter_line(line.as_slice(), "write_bytes: ".as_bytes()) {
            Some(v) => v,
            None => wv,
        };
        proof {
            assert(io_scan(content@, pos as int, rv as int, wv as int) == io_scan(
                content@,
                end as int + 1,
                r_new as int,
                w_new as int,
            ));
        }
        rv = r_new;
        wv = w_new;
        if end >= content.len() {
            proof {
                assert(io_scan(content@, end as int + 1, rv as int, wv as int) == (
                    rv as int,
                    wv as int,
                ));
                assert(io_scan(content@, content@.len() as int, rv as int, wv as int) == (
                    rv as int,
                    wv as int,
                ));
            }
            pos = content.len();
        } else {
            pos = end + 1;
        }
    }
    (rv, wv)
}

/// The third whitespace-separated field of a line, when the line has at
/// least three fields. In the /proc/net/tcp tables that field is the remote
/// address, `hex-ip:hex-port`.
pub open spec fn third_field(line: Seq<u8>) -> Option<Seq<u8>> {
    let a0 = first_non_ws(line, 0);
    let e0 = first_ws(line, a0);
    let a1 = first_non_ws(line, e0);
    let e1 = first_ws(line, a1);
    let a2 = first_non_ws(line, e1);
    let e2 = first_ws(line, a2);
    if a2 < line.len() {
        Some(line.subrange(a2, e2))
    } else {
        None
    }
}

/// The remote address a connection line reports: its third field up to the
/// first colon (the hex IP without the port).
pub open spec fn line_addr(line: Seq<u8>) -> Option<Seq<u8>> {
    match third_field(line) {
        Some(f) => Some(f.subrange(0, first_colon(f, 0))),
        None => None,
    }
}

/// The remote addresses reported by the lines from `from` on, in line order.
pub open spec fn addrs_scan(s: Seq<u8>, from: int) -> Seq<Seq<u8>>
    decreases s.len() - from + 1
        when 0 <= from
        via addrs_scan_decreases
{
    if from >= s.len() {
        Seq::empty()
    } else {
        let end = next_nl(s, from);
        let rest = addrs_scan(s, end + 1);
        match line_addr(s.subrange(from, end)) {
            Some(a) => seq![a] + rest,
            None => rest,
        }
    }
}

#[via_fn]
proof fn addrs_scan_decreases(s: Seq<u8>, from: int) {
    if 0 <= from < s.len() {
        lemma_next_nl_bounds(s, from);
    }
}

/// The remote addresses of one /proc/net/tcp (or tcp6) table: one per
/// connection row, the header line skipped.
pub open spec fn spec_remote_addrs(s: Seq<u8>) -> Seq<Seq<u8>> {
    addrs_scan(s, next_nl(s, 0) + 1)
}

/// The bounds of the third field of `line`, when there is one.
fn third_field_exec(line: &[u8]) -> (r: Option<(usize, usize)>)
    ensures
        match r {
            Some(p) => {
                &&& third_field(line@) matches Some(f)
                &&& p.0 <= p.1 <= line@.len()
                &&& line@.subrange(p.0 as int, p.1 as int) == f
            },
            None => third_field(line@) is None,
        },
{
    let a0 = find_non_ws(line, 0);
    proof {
        lemma_first_non_ws_bounds(line@, 0);
    }
    let e0 = find_ws(line, a0);
    proof {
        lemma_first_ws_bounds(line@, a0 as int);
    }
    let a1 = find_non_ws(line, e0);
    proof {
        lemma_first_non_ws_bounds(line@, e0 as int);
    }
    let e1 = find_ws(line, a1);
    proof {
        lemma_first_ws_bounds(line@, a1 as int);
    }
    let a2 = find_non_ws(line, e1);
    proof {
        lemma_first_non_ws_bounds(line@, e1 as int);
    }
    if a2 >= line.len() {
        return None;
    }
    let e2 = find_ws(line, a2);
    proof {
        lemma_first_ws_bounds(line@, a2 as int);
    }
    Some((a2, e2))
}

/// Append the remote addresses named by one /proc/net/tcp table (header line
/// skipped) to `out`, in line order.
pub fn extract_remote_addrs(content: &[u8], out: &mut Vec<Vec<u8>>)
    ensures
        final(out)@.map_values(|v: Vec<u8>| v@) == old(out)@.map_values(|v: Vec<u8>| v@)
            + spec_remote_addrs(content@),
{
    let first_end = find_nl(content, 0);
    proof {
        lemma_next_nl_bounds(content@, 0);
    }
    let mut pos: usize = 0;
    if first_end >= content.len() {
        pos = content.len();
        proof {
            assert(spec_remote_addrs(content@) =~= Seq::<Seq<u8>>::empty());
            assert(out@.map_values(|v: Vec<u8>| v@) =~= out@.map_values(|v: Vec<u8>| v@)
                + spec_remote_addrs(content@));
        }
        return ;
    } else {
        pos = first_end + 1;
    }
    while pos < content.len()
        invariant
            0 <= pos <= content@.len(),
            out@.map_values(|v: Vec<u8>| v@) + addrs_scan(content@, pos as int) == old(
                out,
            )@.map_values(|v: Vec<u8>| v@) + spec_remote_addrs(content@),
        decreases content@.len() - pos,
    {
        let end = find_nl(content, pos);
        proof {
            lemma_next_nl_bounds(content@, pos as int);
        }
        let line = copy_range(content, pos, end);
        match third_field_exec(line.as_slice()) {
            Some((a2, e2)) => {
                let field = copy_range(line.as_slice(), a2, e2);
                let c = find_colon(field.as_slice(), 0);
                proof {
                    lemma_first_colon_bounds(field@, 0);
                }
                let addr = copy_range(field.as_slice(), 0, c);
                proof {
                    let ghost prior = out@.map_values(|v: Vec<u8>| v@);
                    assert(line_addr(line@) == Some(addr@));
                    assert((seq![addr@] + addrs_scan(content@, end as int + 1))
                        == addrs_scan(content@, pos as int));
                }
                let ghost out_before = out@;
                out.push(addr);
                proof {
                    assert(out@.map_values(|v: Vec<u8>| v@) =~= out_before.map_values(
                        |v: Vec<u8>| v@,
                    ).push(out@.last()@));
                    assert(out@.map_values(|v: Vec<u8>| v@) + addrs_scan(content@, end as int + 1)
                        =~= out_before.map_values(|v: Vec<u8>| v@) + addrs_scan(
                        content@,
                        pos as int,
                    ));
                }
            },
            None => {
                proof {
                    assert(addrs_scan(content@, end as int + 1) == addrs_scan(
                        content@,
                        pos as int,
                    ));
                }
            },
        }
        if end >= content.len() {
            proof {
                assert(addrs_scan(content@, end as int + 1) =~= Seq::<Seq<u8>>::empty());
                assert(addrs_scan(content@, content@.len() as int) =~= Seq::<Seq<u8>>::empty());
            }
            pos = content.len();
        } else {
            pos = end + 1;
        }
    }
}

/// Occurrences of `v` among `s`.
pub open spec fn count_of(s: Seq<Seq<u8>>, v: Seq<u8>) -> int
    decreases s.len(),
{
    if s.len() == 0 {
        0
    } else {
        count_of(s.drop_last(), v) + if s.last() == v {
            1int
        } else {
            0int
        }
    }
}

/// The distinct values of `s`, in first-occurrence order.
pub open spec fn firsts(s: Seq<Seq<u8>>) -> Seq<Seq<u8>>
    decreases s.len(),
{
    if s.len() == 0 {
        Seq::empty()
    } else {
        let rest = firsts(s.drop_last());
        if rest.contains(s.last()) {
            rest
        } else {
            rest.push(s.last())
        }
    }
}

/// The frequency of each distinct address of `s`, in first-occurrence order:
/// the multiset the Shannon entropy figure is computed over. (The entropy
/// itself, −Σ (c/n)·log2(c/n), is floating point and is evaluated by the
/// embedding program from exactly these counts.)
pub open spec fn spec_addr_counts(s: Seq<Seq<u8>>) -> Seq<int> {
    firsts(s).map_values(|v: Seq<u8>| count_of(s, v))
}

proof fn lemma_firsts_contains(s: Seq<Seq<u8>>, x: Seq<u8>)
    ensures
        firsts(s).contains(x) <==> s.contains(x),
    decreases s.len(),
{
    if s.len() > 0 {
        lemma_firsts_contains(s.drop_last(), x);
        if s.contains(x) {
            if x == s.last() {
                assert(firsts(s).contains(x)) by {
                    if !firsts(s.drop_last()).contains(x) {
                        assert(firsts(s).last() == x);
                    }
                }
            } else {
                let i = choose|i: int| 0 <= i < s.len() && s[i] == x;
                assert(s.drop_last()[i] == x);
                assert(s.drop_last().contains(x));
                if !firsts(s.drop_last()).contains(s.last()) {
                    assert(firsts(s) == firsts(s.drop_last()).push(s.last()));
                    let j = choose|j: int|
                        0 <= j < firsts(s.drop_last()).len() && firsts(s.drop_last())[j] == x;
                    assert(firsts(s)[j] == x);
                }
            }
        } else {
            assert(!s.drop_last().contains(x)) by {
                if s.drop_last().contains(x) {
                    let i = choose|i: int| 0 <= i < s.drop_last().len() && s.drop_last()[i] == x;
                    assert(s[i] == x);
                }
            }
            assert(x != s.last()) by {
                if x == s.last() {
                    assert(s[s.len() - 1] == x);
                }
            }
            assert(!firsts(s).contains(x)) by {
                if firsts(s).contains(x) {
                    let j = choose|j: int| 0 <= j < firsts(s).len() && firsts(s)[j] == x;
                    if !firsts(s.drop_last()).contains(s.last()) && j == firsts(s).len() - 1 {
                        assert(x == s.last());
                    } else {
                        assert(firsts(s.drop_last())[j] == x);
                    }
                }
            }
        }
    }
}

/// The per-address counts behind the entropy figure: for each distinct
/// address, in first-occurrence order, how many of the connections name it.
pub fn address_counts(addrs: &Vec<Vec<u8>>) -> (r: Vec<u64>)
    ensures
        r@.map_values(|c: u64| c as int) == spec_addr_counts(
            addrs@.map_values(|v: Vec<u8>| v@),
        ),
{
    let ghost ss = addrs@.map_values(|v: Vec<u8>| v@);
    let mut counts: Vec<u64> = Vec::new();
    let mut j: usize = 0;
    while j < addrs.len()
        invariant
            0 <= j <= addrs@.len(),
            ss == addrs@.map_values(|v: Vec<u8>| v@),
            counts@.map_values(|c: u64| c as int) == firsts(ss.take(j as int)).map_values(
                |v: Seq<u8>| count_of(ss, v),
            ),
        decreases addrs@.len() - j,
    {
        // Is this the first occurrence of the address?
        let mut seen = false;
        let mut i: usize = 0;
        while i < j
            invariant
                0 <= i <= j < addrs@.len(),
                ss == addrs@.map_values(|v: Vec<u8>| v@),
                seen <==> exists|k: int| 0 <= k < i && #[trigger] ss[k] == ss[j as int],
            decreases j - i,
        {
            if crate::bytescan::bytes_eq(addrs[i].as_slice(), addrs[j].as_slice()) {
                proof {
                    assert(ss[i as int] == ss[j as int]);
                }
                seen = true;
            }
            i = i + 1;
        }
        proof {
            assert(seen <==> ss.take(j as int).contains(ss[j as int])) by {
                if seen {
                    let k = choose|k: int| 0 <= k < j && ss[k] == ss[j as int];
                    assert(ss.take(j as int)[k] == ss[j as int]);
                }
                if ss.take(j as int).contains(ss[j as int]) {
                    let k = choose|k: int|
                        0 <= k < j && ss.take(j as int)[k] == ss[j as int];
                    assert(ss[k] == ss[j as int]);
                }
            }
            assert(ss.take(j as int + 1).drop_last() =~= ss.take(j as int));
            assert(ss.take(j as int + 1).last() == ss[j as int]);
            lemma_firsts_contains(ss.take(j as int), ss[j as int]);
        }
        if !seen {
            // Count every occurrence across the whole list.
            let mut c: u64 = 0;
            let mut i2: usize = 0;
            while i2 < addrs.len()
                invariant
                    0 <= i2 <= addrs@.len(),
                    ss == addrs@.map_values(|v: Vec<u8>| v@),
                    j < addrs@.len(),
                    c as int == count_of(ss.take(i2 as int), ss[j as int]),
                    c as int <= i2 as int,
                decreases addrs@.len() - i2,
            {
                proof {
                    assert(ss.take(i2 as int + 1).drop_last() =~= ss.take(i2 as int));
                }
                if crate::bytescan::bytes_eq(addrs[i2].as_slice(), addrs[j].as_slice()) {
                    c = c + 1;
                }
                i2 = i2 + 1;
            }
            proof {
                assert(ss.take(addrs@.len() as int) =~= ss);
                assert(firsts(ss.take(j as int + 1)) == firsts(ss.take(j as int)).push(
                    ss[j as int],
                ));
            }
            let ghost counts_before = counts@;
            counts.push(c);
            proof {
                assert(counts@.map_values(|x: u64| x as int) =~= counts_before.map_values(
                    |x: u64| x as int,
                ).push(c as int));
                assert(counts@.map_values(|x: u64| x as int) =~= firsts(
                    ss.take(j as int + 1),
                ).map_values(|v: Seq<u8>| count_of(ss, v)));
            }
        } else {
            proof {
                assert(firsts(ss.take(j as int + 1)) == firsts(ss.take(j as int)));
            }
        }
        j = j + 1;
    }
    proof {
        assert(ss.take(addrs@.len() as int) =~= ss);
    }
    counts
}

/// Sum of a sequence of counts.
pub open spec fn sum_of(xs: Seq<int>) -> int
    decreases xs.len(),
{
    if xs.len() == 0 {
        0
    } else {
        sum_of(xs.drop_last()) + xs.last()
    }
}

/// The counts of `spec_addr_counts`, folded rather than mapped, for the
/// inductive proofs below.
spec fn counts_for(f: Seq<Seq<u8>>, s: Seq<Seq<u8>>) -> Seq<int>
    decreases f.len(),
{
    if f.len() == 0 {
        Seq::empty()
    } else {
        counts_for(f.drop_last(), s).push(count_of(s, f.last()))
    }
}

proof fn lemma_counts_for_index(f: Seq<Seq<u8>>, s: Seq<Seq<u8>>)
    ensures
        counts_for(f, s).len() == f.len(),
        forall|k: int| 0 <= k < f.len() ==> counts_for(f, s)[k] == count_of(s, f[k]),
    decreases f.len(),
{
    if f.len() > 0 {
        lemma_counts_for_index(f.drop_last(), s);
        assert forall|k: int| 0 <= k < f.len() implies counts_for(f, s)[k] == count_of(
            s,
            f[k],
        ) by {
            if k < f.len() - 1 {
                assert(counts_for(f, s)[k] == counts_for(f.drop_last(), s)[k]);
                assert(f.drop_last()[k] == f[k]);
            }
        }
    }
}

proof fn lemma_addr_counts_as_counts_for(s: Seq<Seq<u8>>)
    ensures
        spec_addr_counts(s) == counts_for(firsts(s), s),
{
    lemma_counts_for_index(firsts(s), s);
    assert(spec_addr_counts(s) =~= counts_for(firsts(s), s));
}

proof fn lemma_firsts_no_duplicates(s: Seq<Seq<u8>>)
    ensures
        forall|i: int, k: int| 0 <= i < k < firsts(s).len() ==> firsts(s)[i] != firsts(s)[k],
    decreases s.len(),
{
    if s.len() > 0 {
        lemma_firsts_no_duplicates(s.drop_last());
        let rest = firsts(s.drop_last());
        if !rest.contains(s.last()) {
            assert forall|i: int, k: int|
                0 <= i < k < firsts(s).len() implies firsts(s)[i] != firsts(s)[k] by {
                if k == firsts(s).len() - 1 {
                    assert(firsts(s)[i] == rest[i]);
                    if rest[i] == s.last() {
                        assert(rest.contains(s.last()));
                    }
                } else {
                    assert(firsts(s)[i] == rest[i] && firsts(s)[k] == rest[k]);
                }
            }
        }
    }
}

proof fn lemma_sum_push(xs: Seq<int>, y: int)
    ensures
        sum_of(xs.push(y)) == sum_of(xs) + y,
{
    assert(xs.push(y).drop_last() =~= xs);
    assert(xs.push(y).last() == y);
}

proof fn lemma_counts_unchanged(f: Seq<Seq<u8>>, t: Seq<Seq<u8>>, x: Seq<u8>)
    requires
        !f.contains(x),
    ensures
        counts_for(f, t.push(x)) == counts_for(f, t),
    decreases f.len(),
{
    if f.len() > 0 {
        assert(!f.drop_last().contains(x)) by {
            if f.drop_last().contains(x) {
                let i = choose|i: int| 0 <= i < f.drop_last().len() && f.drop_last()[i] == x;
                assert(f[i] == x);
            }
        }
        lemma_counts_unchanged(f.drop_last(), t, x);
        assert(f.last() != x) by {
            if f.last() == x {
                assert(f[f.len() - 1] == x);
            }
        }
        assert(t.push(x).drop_last() =~= t);
        assert(count_of(t.push(x), f.last()) == count_of(t, f.last()));
    }
}

proof fn lemma_counts_bump(f: Seq<Seq<u8>>, t: Seq<Seq<u8>>, x: Seq<u8>)
    requires
        forall|i: int, k: int| 0 <= i < k < f.len() ==> f[i] != f[k],
        f.contains(x),
    ensures
        sum_of(counts_for(f, t.push(x))) == sum_of(counts_for(f, t)) + 1,
    decreases f.len(),
{
    let fd = f.drop_last();
    assert(t.push(x).drop_last() =~= t);
    if f.last() == x {
        assert(!fd.contains(x)) by {
            if fd.contains(x) {
                let i = choose|i: int| 0 <= i < fd.len() && fd[i] == x;
                assert(f[i] == f[f.len() - 1]);
            }
        }
        lemma_counts_unchanged(fd, t, x);
        assert(count_of(t.push(x), x) == count_of(t, x) + 1);
        lemma_sum_push(counts_for(fd, t.push(x)), count_of(t.push(x), f.last()));
        lemma_sum_push(counts_for(fd, t), count_of(t, f.last()));
    } else {
        assert(fd.contains(x)) by {
            let i = choose|i: int| 0 <= i < f.len() && f[i] == x;
            assert(i < f.len() - 1);
            assert(fd[i] == x);
        }
        lemma_counts_bump(fd, t, x);
        assert(count_of(t.push(x), f.last()) == count_of(t, f.last()));
        lemma_sum_push(counts_for(fd, t.push(x)), count_of(t.push(x), f.last()));
        lemma_sum_push(counts_for(fd, t), count_of(t, f.last()));
    }
}

/// Law: the frequencies sum to the number of observed connections — the `n`
/// the entropy formula divides by, so no observation is dropped or counted
/// twice.
pub proof fn lemma_counts_sum_to_total(s: Seq<Seq<u8>>)
    ensures
        sum_of(spec_addr_counts(s)) == s.len(),
    decreases s.len(),
{
    lemma_addr_counts_as_counts_for(s);
    if s.len() > 0 {
        let t = s.drop_last();
        let x = s.last();
        lemma_counts_sum_to_total(t);
        lemma_addr_counts_as_counts_for(t);
        assert(s =~= t.push(x));
        lemma_firsts_contains(t, x);
        lemma_firsts_no_duplicates(t);
        if firsts(t).contains(x) {
            assert(firsts(s) == firsts(t));
            lemma_counts_bump(firsts(t), t, x);
        } else {
            assert(firsts(s) == firsts(t).push(x));
            lemma_counts_unchanged(firsts(t), t, x);
            assert(!t.contains(x));
            lemma_count_absent(t, x);
            assert(t.push(x).drop_last() =~= t);
            assert(count_of(t.push(x), x) == 1);
            assert(counts_for(firsts(s), s) == counts_for(firsts(t), s).push(count_of(s, x)))
                by {
                assert(firsts(s).drop_last() =~= firsts(t));
                assert(firsts(s).last() == x);
            }
            lemma_sum_push(counts_for(firsts(t), s), count_of(s, x));
        }
    }
}

/// Law: an empty address set has no frequencies at all, so the entropy sum
/// is empty and evaluates to exactly zero.
pub proof fn lemma_counts_empty(s: Seq<Seq<u8>>)
    requires
        s.len() == 0,
    ensures
        spec_addr_counts(s) == Seq::<int>::empty(),
{
    assert(spec_addr_counts(s) =~= Seq::<int>::empty());
}

proof fn lemma_count_all_identical(s: Seq<Seq<u8>>, x: Seq<u8>)
    requires
        forall|i: int| 0 <= i < s.len() ==> #[trigger] s[i] == x,
    ensures
        count_of(s, x) == s.len(),
    decreases s.len(),
{
    if s.len() > 0 {
        lemma_count_all_identical(s.drop_last(), x);
    }
}

/// Law: when every observed address is the same, there is exactly one
/// frequency and it is the whole count — one outcome with probability 1, so
/// the entropy sum is 1·log2(1) and evaluates to exactly zero.
pub proof fn lemma_counts_all_identical(s: Seq<Seq<u8>>)
    requires
        s.len() > 0,
        forall|i: int| 0 <= i < s.len() ==> #[trigger] s[i] == s[0],
    ensures
        spec_addr_counts(s) == seq![s.len() as int],
    decreases s.len(),
{
    assert(firsts(s) =~= seq![s[0]]) by {
        lemma_firsts_identical(s);
    }
    lemma_count_all_identical(s, s[0]);
    assert(spec_addr_counts(s) =~= seq![s.len() as int]);
}

proof fn lemma_firsts_identical(s: Seq<Seq<u8>>)
    requires
        s.len() > 0,
        forall|i: int| 0 <= i < s.len() ==> #[trigger] s[i] == s[0],
    ensures
        firsts(s) == seq![s[0]],
    decreases s.len(),
{
    if s.len() == 1 {
        assert(firsts(s.drop_last()) =~= Seq::<Seq<u8>>::empty());
        assert(!firsts(s.drop_last()).contains(s.last()));
        assert(firsts(s) =~= seq![s[0]]);
    } else {
        assert(s.drop_last()[0] == s[0]);
        lemma_firsts_identical(s.drop_last());
        assert(firsts(s.drop_last()).contains(s.last())) by {
            assert(firsts(s.drop_last())[0] == s[0]);
            assert(s.last() == s[0]);
        }
    }
}

proof fn lemma_count_absent(s: Seq<Seq<u8>>, x: Seq<u8>)
    requires
        !s.contains(x),
    ensures
        count_of(s, x) == 0,
    decreases s.len(),
{
    if s.len() > 0 {
        assert(s.last() != x) by {
            if s.last() == x {
                assert(s[s.len() - 1] == x);
            }
        }
        assert(!s.drop_last().contains(x)) by {
            if s.drop_last().contains(x) {
                let i = choose|i: int| 0 <= i < s.drop_last().len() && s.drop_last()[i] == x;
                assert(s[i] == x);
            }
        }
        lemma_count_absent(s.drop_last(), x);
    }
}

proof fn lemma_firsts_distinct(s: Seq<Seq<u8>>)
    requires
        forall|i: int, k: int| 0 <= i < k < s.len() ==> s[i] != s[k],
    ensures
        firsts(s) == s,
    decreases s.len(),
{
    if s.len() > 0 {
        lemma_firsts_distinct(s.drop_last());
        assert(!s.drop_last().contains(s.last())) by {
            if s.drop_last().contains(s.last()) {
                let i = choose|i: int|
                    0 <= i < s.drop_last().len() && s.drop_last()[i] == s.last();
                assert(s[i] == s[s.len() - 1]);
            }
        }
        assert(!firsts(s.drop_last()).contains(s.last()));
        assert(firsts(s) =~= s);
    }
}

/// Law: when every observed address is distinct, there are as many
/// frequencies as addresses and each is exactly 1 — n outcomes with
/// probability 1/n each, the maximizing distribution, whose entropy sum
/// evaluates to exactly log2(n).
pub proof fn lemma_counts_all_distinct(s: Seq<Seq<u8>>)
    requires
        forall|i: int, k: int| 0 <= i < k < s.len() ==> s[i] != s[k],
    ensures
        spec_addr_counts(s).len() == s.len(),
        forall|k: int| 0 <= k < s.len() ==> spec_addr_counts(s)[k] == 1,
    decreases s.len(),
{
    lemma_firsts_distinct(s);
    assert forall|k: int| 0 <= k < s.len() implies spec_addr_counts(s)[k] == 1 by {
        assert(count_of(s, s[k]) == 1) by {
            lemma_count_one_of_distinct(s, k);
        }
    }
}

proof fn lemma_count_one_of_distinct(s: Seq<Seq<u8>>, k: int)
    requires
        forall|i: int, j: int| 0 <= i < j < s.len() ==> s[i] != s[j],
        0 <= k < s.len(),
    ensures
        count_of(s, s[k]) == 1,
    decreases s.len(),
{
    if k == s.len() - 1 {
        assert(!s.drop_last().contains(s.last())) by {
            if s.drop_last().contains(s.last()) {
                let i = choose|i: int|
                    0 <= i < s.drop_last().len() && s.drop_last()[i] == s.last();
                assert(s[i] == s[s.len() - 1]);
            }
        }
        lemma_count_absent(s.drop_last(), s.last());
    } else {
        assert(s.drop_last()[k] == s[k]);
        lemma_count_one_of_distinct(s.drop_last(), k);
        assert(s.last() != s[k]);
    }
}

/// Raw readings for one sampler tick, as plain values. The two fractional
/// figures arrive already rendered as decimal text.
pub struct RawTick {
    pub ts: String,
    pub ts_epoch_ms: i64,
    pub cpu_usage_pct: String,
    pub memory_used_bytes: i64,
    pub memory_total_bytes: i64,
    pub process_count: i64,
    pub io_read_bytes: i64,
    pub io_write_bytes: i64,
    pub net_connections: i64,
    pub dest_ip_entropy: String,
    pub syscall_freq_json: Option<String>,
}

/// The sampler's memory between ticks: the previous raw counters that the
/// delta fields are computed against.
pub struct SamplerState {
    pub prev_process_count: i64,
    pub prev_io_read: i64,
    pub prev_io_write: i64,
}

impl SamplerState {
    /// The baseline taken before the first recorded sample.
    pub fn new(process_count: i64, io_read_bytes: i64, io_write_bytes: i64) -> (r: Self)
        ensures
            r.prev_process_count == process_count,
            r.prev_io_read == io_read_bytes,
            r.prev_io_write == io_write_bytes,
    {
        SamplerState {
            prev_process_count: process_count,
            prev_io_read: io_read_bytes,
            prev_io_write: io_write_bytes,
        }
    }

    /// Turn one tick's raw readings into a sample: every delta field is the
    /// clamped, never negative change since the previous tick, every other
    /// field passes through unchanged, and the previous counters advance to
    /// this tick's readings.
    pub fn build_sample(&mut self, raw: RawTick) -> (s: SystemSample)
        ensures
            s.ts == raw.ts,
            s.ts_epoch_ms == raw.ts_epoch_ms,
            s.cpu_usage_pct == raw.cpu_usage_pct,
            s.memory_used_bytes == raw.memory_used_bytes,
            s.memory_total_bytes == raw.memory_total_bytes,
            s.process_count == raw.process_count,
            s.process_spawn_rate as int == spec_clamped_delta(
                raw.process_count as int,
                old(self).prev_process_count as int,
            ),
            s.file_read_bytes as int == spec_clamped_delta(
                raw.io_read_bytes as int,
                old(self).prev_io_read as int,
            ),
            s.file_write_bytes as int == spec_clamped_delta(
                raw.io_write_bytes as int,
                old(self).prev_io_write as int,
            ),
            s.process_spawn_rate >= 0,
            s.file_read_bytes >= 0,
            s.file_write_bytes >= 0,
            s.net_connections == raw.net_connections,
            s.dest_ip_entropy == raw.dest_ip_entropy,
            s.syscall_freq_json == raw.syscall_freq_json,
            final(self).prev_process_count == raw.process_count,
            final(self).prev_io_read == raw.io_read_bytes,
            final(self).prev_io_write == raw.io_write_bytes,
    {
        let process_spawn_rate = clamped_delta(raw.process_count, self.prev_process_count);
        let file_read_bytes = clamped_delta(raw.io_read_bytes, self.prev_io_read);
        let file_write_bytes = clamped_delta(raw.io_write_bytes, self.prev_io_write);
        self.prev_process_count = raw.process_count;
        self.prev_io_read = raw.io_read_bytes;
        self.prev_io_write = raw.io_write_bytes;
        SystemSample {
            ts: raw.ts,
            ts_epoch_ms: raw.ts_epoch_ms,
            cpu_usage_pct: raw.cpu_usage_pct,
            memory_used_bytes: raw.memory_used_bytes,
            memory_total_bytes: raw.memory_total_bytes,
            process_count: raw.process_count,
            process_spawn_rate,
            file_read_bytes,
            file_write_bytes,
            net_connections: raw.net_connections,
            dest_ip_entropy: raw.dest_ip_entropy,
            syscall_freq_json: raw.syscall_freq_json,
        }
    }
}

} // verus!
