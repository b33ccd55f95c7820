//! Reading unified diffs: which files a diff touches, and which lines.

use vstd::prelude::*;
use crate::finding::{normalize_path, normalized};
use crate::text::{
    has_prefix, is_whitespace, is_ws, lemma_leading_ws, lines, split_char, split_ranges,
    starts_with_range, string_of, trim, trim_range, trim_start, range_eq,
};

verus! {

pub open spec fn plus_header() -> Seq<char> {
    seq!['+', '+', '+', ' ']
}

pub open spec fn hunk_header() -> Seq<char> {
    seq!['@', '@', ' ']
}

pub open spec fn dev_null() -> Seq<char> {
    seq!['/', 'd', 'e', 'v', '/', 'n', 'u', 'l', 'l']
}

/// `p` without one leading `b/`, or else one leading `a/`.
pub open spec fn strip_side(p: Seq<char>) -> Seq<char> {
    if has_prefix(p, seq!['b', '/']) || has_prefix(p, seq!['a', '/']) {
        p.skip(2)
    } else {
        p
    }
}

/// The path a `+++ ` line names, as `changed_files` reads it: trimmed,
/// `/dev/null` ignored, the side prefix removed, a trailing timestamp column
/// dropped, then normalized.
pub open spec fn files_header_path(line: Seq<char>) -> Option<Seq<char>> {
    if !has_prefix(line, plus_header()) {
        None
    } else {
        let path = trim(line.skip(4));
        if path == dev_null() {
            None
        } else {
            Some(normalized(trim(split_char(strip_side(path), '\t')[0])))
        }
    }
}

/// The files of the first `n` lines, each once, in first-seen order.
pub open spec fn files_upto(ls: Seq<Seq<char>>, n: int) -> Seq<Seq<char>>
    decreases n,
{
    if n <= 0 {
        Seq::empty()
    } else {
        let prev = files_upto(ls, n - 1);
        match files_header_path(ls[n - 1]) {
            Some(f) => if f.len() > 0 && !prev.contains(f) {
                prev.push(f)
            } else {
                prev
            },
            None => prev,
        }
    }
}

/// Repository-relative paths touched by a unified diff, in the order the
/// diff names them, each once.
pub open spec fn diff_files(diff: Seq<char>) -> Seq<Seq<char>> {
    files_upto(lines(diff), lines(diff).len() as int)
}

pub(crate) fn dev_null_chars() -> (v: Vec<char>)
    ensures
        v@ == dev_null(),
{
    let v = vec!['/', 'd', 'e', 'v', '/', 'n', 'u', 'l', 'l'];
    assert(v@ =~= dev_null());
    v
}

pub(crate) fn plus_header_chars() -> (v: Vec<char>)
    ensures
        v@ == plus_header(),
{
    let v = vec!['+', '+', '+', ' '];
    assert(v@ =~= plus_header());
    v
}

/// `v[lo..hi]` with a leading `b/` or `a/` removed.
pub(crate) fn strip_side_range(v: &Vec<char>, lo: usize, hi: usize) -> (r: usize)
    requires
        lo <= hi <= v.len(),
    ensures
        lo <= r <= hi,
        v@.subrange(r as int, hi as int) == strip_side(v@.subrange(lo as int, hi as int)),
{
    let ghost p = v@.subrange(lo as int, hi as int);
    let b = vec!['b', '/'];
    let a = vec!['a', '/'];
    assert(b@ =~= seq!['b', '/']);
    assert(a@ =~= seq!['a', '/']);
    if starts_with_range(v, lo, hi, &b) || starts_with_range(v, lo, hi, &a) {
        assert(p.skip(2) =~= v@.subrange(lo + 2, hi as int));
        lo + 2
    } else {
        lo
    }
}

/// The path named by the line `v[lo..hi]`, as `changed_files` reads it.
pub(crate) fn files_header_path_exec(v: &Vec<char>, lo: usize, hi: usize) -> (r: Option<String>)
    requires
        lo <= hi <= v.len(),
    ensures
        match r {
            Some(s) => files_header_path(v@.subrange(lo as int, hi as int)) == Some(s@),
            None => files_header_path(v@.subrange(lo as int, hi as int)) is None,
        },
{
    let ghost line = v@.subrange(lo as int, hi as int);
    let plus = plus_header_chars();
    if !starts_with_range(v, lo, hi, &plus) {
        return None;
    }
    assert(line.skip(4) =~= v@.subrange(lo + 4, hi as int));
    let (a, b) = trim_range(v, lo + 4, hi);
    let dn = dev_null_chars();
    if range_eq(v, a, b, &dn) {
        return None;
    }
    let s = strip_side_range(v, a, b);
    let parts = split_ranges(v, s, b, '\t');
    let (p0, p1) = parts[0];
    let (t0, t1) = trim_range(v, p0, p1);
    let raw = string_of(v, t0, t1);
    Some(normalize_path(raw.as_str()))
}

// ---------------------------------------------------------------------------
// Numbers in hunk headers
// ---------------------------------------------------------------------------

pub open spec fn is_digit(c: char) -> bool {
    '0' <= c && c <= '9'
}

pub open spec fn digit_value(c: char) -> nat {
    (c as u32 - '0' as u32) as nat
}

/// The number a run of decimal digits spells.
pub open spec fn digits_value(s: Seq<char>) -> nat
    decreases s.len(),
{
    if s.len() == 0 {
        0
    } else {
        digits_value(s.drop_last()) * 10 + digit_value(s.last())
    }
}

/// `s` without one leading `+`.
pub open spec fn unsigned_digits(s: Seq<char>) -> Seq<char> {
    if s.len() > 0 && s[0] == '+' {
        s.skip(1)
    } else {
        s
    }
}

/// Every character of `d` is a decimal digit.
pub open spec fn all_digits(d: Seq<char>) -> bool {
    forall|i: int| 0 <= i < d.len() ==> is_digit(#[trigger] d[i])
}

/// `str::parse::<u32>`: an optional `+`, then at least one decimal digit,
/// and a value that fits.
pub open spec fn parse_u32(s: Seq<char>) -> Option<u32> {
    let d = unsigned_digits(s);
    if d.len() > 0 && all_digits(d) && digits_value(d) <= u32::MAX {
        Some(digits_value(d) as u32)
    } else {
        None
    }
}

/// Parses `v[lo..hi]` as `str::parse::<u32>` would.
pub(crate) fn parse_u32_range(v: &Vec<char>, lo: usize, hi: usize) -> (r: Option<u32>)
    requires
        lo <= hi <= v.len(),
    ensures
        r == parse_u32(v@.subrange(lo as int, hi as int)),
{
    let ghost s = v@.subrange(lo as int, hi as int);
    let mut start = lo;
    if lo < hi && v[lo] == '+' {
        start = lo + 1;
    }
    let ghost d = unsigned_digits(s);
    assert(d =~= v@.subrange(start as int, hi as int));
    if start == hi {
        return None;
    }
    let mut value: u64 = 0;
    let mut too_big = false;
    let mut i = start;
    assert(v@.subrange(start as int, start as int) =~= Seq::<char>::empty());
    while i < hi
        invariant
            lo <= start <= i <= hi <= v.len(),
            start < hi,
            s == v@.subrange(lo as int, hi as int),
            d == unsigned_digits(s),
            d == v@.subrange(start as int, hi as int),
            forall|j: int| start <= j < i ==> is_digit(#[trigger] v@[j]),
            too_big ==> digits_value(v@.subrange(start as int, i as int)) > u32::MAX,
            !too_big ==> value == digits_value(v@.subrange(start as int, i as int)),
            value <= u32::MAX,
        decreases hi - i,
    {
        let c = v[i];
        if !('0' <= c && c <= '9') {
            assert(d[i - start] == c);
            assert(!is_digit(d[i - start]));
            assert(!all_digits(d));
            return None;
        }
        let ghost prefix = v@.subrange(start as int, i + 1);
        assert(prefix.drop_last() =~= v@.subrange(start as int, i as int));
        assert(prefix.last() == c);
        if !too_big {
            let next = value * 10 + (c as u32 - '0' as u32) as u64;
            assert(next == digits_value(prefix));
            if next > 4294967295 {
                too_big = true;
            } else {
                value = next;
            }
        }
        i = i + 1;
    }
    assert(v@.subrange(start as int, hi as int) == d);
    assert forall|j: int| 0 <= j < d.len() implies is_digit(#[trigger] d[j]) by {
        assert(d[j] == v@[start + j]);
    }
    assert(all_digits(d));
    if too_big {
        return None;
    }
    Some(value as u32)
}

// ---------------------------------------------------------------------------
// Tokens
// ---------------------------------------------------------------------------

/// Index of the first whitespace character of `s` at or after `i`, or its
/// length when there is none.
pub open spec fn ws_index(s: Seq<char>, i: int) -> int
    decreases s.len() - i,
{
    if i >= s.len() {
        s.len() as int
    } else if is_ws(s[i]) {
        i
    } else {
        ws_index(s, i + 1)
    }
}

/// The first whitespace-separated token of `s`, or the empty sequence
/// (`s.split_whitespace().next().unwrap_or("")`).
pub open spec fn first_token(s: Seq<char>) -> Seq<char> {
    let t = trim_start(s);
    t.take(ws_index(t, 0))
}

/// Bounds of the first token of `v[lo..hi]`.
pub(crate) fn first_token_range(v: &Vec<char>, lo: usize, hi: usize) -> (r: (usize, usize))
    requires
        lo <= hi <= v.len(),
    ensures
        lo <= r.0 <= r.1 <= hi,
        v@.subrange(r.0 as int, r.1 as int) == first_token(v@.subrange(lo as int, hi as int)),
{
    let ghost s = v@.subrange(lo as int, hi as int);
    let mut a = lo;
    while a < hi && is_whitespace(v[a])
        invariant
            lo <= a <= hi <= v.len(),
            s == v@.subrange(lo as int, hi as int),
            forall|j: int| lo <= j < a ==> is_ws(#[trigger] v@[j]),
        decreases hi - a,
    {
        a = a + 1;
    }
    proof {
        assert forall|j: int| 0 <= j < a - lo implies is_ws(#[trigger] s[j]) by {
            assert(s[j] == v@[lo + j]);
        }
        if a < hi {
            assert(s[a - lo] == v@[a as int]);
        }
        lemma_leading_ws(s, a - lo);
    }
    let ghost t = trim_start(s);
    assert(t =~= v@.subrange(a as int, hi as int));
    let mut b = a;
    while b < hi && !is_whitespace(v[b])
        invariant
            lo <= a <= b <= hi <= v.len(),
            t == v@.subrange(a as int, hi as int),
            ws_index(t, 0) == ws_index(t, b - a),
        decreases hi - b,
    {
        assert(t[b - a] == v@[b as int]);
        b = b + 1;
    }
    if b < hi {
        assert(t[b - a] == v@[b as int]);
    }
    assert(ws_index(t, b - a) == b - a);
    assert(t.take(b - a) =~= v@.subrange(a as int, b as int));
    (a, b)
}

// ---------------------------------------------------------------------------
// Hunk headers
// ---------------------------------------------------------------------------

/// The new-side range a hunk header line announces, as `(start, end)` with
/// `end` not yet bounded: `@@ -a,b +start[,count] @@`, where a missing or
/// unreadable count stands for 1 and a count of 0 gives `end == start`.
pub open spec fn hunk_range(line: Seq<char>) -> Option<(u32, int)> {
    if !has_prefix(line, hunk_header()) {
        None
    } else {
        let pieces = split_char(line.skip(3), '+');
        if pieces.len() < 2 {
            None
        } else {
            let parts = split_char(first_token(pieces[1]), ',');
            match parse_u32(parts[0]) {
                Some(start) => {
                    let count: u32 = if parts.len() > 1 {
                        match parse_u32(parts[1]) {
                            Some(c) => c,
                            None => 1,
                        }
                    } else {
                        1
                    };
                    let extra: int = if count == 0 { 0 } else { count - 1 };
                    Some((start, start + extra))
                },
                None => None,
            }
        }
    }
}

pub(crate) fn hunk_header_chars() -> (v: Vec<char>)
    ensures
        v@ == hunk_header(),
{
    let v = vec!['@', '@', ' '];
    assert(v@ =~= hunk_header());
    v
}

/// `hunk_range` of the line `v[lo..hi]`.
pub(crate) fn hunk_range_exec(v: &Vec<char>, lo: usize, hi: usize) -> (r: Option<(u32, u64)>)
    requires
        lo <= hi <= v.len(),
    ensures
        match hunk_range(v@.subrange(lo as int, hi as int)) {
            Some(p) => r == Some((p.0, p.1 as u64)),
            None => r is None,
        },
{
    let ghost line = v@.subrange(lo as int, hi as int);
    let hh = hunk_header_chars();
    if !starts_with_range(v, lo, hi, &hh) {
        return None;
    }
    assert(line.skip(3) =~= v@.subrange(lo + 3, hi as int));
    let pieces = split_ranges(v, lo + 3, hi, '+');
    if pieces.len() < 2 {
        return None;
    }
    let (p0, p1) = pieces[1];
    let (t0, t1) = first_token_range(v, p0, p1);
    let parts = split_ranges(v, t0, t1, ',');
    let (s0, s1) = parts[0];
    match parse_u32_range(v, s0, s1) {
        Some(start) => {
            let mut count: u32 = 1;
            if parts.len() > 1 {
                let (c0, c1) = parts[1];
                match parse_u32_range(v, c0, c1) {
                    Some(c) => {
                        count = c;
                    },
                    None => {},
                }
            }
            let extra: u64 = if count == 0 {
                0
            } else {
                (count - 1) as u64
            };
            Some((start, start as u64 + extra))
        },
        None => None,
    }
}

// ---------------------------------------------------------------------------
// File headers as `changed_line_ranges` reads them
// ---------------------------------------------------------------------------

/// The path a `+++ ` line names for line ranges: the part before a tab,
/// trimmed; `/dev/null` is no file; a side prefix is removed, then the path
/// is normalized. `None` for other lines; `Some(None)` for `/dev/null`.
pub open spec fn range_header(line: Seq<char>) -> Option<Option<Seq<char>>> {
    if !has_prefix(line, plus_header()) {
        None
    } else {
        let path = trim(split_char(line.skip(4), '\t')[0]);
        if path == dev_null() {
            Some(None)
        } else {
            Some(Some(normalized(strip_side(path))))
        }
    }
}

/// `range_header` of the line `v[lo..hi]`.
pub(crate) fn range_header_exec(v: &Vec<char>, lo: usize, hi: usize) -> (r: Option<Option<String>>)
    requires
        lo <= hi <= v.len(),
    ensures
        match range_header(v@.subrange(lo as int, hi as int)) {
            None => r is None,
            Some(None) => r == Some(None::<String>),
            Some(Some(p)) => r is Some && r->0 is Some && r->0->0@ == p,
        },
{
    let ghost line = v@.subrange(lo as int, hi as int);
    let plus = plus_header_chars();
    if !starts_with_range(v, lo, hi, &plus) {
        return None;
    }
    assert(line.skip(4) =~= v@.subrange(lo + 4, hi as int));
    let parts = split_ranges(v, lo + 4, hi, '\t');
    let (p0, p1) = parts[0];
    let (a, b) = trim_range(v, p0, p1);
    let dn = dev_null_chars();
    if range_eq(v, a, b, &dn) {
        return Some(None);
    }
    let s = strip_side_range(v, a, b);
    let raw = string_of(v, s, b);
    Some(Some(normalize_path(raw.as_str())))
}

} // verus!

verus! {

// ---------------------------------------------------------------------------
// Changed line ranges: a scan over the lines of a diff
// ---------------------------------------------------------------------------

/// Index of the entry for `k` in an association list, searching from `i`.
pub open spec fn key_index(a: Seq<(Seq<char>, Seq<(u32, u32)>)>, k: Seq<char>, i: int) -> Option<
    int,
>
    decreases a.len() - i,
{
    if i < 0 || i >= a.len() {
        None
    } else if a[i].0 == k {
        Some(i)
    } else {
        key_index(a, k, i + 1)
    }
}

/// An index `key_index` finds holds the key.
pub proof fn lemma_key_index(a: Seq<(Seq<char>, Seq<(u32, u32)>)>, k: Seq<char>, j: int)
    requires
        0 <= j,
    ensures
        key_index(a, k, j) matches Some(i) ==> j <= i < a.len() && a[i].0 == k,
    decreases a.len() - j,
{
    if j < a.len() && a[j].0 != k {
        lemma_key_index(a, k, j + 1);
    }
}

/// The association list with an (empty) entry for `k`, if it had none.
pub open spec fn assoc_touch(a: Seq<(Seq<char>, Seq<(u32, u32)>)>, k: Seq<char>) -> Seq<
    (Seq<char>, Seq<(u32, u32)>),
> {
    match key_index(a, k, 0) {
        Some(_) => a,
        None => a.push((k, Seq::empty())),
    }
}

/// The association list with `x` appended to the entry for `k`.
pub open spec fn assoc_push(a: Seq<(Seq<char>, Seq<(u32, u32)>)>, k: Seq<char>, x: (u32, u32)) -> Seq<
    (Seq<char>, Seq<(u32, u32)>),
> {
    match key_index(a, k, 0) {
        Some(i) => a.update(i, (k, a[i].1.push(x))),
        None => a.push((k, seq![x])),
    }
}

/// The map an association list stands for.
pub open spec fn assoc_map(a: Seq<(Seq<char>, Seq<(u32, u32)>)>) -> Map<Seq<char>, Seq<(u32, u32)>> {
    Map::new(|k: Seq<char>| key_index(a, k, 0) is Some, |k: Seq<char>| a[key_index(a, k, 0)->0].1)
}

/// One line of the scan: the file the following hunks belong to, and the
/// ranges collected so far.
pub open spec fn range_step(
    st: (Option<Seq<char>>, Seq<(Seq<char>, Seq<(u32, u32)>)>),
    line: Seq<char>,
) -> (Option<Seq<char>>, Seq<(Seq<char>, Seq<(u32, u32)>)>) {
    match range_header(line) {
        Some(None) => (None, st.1),
        Some(Some(f)) => (Some(f), assoc_touch(st.1, f)),
        None => match st.0 {
            Some(f) => match hunk_range(line) {
                Some(h) => (st.0, assoc_push(st.1, f, (h.0, h.1 as u32))),
                None => st,
            },
            None => st,
        },
    }
}

/// The scan state after the first `n` lines.
pub open spec fn range_scan(ls: Seq<Seq<char>>, n: int) -> (
    Option<Seq<char>>,
    Seq<(Seq<char>, Seq<(u32, u32)>)>,
)
    decreases n,
{
    if n <= 0 {
        (None, Seq::empty())
    } else {
        range_step(range_scan(ls, n - 1), ls[n - 1])
    }
}

/// Every hunk that the scan reads while inside a file ends at a line number
/// that fits in `u32`.
pub open spec fn ranges_fit(diff: Seq<char>) -> bool {
    let ls = lines(diff);
    forall|n: int|
        0 <= n < ls.len() && (#[trigger] range_scan(ls, n)).0 is Some && hunk_range(ls[n]) is Some
            ==> (hunk_range(ls[n])->0).1 <= u32::MAX
}

/// The line ranges of a diff, per file, as an association list in the order
/// the files first appear.
pub open spec fn diff_ranges(diff: Seq<char>) -> Seq<(Seq<char>, Seq<(u32, u32)>)> {
    range_scan(lines(diff), lines(diff).len() as int).1
}

} // verus!
