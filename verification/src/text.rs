//! Character-level text utilities shared by every module that renders or
//! parses text.
//!
//! Strings are modelled by their view, a `Seq<char>`. The executable helpers
//! work on a `Vec<char>` copy of a string and hand back index ranges, so a
//! caller can slice without re-decoding.

use vstd::prelude::*;

verus! {

// ---------------------------------------------------------------------------
// Building strings
// ---------------------------------------------------------------------------

/// Appends one character to a string (std's `String::push`).
#[verifier::external_body]
pub fn push_char(s: &mut String, c: char)
    ensures
        final(s)@ == old(s)@.push(c),
{
    s.push(c);
}

/// Appends a string slice to a string.
pub fn push_str(s: &mut String, t: &str)
    ensures
        final(s)@ == old(s)@ + t@,
{
    s.append(t);
}

/// The characters of `s`, in order.
pub fn chars_of(s: &str) -> (v: Vec<char>)
    ensures
        v@ == s@,
{
    broadcast use vstd::string::group_string_axioms;

    let mut v: Vec<char> = Vec::new();
    for c in it: s.chars()
        invariant
            it.seq() == s@,
            v@ == it.seq().take(it.index() as int),
    {
        v.push(c);
    }
    assert(v@ =~= s@);
    v
}

/// Appends `v[lo..hi]` to `out`.
pub fn push_range(out: &mut String, v: &Vec<char>, lo: usize, hi: usize)
    requires
        lo <= hi <= v.len(),
    ensures
        final(out)@ == old(out)@ + v@.subrange(lo as int, hi as int),
{
    let mut i = lo;
    while i < hi
        invariant
            lo <= i <= hi <= v.len(),
            out@ == old(out)@ + v@.subrange(lo as int, i as int),
        decreases hi - i,
    {
        push_char(out, v[i]);
        i = i + 1;
        assert(v@.subrange(lo as int, i as int) =~= v@.subrange(lo as int, i - 1).push(v@[i - 1]));
    }
}

/// A fresh string holding `v[lo..hi]`.
pub fn string_of(v: &Vec<char>, lo: usize, hi: usize) -> (s: String)
    requires
        lo <= hi <= v.len(),
    ensures
        s@ == v@.subrange(lo as int, hi as int),
{
    let mut s = String::new();
    push_range(&mut s, v, lo, hi);
    s
}

/// An owned copy of a string slice.
pub fn owned(t: &str) -> (s: String)
    ensures
        s@ == t@,
{
    String::from_str(t)
}

/// Concatenation of a string and a slice.
pub fn concat2(a: &str, b: &str) -> (s: String)
    ensures
        s@ == a@ + b@,
{
    let mut s = String::from_str(a);
    s.append(b);
    s
}

// ---------------------------------------------------------------------------
// Whitespace and trimming
// ---------------------------------------------------------------------------

/// Unicode `White_Space`, the set `char::is_whitespace` tests for.
pub open spec fn is_ws(c: char) -> bool {
    ||| ('\u{9}' <= c && c <= '\u{d}')
    ||| c == ' '
    ||| c == '\u{85}'
    ||| c == '\u{a0}'
    ||| c == '\u{1680}'
    ||| ('\u{2000}' <= c && c <= '\u{200a}')
    ||| c == '\u{2028}'
    ||| c == '\u{2029}'
    ||| c == '\u{202f}'
    ||| c == '\u{205f}'
    ||| c == '\u{3000}'
}

/// Executable `is_ws`.
pub fn is_whitespace(c: char) -> (b: bool)
    ensures
        b == is_ws(c),
{
    ('\u{9}' <= c && c <= '\u{d}') || c == ' ' || c == '\u{85}' || c == '\u{a0}' || c
        == '\u{1680}' || ('\u{2000}' <= c && c <= '\u{200a}') || c == '\u{2028}' || c
        == '\u{2029}' || c == '\u{202f}' || c == '\u{205f}' || c == '\u{3000}'
}

/// Number of whitespace characters at the start of `s`.
pub open spec fn leading_ws(s: Seq<char>) -> nat
    decreases s.len(),
{
    if s.len() > 0 && is_ws(s[0]) {
        1 + leading_ws(s.drop_first())
    } else {
        0
    }
}

/// Number of whitespace characters at the end of `s`.
pub open spec fn trailing_ws(s: Seq<char>) -> nat
    decreases s.len(),
{
    if s.len() > 0 && is_ws(s.last()) {
        1 + trailing_ws(s.drop_last())
    } else {
        0
    }
}

/// `s` without leading whitespace (`str::trim_start`).
pub open spec fn trim_start(s: Seq<char>) -> Seq<char> {
    s.skip(leading_ws(s) as int)
}

/// `s` without trailing whitespace (`str::trim_end`).
pub open spec fn trim_end(s: Seq<char>) -> Seq<char> {
    s.take(s.len() - trailing_ws(s))
}

/// `s` without leading or trailing whitespace (`str::trim`).
pub open spec fn trim(s: Seq<char>) -> Seq<char> {
    trim_end(trim_start(s))
}

pub(crate) proof fn lemma_leading_ws(s: Seq<char>, i: int)
    requires
        0 <= i <= s.len(),
        forall|j: int| 0 <= j < i ==> is_ws(#[trigger] s[j]),
        i == s.len() || !is_ws(s[i]),
    ensures
        leading_ws(s) == i,
    decreases i,
{
    if i > 0 {
        let t = s.drop_first();
        assert forall|j: int| 0 <= j < i - 1 implies is_ws(#[trigger] t[j]) by {
            assert(t[j] == s[j + 1]);
        }
        if i - 1 < t.len() {
            assert(t[i - 1] == s[i]);
        }
        lemma_leading_ws(t, i - 1);
    }
}

proof fn lemma_trailing_ws(s: Seq<char>, k: int)
    requires
        0 <= k <= s.len(),
        forall|j: int| s.len() - k <= j < s.len() ==> is_ws(#[trigger] s[j]),
        k == s.len() || !is_ws(s[s.len() - k - 1]),
    ensures
        trailing_ws(s) == k,
    decreases k,
{
    if k > 0 {
        let t = s.drop_last();
        assert(is_ws(s[s.len() - 1]));
        assert forall|j: int| t.len() - (k - 1) <= j < t.len() implies is_ws(#[trigger] t[j]) by {
            assert(t[j] == s[j]);
        }
        if k - 1 < t.len() {
            assert(t[t.len() - (k - 1) - 1] == s[s.len() - k - 1]);
        }
        lemma_trailing_ws(t, k - 1);
    }
}

/// Bounds of the trimmed part of `v[lo..hi]`.
pub fn trim_range(v: &Vec<char>, lo: usize, hi: usize) -> (r: (usize, usize))
    requires
        lo <= hi <= v.len(),
    ensures
        lo <= r.0 <= r.1 <= hi,
        v@.subrange(r.0 as int, r.1 as int) == trim(v@.subrange(lo as int, hi as int)),
{
    let ghost s = v@.subrange(lo as int, hi as int);
    let mut a = lo;
    while a < hi && is_whitespace(v[a])
        invariant
            lo <= a <= hi <= v.len(),
            s == v@.subrange(lo as int, hi as int),
            forall|j: int| lo <= j < a ==> is_ws(#[trigger] v@[j]),
        decreases hi - a,
    {
        a = a + 1;
    }
    proof {
        assert forall|j: int| 0 <= j < a - lo implies is_ws(#[trigger] s[j]) by {
            assert(s[j] == v@[lo + j]);
        }
        if a < hi {
            assert(s[a - lo] == v@[a as int]);
        }
        lemma_leading_ws(s, a - lo);
    }
    let ghost t = trim_start(s);
    assert(t =~= v@.subrange(a as int, hi as int));
    let mut b = hi;
    while b > a && is_whitespace(v[b - 1])
        invariant
            lo <= a <= b <= hi <= v.len(),
            forall|j: int| b <= j < hi ==> is_ws(#[trigger] v@[j]),
        decreases b - a,
    {
        b = b - 1;
    }
    proof {
        assert forall|j: int| t.len() - (hi - b) <= j < t.len() implies is_ws(#[trigger] t[j]) by {
            assert(t[j] == v@[a + j]);
        }
        if b > a {
            assert(t[t.len() - (hi - b) - 1] == v@[b - 1]);
        }
        lemma_trailing_ws(t, hi - b);
        assert(trim(s) =~= v@.subrange(a as int, b as int));
    }
    (a, b)
}

/// `str::trim`, as an owned string.
pub fn trim_str(s: &str) -> (r: String)
    ensures
        r@ == trim(s@),
{
    let v = chars_of(s);
    let (a, b) = trim_range(&v, 0, v.len());
    assert(v@.subrange(0, v@.len() as int) =~= v@);
    string_of(&v, a, b)
}

/// Whether `s` is empty or all whitespace.
pub open spec fn is_blank(s: Seq<char>) -> bool {
    trim(s).len() == 0
}

pub proof fn lemma_blank_iff_all_ws(s: Seq<char>)
    ensures
        is_blank(s) <==> (forall|j: int| 0 <= j < s.len() ==> is_ws(#[trigger] s[j])),
    decreases s.len(),
{
    if s.len() > 0 {
        lemma_blank_iff_all_ws(s.drop_first());
        if is_ws(s[0]) {
            assert(leading_ws(s) == 1 + leading_ws(s.drop_first()));
            lemma_leading_le(s.drop_first());
            assert(trim_start(s) =~= trim_start(s.drop_first()));
            if forall|j: int| 0 <= j < s.drop_first().len() ==> is_ws(#[trigger] s.drop_first()[j]) {
                assert forall|j: int| 0 <= j < s.len() implies is_ws(#[trigger] s[j]) by {
                    if j > 0 {
                        assert(s[j] == s.drop_first()[j - 1]);
                    }
                }
            } else {
                let j = choose|j: int|
                    0 <= j < s.drop_first().len() && !is_ws(#[trigger] s.drop_first()[j]);
                assert(s[j + 1] == s.drop_first()[j]);
            }
        } else {
            assert(leading_ws(s) == 0);
            assert(trim_start(s) =~= s);
            assert(trailing_ws(s) <= s.len()) by {
                lemma_trailing_le(s);
            }
            if trailing_ws(s) == s.len() {
                lemma_trailing_all(s, s.len() as int);
            }
        }
    }
}

proof fn lemma_leading_le(s: Seq<char>)
    ensures
        leading_ws(s) <= s.len(),
    decreases s.len(),
{
    if s.len() > 0 {
        lemma_leading_le(s.drop_first());
    }
}

proof fn lemma_trailing_le(s: Seq<char>)
    ensures
        trailing_ws(s) <= s.len(),
    decreases s.len(),
{
    if s.len() > 0 {
        lemma_trailing_le(s.drop_last());
    }
}

proof fn lemma_trailing_all(s: Seq<char>, k: int)
    requires
        0 <= k <= s.len(),
        trailing_ws(s) >= k,
    ensures
        forall|j: int| s.len() - k <= j < s.len() ==> is_ws(#[trigger] s[j]),
    decreases k,
{
    if k > 0 {
        let t = s.drop_last();
        lemma_trailing_all(t, k - 1);
        assert forall|j: int| s.len() - k <= j < s.len() implies is_ws(#[trigger] s[j]) by {
            if j < s.len() - 1 {
                assert(s[j] == t[j]);
            }
        }
    }
}

/// Whether `v[lo..hi]` is empty or all whitespace.
pub fn is_blank_range(v: &Vec<char>, lo: usize, hi: usize) -> (b: bool)
    requires
        lo <= hi <= v.len(),
    ensures
        b == is_blank(v@.subrange(lo as int, hi as int)),
{
    let (a, b) = trim_range(v, lo, hi);
    a == b
}


// ---------------------------------------------------------------------------
// Splitting
// ---------------------------------------------------------------------------

/// The pieces of `s` between occurrences of `c` (`str::split` on a char).
/// There is always at least one piece.
pub open spec fn split_char(s: Seq<char>, c: char) -> Seq<Seq<char>>
    decreases s.len(),
{
    if s.len() == 0 {
        seq![Seq::<char>::empty()]
    } else {
        let init = split_char(s.drop_last(), c);
        if s.last() == c {
            init.push(Seq::<char>::empty())
        } else {
            init.update(init.len() - 1, init.last().push(s.last()))
        }
    }
}

/// Index ranges of the pieces of `v[lo..hi]` split at `c`.
pub fn split_ranges(v: &Vec<char>, lo: usize, hi: usize, c: char) -> (r: Vec<(usize, usize)>)
    requires
        lo <= hi <= v.len(),
    ensures
        r.len() >= 1,
        r[0].0 == lo,
        r.len() == split_char(v@.subrange(lo as int, hi as int), c).len(),
        forall|k: int|
            0 <= k < r.len() ==> lo <= (#[trigger] r[k]).0 <= r[k].1 <= hi && v@.subrange(
                r[k].0 as int,
                r[k].1 as int,
            ) == split_char(v@.subrange(lo as int, hi as int), c)[k],
{
    let mut r: Vec<(usize, usize)> = Vec::new();
    let mut start = lo;
    let mut i = lo;
    assert(v@.subrange(lo as int, lo as int) =~= Seq::<char>::empty());
    while i < hi
        invariant
            lo <= start <= i <= hi <= v.len(),
            r.len() > 0 ==> r[0].0 == lo,
            r.len() == 0 ==> start == lo,
            split_char(v@.subrange(lo as int, i as int), c).len() == r.len() + 1,
            forall|k: int|
                0 <= k < r.len() ==> lo <= (#[trigger] r[k]).0 <= r[k].1 <= start && v@.subrange(
                    r[k].0 as int,
                    r[k].1 as int,
                ) == split_char(v@.subrange(lo as int, i as int), c)[k],
            split_char(v@.subrange(lo as int, i as int), c).last() == v@.subrange(
                start as int,
                i as int,
            ),
        decreases hi - i,
    {
        let ghost prev = split_char(v@.subrange(lo as int, i as int), c);
        let ghost s2 = v@.subrange(lo as int, i + 1);
        assert(s2.drop_last() =~= v@.subrange(lo as int, i as int));
        assert(s2.last() == v@[i as int]);
        if v[i] == c {
            r.push((start, i));
            start = i + 1;
            i = i + 1;
            assert(v@.subrange(start as int, i as int) =~= Seq::<char>::empty());
        } else {
            i = i + 1;
            assert(v@.subrange(start as int, i as int) =~= v@.subrange(start as int, i - 1).push(
                v@[i - 1],
            ));
        }
    }
    r.push((start, hi));
    r
}

/// `l` without one trailing carriage return.
pub open spec fn strip_cr(l: Seq<char>) -> Seq<char> {
    if l.len() > 0 && l.last() == '\r' {
        l.drop_last()
    } else {
        l
    }
}

/// The lines of `s`, as `str::lines` yields them: split at `\n`, a `\r`
/// directly before a `\n` removed, and no empty line after a final `\n`.
pub open spec fn lines(s: Seq<char>) -> Seq<Seq<char>> {
    if s.len() == 0 {
        Seq::empty()
    } else {
        let p = split_char(s, '\n');
        let init = p.drop_last().map_values(|l: Seq<char>| strip_cr(l));
        if p.last().len() == 0 {
            init
        } else {
            init.push(p.last())
        }
    }
}

/// Index ranges of the lines of `v[lo..hi]`.
pub fn line_ranges(v: &Vec<char>, lo: usize, hi: usize) -> (r: Vec<(usize, usize)>)
    requires
        lo <= hi <= v.len(),
    ensures
        r.len() == lines(v@.subrange(lo as int, hi as int)).len(),
        forall|k: int|
            0 <= k < r.len() ==> lo <= (#[trigger] r[k]).0 <= r[k].1 <= hi && v@.subrange(
                r[k].0 as int,
                r[k].1 as int,
            ) == lines(v@.subrange(lo as int, hi as int))[k],
{
    let mut r: Vec<(usize, usize)> = Vec::new();
    if lo == hi {
        return r;
    }
    let ghost s = v@.subrange(lo as int, hi as int);
    let parts = split_ranges(v, lo, hi, '\n');
    let ghost p = split_char(s, '\n');
    let n = parts.len();
    let mut k: usize = 0;
    while k + 1 < n
        invariant
            lo <= hi <= v.len(),
            n == parts.len() == p.len(),
            n >= 1,
            k + 1 <= n,
            r.len() == k,
            p == split_char(v@.subrange(lo as int, hi as int), '\n'),
            forall|j: int|
                0 <= j < parts.len() ==> lo <= (#[trigger] parts[j]).0 <= parts[j].1 <= hi
                    && v@.subrange(parts[j].0 as int, parts[j].1 as int) == p[j],
            forall|j: int|
                0 <= j < k ==> lo <= (#[trigger] r[j]).0 <= r[j].1 <= hi && v@.subrange(
                    r[j].0 as int,
                    r[j].1 as int,
                ) == strip_cr(p[j]),
        decreases n - k,
    {
        let (a, b) = parts[k];
        assert(v@.subrange(a as int, b as int) == p[k as int]);
        if b > a && v[b - 1] == '\r' {
            assert(v@.subrange(a as int, b - 1) =~= p[k as int].drop_last());
            r.push((a, b - 1));
        } else {
            r.push((a, b));
        }
        k = k + 1;
    }
    let (a, b) = parts[n - 1];
    assert(v@.subrange(a as int, b as int) == p.last());
    if a < b {
        r.push((a, b));
    }
    proof {
        let init = p.drop_last().map_values(|l: Seq<char>| strip_cr(l));
        assert(lines(s) == (if p.last().len() == 0 {
            init
        } else {
            init.push(p.last())
        }));
    }
    r
}

/// Whether `p` is a prefix of `s`.
pub open spec fn has_prefix(s: Seq<char>, p: Seq<char>) -> bool {
    p.len() <= s.len() && s.take(p.len() as int) == p
}

/// Whether `p` occurs in `s` starting at index `i`.
pub open spec fn occurs_at(s: Seq<char>, p: Seq<char>, i: int) -> bool {
    0 <= i && i + p.len() <= s.len() && s.subrange(i, i + p.len()) == p
}

/// Whether `p` occurs anywhere in `s` (`str::contains` with a string).
pub open spec fn has_sub(s: Seq<char>, p: Seq<char>) -> bool {
    exists|i: int| occurs_at(s, p, i)
}

/// Whether `w` occurs in `v` at index `i`.
pub fn occurs_at_exec(v: &Vec<char>, i: usize, w: &Vec<char>) -> (b: bool)
    ensures
        b == occurs_at(v@, w@, i as int),
{
    if i > v.len() || w.len() > v.len() - i {
        return false;
    }
    let mut j: usize = 0;
    while j < w.len()
        invariant
            i + w.len() <= v.len(),
            0 <= j <= w.len(),
            forall|k: int| 0 <= k < j ==> v@[i + k] == w@[k],
        decreases w.len() - j,
    {
        if v[i + j] != w[j] {
            assert(v@.subrange(i as int, i + w.len())[j as int] != w@[j as int]);
            return false;
        }
        j = j + 1;
    }
    assert(v@.subrange(i as int, i + w.len()) =~= w@);
    true
}

/// Whether `w` is a prefix of `v[lo..hi]`.
pub fn starts_with_range(v: &Vec<char>, lo: usize, hi: usize, w: &Vec<char>) -> (b: bool)
    requires
        lo <= hi <= v.len(),
    ensures
        b == has_prefix(v@.subrange(lo as int, hi as int), w@),
{
    let ghost s = v@.subrange(lo as int, hi as int);
    if w.len() > hi - lo {
        return false;
    }
    let b = occurs_at_exec(v, lo, w);
    assert(s.take(w.len() as int) =~= v@.subrange(lo as int, lo + w.len()));
    b
}

/// Whether `w` occurs in `v[lo..hi]`.
pub fn contains_range(v: &Vec<char>, lo: usize, hi: usize, w: &Vec<char>) -> (b: bool)
    requires
        lo <= hi <= v.len(),
    ensures
        b == has_sub(v@.subrange(lo as int, hi as int), w@),
{
    let ghost s = v@.subrange(lo as int, hi as int);
    if w.len() > hi - lo {
        assert forall|i: int| !occurs_at(s, w@, i) by {}
        return false;
    }
    if w.len() == 0 {
        assert(s.subrange(0, 0) =~= w@);
        assert(occurs_at(s, w@, 0));
        return true;
    }
    let mut i = lo;
    while w.len() <= hi - i
        invariant
            lo <= i <= hi <= v.len(),
            1 <= w.len() <= hi - lo,
            s == v@.subrange(lo as int, hi as int),
            forall|k: int| 0 <= k < i - lo ==> !occurs_at(s, w@, k),
        decreases hi - i,
    {
        assert(s.subrange(i - lo, i - lo + w.len()) =~= v@.subrange(i as int, i + w.len()));
        if occurs_at_exec(v, i, w) {
            assert(occurs_at(s, w@, i - lo));
            return true;
        }
        i = i + 1;
    }
    assert forall|k: int| !occurs_at(s, w@, k) by {
        if 0 <= k < i - lo {
        }
    }
    false
}

/// Whether `v[lo..hi]` equals `w`.
pub fn range_eq(v: &Vec<char>, lo: usize, hi: usize, w: &Vec<char>) -> (b: bool)
    requires
        lo <= hi <= v.len(),
    ensures
        b == (v@.subrange(lo as int, hi as int) == w@),
{
    if hi - lo != w.len() {
        return false;
    }
    occurs_at_exec(v, lo, w)
}

// ---------------------------------------------------------------------------
// Numbers
// ---------------------------------------------------------------------------

/// The decimal digit for `d < 10`.
pub open spec fn digit(d: nat) -> char {
    if d == 0 {
        '0'
    } else if d == 1 {
        '1'
    } else if d == 2 {
        '2'
    } else if d == 3 {
        '3'
    } else if d == 4 {
        '4'
    } else if d == 5 {
        '5'
    } else if d == 6 {
        '6'
    } else if d == 7 {
        '7'
    } else if d == 8 {
        '8'
    } else {
        '9'
    }
}

/// Decimal rendering of `n`, as `Display` writes an unsigned integer.
pub open spec fn decimal(n: nat) -> Seq<char>
    decreases n,
{
    if n < 10 {
        seq![digit(n)]
    } else {
        decimal(n / 10).push(digit(n % 10))
    }
}

fn digit_exec(d: u64) -> (c: char)
    requires
        d < 10,
    ensures
        c == digit(d as nat),
{
    match d {
        0 => '0',
        1 => '1',
        2 => '2',
        3 => '3',
        4 => '4',
        5 => '5',
        6 => '6',
        7 => '7',
        8 => '8',
        _ => '9',
    }
}

/// Appends the decimal rendering of `n`.
pub fn push_decimal(s: &mut String, n: u64)
    ensures
        final(s)@ == old(s)@ + decimal(n as nat),
    decreases n,
{
    if n >= 10 {
        push_decimal(s, n / 10);
    }
    push_char(s, digit_exec(n % 10));
    assert(decimal(n as nat) == if n < 10 {
        seq![digit(n as nat)]
    } else {
        decimal((n / 10) as nat).push(digit((n % 10) as nat))
    });
}

/// Decimal rendering of `n` as a string.
pub fn decimal_string(n: u64) -> (s: String)
    ensures
        s@ == decimal(n as nat),
{
    let mut s = String::new();
    push_decimal(&mut s, n);
    s
}

/// `s` right-aligned in a field of `w` characters (`{:>w}`).
pub open spec fn pad_left(s: Seq<char>, w: nat) -> Seq<char> {
    if s.len() < w {
        Seq::new((w - s.len()) as nat, |_i: int| ' ') + s
    } else {
        s
    }
}

/// Appends `n` right-aligned in a field of `w` characters.
pub fn push_decimal_padded(s: &mut String, n: u64, w: usize)
    ensures
        final(s)@ == old(s)@ + pad_left(decimal(n as nat), w as nat),
{
    let d = decimal_string(n);
    let len = d.as_str().unicode_len();
    if len < w {
        let mut k: usize = 0;
        while k < w - len
            invariant
                len < w,
                k <= w - len,
                s@ == old(s)@ + Seq::new(k as nat, |_i: int| ' '),
            decreases w - len - k,
        {
            push_char(s, ' ');
            k = k + 1;
            assert(Seq::new(k as nat, |_i: int| ' ') =~= Seq::new((k - 1) as nat, |_i: int| ' ').push(' '));
        }
    }
    s.append(d.as_str());
    assert(s@ =~= old(s)@ + pad_left(decimal(n as nat), w as nat));
}

// ---------------------------------------------------------------------------
// Ordering
// ---------------------------------------------------------------------------

/// Lexicographic order by code point: the order `String`'s `Ord` gives,
/// since UTF-8 preserves code point order.
pub open spec fn seq_lt(a: Seq<char>, b: Seq<char>) -> bool
    decreases a.len(),
{
    if a.len() == 0 {
        b.len() > 0
    } else if b.len() == 0 {
        false
    } else if a[0] != b[0] {
        (a[0] as int) < (b[0] as int)
    } else {
        seq_lt(a.drop_first(), b.drop_first())
    }
}

proof fn lemma_seq_lt_skip(a: Seq<char>, b: Seq<char>, i: int)
    requires
        0 <= i <= a.len(),
        i <= b.len(),
        forall|j: int| 0 <= j < i ==> a[j] == b[j],
    ensures
        seq_lt(a, b) == seq_lt(a.skip(i), b.skip(i)),
    decreases i,
{
    if i > 0 {
        assert forall|j: int| 0 <= j < i - 1 implies a.drop_first()[j] == b.drop_first()[j] by {
            assert(a[j + 1] == b[j + 1]);
        }
        lemma_seq_lt_skip(a.drop_first(), b.drop_first(), i - 1);
        assert(a.drop_first().skip(i - 1) =~= a.skip(i));
        assert(b.drop_first().skip(i - 1) =~= b.skip(i));
        assert(a[0] == b[0]);
    } else {
        assert(a.skip(0) =~= a);
        assert(b.skip(0) =~= b);
    }
}

/// Whether `a` sorts strictly before `b`.
pub fn str_lt(a: &str, b: &str) -> (r: bool)
    ensures
        r == seq_lt(a@, b@),
{
    let va = chars_of(a);
    let vb = chars_of(b);
    let mut i: usize = 0;
    while i < va.len() && i < vb.len() && va[i] == vb[i]
        invariant
            i <= va.len(),
            i <= vb.len(),
            forall|j: int| 0 <= j < i ==> va@[j] == vb@[j],
        decreases va.len() - i,
    {
        i = i + 1;
    }
    proof {
        lemma_seq_lt_skip(va@, vb@, i as int);
    }
    if i == va.len() {
        i < vb.len()
    } else if i == vb.len() {
        false
    } else {
        assert(va@.skip(i as int)[0] == va@[i as int]);
        assert(vb@.skip(i as int)[0] == vb@[i as int]);
        va[i] < vb[i]
    }
}

} // verus!

verus! {

/// Whether two string slices hold the same characters.
pub fn same_text(a: &str, b: &str) -> (r: bool)
    ensures
        r == (a@ == b@),
{
    let va = chars_of(a);
    let vb = chars_of(b);
    let r = range_eq(&va, 0, va.len(), &vb);
    assert(va@.subrange(0, va@.len() as int) =~= va@);
    r
}

} // verus!

verus! {

/// The views of a sequence of strings.
pub open spec fn views(v: Seq<String>) -> Seq<Seq<char>> {
    v.map_values(|s: String| s@)
}

/// Whether one of the strings in `v` holds the characters of `s`.
pub fn contains_text(v: &Vec<String>, s: &str) -> (b: bool)
    ensures
        b == views(v@).contains(s@),
{
    let mut i: usize = 0;
    while i < v.len()
        invariant
            i <= v.len(),
            forall|j: int| 0 <= j < i ==> v@[j]@ != s@,
        decreases v.len() - i,
    {
        if same_text(v[i].as_str(), s) {
            assert(views(v@)[i as int] == s@);
            return true;
        }
        i = i + 1;
    }
    proof {
        if views(v@).contains(s@) {
            let j = choose|j: int| 0 <= j < views(v@).len() && views(v@)[j] == s@;
            assert(v@[j]@ == s@);
        }
    }
    false
}

} // verus!

verus! {

/// How `{:?}` renders a string slice: in double quotes, with the characters
/// that need it escaped.
pub uninterp spec fn debug_str(s: Seq<char>) -> Seq<char>;

/// What `str::to_lowercase` makes of `s`: its Unicode lowercase mapping, as
/// std defines it (which lowers a final capital sigma by its context).
pub uninterp spec fn lowercase(s: Seq<char>) -> Seq<char>;

/// `str::to_lowercase`.
#[verifier::external_body]
pub fn to_lowercase(s: &str) -> (r: String)
    ensures
        r@ == lowercase(s@),
{
    s.to_lowercase()
}

/// The `{:?}` rendering of `s` (std's `Debug` for `str`).
#[verifier::external_body]
pub fn debug_quoted(s: &str) -> (r: String)
    ensures
        r@ == debug_str(s@),
{
    format!("{:?}", s)
}

} // verus!

verus! {

/// Nothing sorts before itself.
pub proof fn lemma_seq_lt_irreflexive(a: Seq<char>)
    ensures
        !seq_lt(a, a),
    decreases a.len(),
{
    if a.len() > 0 {
        lemma_seq_lt_irreflexive(a.drop_first());
    }
}

/// The order is transitive.
pub proof fn lemma_seq_lt_transitive(a: Seq<char>, b: Seq<char>, c: Seq<char>)
    requires
        seq_lt(a, b),
        seq_lt(b, c),
    ensures
        seq_lt(a, c),
    decreases a.len(),
{
    if a.len() > 0 && b.len() > 0 && c.len() > 0 && a[0] == b[0] && b[0] == c[0] {
        lemma_seq_lt_transitive(a.drop_first(), b.drop_first(), c.drop_first());
    }
}

/// Two different sequences are ordered one way or the other, and never both.
pub proof fn lemma_seq_lt_total(a: Seq<char>, b: Seq<char>)
    ensures
        a != b ==> (seq_lt(a, b) || seq_lt(b, a)),
        !(seq_lt(a, b) && seq_lt(b, a)),
    decreases a.len(),
{
    if a.len() > 0 && b.len() > 0 && a[0] == b[0] {
        lemma_seq_lt_total(a.drop_first(), b.drop_first());
        if a != b {
            if a.drop_first() == b.drop_first() {
                assert(a =~= seq![a[0]] + a.drop_first());
                assert(b =~= seq![b[0]] + b.drop_first());
            }
        }
    } else if a.len() == 0 && b.len() == 0 {
        assert(a =~= b);
    } else if a.len() > 0 && b.len() > 0 {

        assert(a[0] as int != b[0] as int);
    }
}

} // verus!

verus! {

/// The items joined with `sep` between consecutive ones (`[..].join(sep)`).
pub open spec fn joined(items: Seq<Seq<char>>, sep: Seq<char>) -> Seq<char>
    decreases items.len(),
{
    if items.len() == 0 {
        Seq::empty()
    } else if items.len() == 1 {
        items[0]
    } else {
        joined(items.drop_last(), sep) + sep + items.last()
    }
}

/// Appends `item` to a string that holds `joined(items, sep)`, so that it
/// then holds `joined(items.push(item), sep)`.
pub fn push_joined(out: &mut String, items: Ghost<Seq<Seq<char>>>, first: bool, sep: &str, item: &str)
    requires
        old(out)@ == joined(items@, sep@),
        first == (items@.len() == 0),
    ensures
        final(out)@ == joined(items@.push(item@), sep@),
{
    if !first {
        out.append(sep);
    }
    out.append(item);
    assert(items@.push(item@).drop_last() =~= items@);
    if first {
        assert(final(out)@ =~= item@);
    }
}

} // verus!

verus! {

/// End of the part of `v[lo..hi]` that `str::trim_end` keeps.
pub fn trim_end_range(v: &Vec<char>, lo: usize, hi: usize) -> (e: usize)
    requires
        lo <= hi <= v.len(),
    ensures
        lo <= e <= hi,
        v@.subrange(lo as int, e as int) == trim_end(v@.subrange(lo as int, hi as int)),
{
    let ghost t = v@.subrange(lo as int, hi as int);
    let mut b = hi;
    while b > lo && is_whitespace(v[b - 1])
        invariant
            lo <= b <= hi <= v.len(),
            forall|j: int| b <= j < hi ==> is_ws(#[trigger] v@[j]),
        decreases b - lo,
    {
        b = b - 1;
    }
    proof {
        assert forall|j: int| t.len() - (hi - b) <= j < t.len() implies is_ws(#[trigger] t[j]) by {
            assert(t[j] == v@[lo + j]);
        }
        if b > lo {
            assert(t[t.len() - (hi - b) - 1] == v@[b - 1]);
        }
        lemma_trailing_ws(t, hi - b);
        assert(trim_end(t) =~= v@.subrange(lo as int, b as int));
    }
    b
}

} // verus!
