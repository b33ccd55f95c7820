//! Parsing of urlencoded key/value input, from the URL and from the body.

use vstd::prelude::*;
use crate::text::{chars_of, split_char, split_ranges, string_of};

verus! {

/// Longest query string the router will look at, in bytes.
pub const MAX_QUERY_LEN: usize = 128;

/// Longest urlencoded request body the router will look at, in bytes.
pub const MAX_BODY_LEN: usize = 8192;

/// Most key/value pairs any single body parse is allowed to return, so that
/// one request cannot make the router allocate an unbounded number of entries.
pub const MAX_PAIRS: usize = 100;

#[derive(Debug, PartialEq, Eq)]
pub enum QueryError {
    /// The input is longer than the limit for that input's source.
    TooLong { len: usize, limit: usize },
    /// The input carries more pairs than the router will hold.
    TooManyPairs,
    /// A segment such as `=v` names no key.
    EmptyKey,
}

/// A segment split at its first `=`; a segment with no `=` is a key with an
/// empty value.
pub open spec fn split_pair(seg: Seq<char>) -> (Seq<char>, Seq<char>) {
    let k = split_char(seg, '=')[0];
    if k.len() < seg.len() {
        (k, seg.skip(k.len() as int + 1))
    } else {
        (seg, Seq::empty())
    }
}

/// The pairs of the first `n` segments; empty segments are skipped. With a
/// cap, a segment that would add a pair past it is an error.
pub open spec fn parse_pairs(segs: Seq<Seq<char>>, n: int, cap: Option<nat>) -> Result<
    Seq<(Seq<char>, Seq<char>)>,
    QueryError,
>
    decreases n,
{
    if n <= 0 {
        Ok(Seq::empty())
    } else {
        match parse_pairs(segs, n - 1, cap) {
            Err(e) => Err(e),
            Ok(out) => {
                let seg = segs[n - 1];
                if seg.len() == 0 {
                    Ok(out)
                } else {
                    let (k, v) = split_pair(seg);
                    if k.len() == 0 {
                        Err(QueryError::EmptyKey)
                    } else if cap matches Some(c) && out.len() == c {
                        Err(QueryError::TooManyPairs)
                    } else {
                        Ok(out.push((k, v)))
                    }
                }
            },
        }
    }
}

/// Once the parse fails, later segments do not change the error.
proof fn lemma_error_sticks(segs: Seq<Seq<char>>, m: int, n: int, cap: Option<nat>)
    requires
        0 <= m <= n,
        parse_pairs(segs, m, cap) is Err,
    ensures
        parse_pairs(segs, n, cap) == parse_pairs(segs, m, cap),
    decreases n - m,
{
    if n > m {
        lemma_error_sticks(segs, m, n - 1, cap);
    }
}

/// The pairs of `s` split at `&`.
pub open spec fn pairs_of(s: Seq<char>, cap: Option<nat>) -> Result<Seq<(Seq<char>, Seq<char>)>, QueryError> {
    let segs = split_char(s, '&');
    parse_pairs(segs, segs.len() as int, cap)
}

/// The views of parsed pairs.
pub open spec fn pair_views(v: Seq<(String, String)>) -> Seq<(Seq<char>, Seq<char>)> {
    v.map_values(|p: (String, String)| (p.0@, p.1@))
}

/// Whether a parse result is the expected one.
pub open spec fn parsed_as(
    r: Result<Vec<(String, String)>, QueryError>,
    want: Result<Seq<(Seq<char>, Seq<char>)>, QueryError>,
) -> bool {
    match want {
        Ok(ps) => r is Ok && pair_views(r->Ok_0@) == ps,
        Err(e) => r == Err::<Vec<(String, String)>, QueryError>(e),
    }
}

fn parse_segments(s: &str, cap: Option<usize>) -> (r: Result<Vec<(String, String)>, QueryError>)
    ensures
        parsed_as(
            r,
            pairs_of(
                s@,
                match cap {
                    Some(c) => Some(c as nat),
                    None => None,
                },
            ),
        ),
{
    let ghost cap_n: Option<nat> = match cap {
        Some(c) => Some(c as nat),
        None => None,
    };
    let v = chars_of(s);
    assert(v@.subrange(0, v@.len() as int) =~= s@);
    let segs = split_ranges(&v, 0, v.len(), '&');
    let ghost ss = split_char(s@, '&');
    let mut out: Vec<(String, String)> = Vec::new();
    let mut i: usize = 0;
    assert(pair_views(out@) =~= Seq::<(Seq<char>, Seq<char>)>::empty());
    while i < segs.len()
        invariant
            i <= segs.len() == ss.len(),
            v@ == s@,
            ss == split_char(s@, '&'),
            forall|k: int|
                0 <= k < segs.len() ==> 0 <= (#[trigger] segs[k]).0 <= segs[k].1 <= v.len()
                    && v@.subrange(segs[k].0 as int, segs[k].1 as int) == ss[k],
            cap_n == (match cap {
                Some(c) => Some(c as nat),
                None => None,
            }),
            parse_pairs(ss, i as int, cap_n) == Ok::<Seq<(Seq<char>, Seq<char>)>, QueryError>(
                pair_views(out@),
            ),
        decreases segs.len() - i,
    {
        let (a, b) = segs[i];
        let ghost seg = ss[i as int];
        let ghost prev = pair_views(out@);
        if a < b {
            let parts = split_ranges(&v, a, b, '=');
            let (k0, k1) = parts[0];
            let ghost kk = split_char(seg, '=')[0];
            assert(kk.len() == k1 - k0);
            let (v0, v1) = if k1 < b {
                (k1 + 1, b)
            } else {
                (b, b)
            };
            let (kl, kh) = if k1 < b {
                (k0, k1)
            } else {
                (a, b)
            };
            assert(v@.subrange(kl as int, kh as int) == split_pair(seg).0);
            assert(v@.subrange(v0 as int, v1 as int) =~= split_pair(seg).1);
            if kl == kh {
                proof {
                    lemma_error_sticks(ss, i + 1, ss.len() as int, cap_n);
                }
                return Err(QueryError::EmptyKey);
            }
            match cap {
                Some(c) => {
                    if out.len() == c {
                        proof {
                            lemma_error_sticks(ss, i + 1, ss.len() as int, cap_n);
                        }
                        return Err(QueryError::TooManyPairs);
                    }
                },
                None => {},
            }
            let key = string_of(&v, kl, kh);
            let val = string_of(&v, v0, v1);
            out.push((key, val));
            assert(pair_views(out@) =~= prev.push(split_pair(seg)));
        } else {
            assert(seg.len() == 0);
        }
        i = i + 1;
    }
    Ok(out)
}

/// What `parse_query` returns for `q`.
pub open spec fn query_result(q: &str) -> Result<Seq<(Seq<char>, Seq<char>)>, QueryError> {
    if q.len() > MAX_QUERY_LEN {
        Err(QueryError::TooLong { len: q.len(), limit: MAX_QUERY_LEN })
    } else {
        pairs_of(q@, None)
    }
}

/// What `parse_body` returns for `b`.
pub open spec fn body_result(b: &str) -> Result<Seq<(Seq<char>, Seq<char>)>, QueryError> {
    if b.len() > MAX_BODY_LEN {
        Err(QueryError::TooLong { len: b.len(), limit: MAX_BODY_LEN })
    } else {
        pairs_of(b@, Some(MAX_PAIRS as nat))
    }
}

/// Parse the query string of a URL.
///
/// Empty segments are skipped, so a trailing `&` is tolerated. A segment with
/// no `=` is a key with an empty value.
pub fn parse_query(q: &str) -> (r: Result<Vec<(String, String)>, QueryError>)
    ensures
        parsed_as(r, query_result(q)),
{
    if q.len() > MAX_QUERY_LEN {
        return Err(QueryError::TooLong { len: q.len(), limit: MAX_QUERY_LEN });
    }
    parse_segments(q, None)
}

/// Parse an urlencoded request body, which is allowed to be far larger than a
/// query string.
pub fn parse_body(b: &str) -> (r: Result<Vec<(String, String)>, QueryError>)
    ensures
        parsed_as(r, body_result(b)),
{
    if b.len() > MAX_BODY_LEN {
        return Err(QueryError::TooLong { len: b.len(), limit: MAX_BODY_LEN });
    }
    parse_segments(b, Some(MAX_PAIRS))
}

/// A body parse never returns more than `MAX_PAIRS` pairs.
pub proof fn law_body_pairs_capped(segs: Seq<Seq<char>>, n: int)
    ensures
        parse_pairs(segs, n, Some(MAX_PAIRS as nat)) matches Ok(ps) ==> ps.len() <= MAX_PAIRS,
    decreases n,
{
    if n > 0 {
        law_body_pairs_capped(segs, n - 1);
    }
}

} // verus!
