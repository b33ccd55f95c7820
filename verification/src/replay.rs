//! Replay the deduplication rule over recorded runs.
//!
//! For each pair of candidates an agent put forward in one run, two separate
//! questions: would the **strict** rule merge them (the line ranges
//! intersect), and would the **tolerant** rule (within the evaluator's
//! `±tolerance` matching slack)? Every merge the second makes and the first
//! does not was made on borrowed slack, and has to be inspected by hand.
//!
//! Walking the results tree and printing the report belong to the program;
//! the pairing is here.

use vstd::prelude::*;
use crate::text::owned;

verus! {

/// Where a recorded finding points.
#[derive(Debug, Clone)]
pub struct RecordedLocation {
    pub file: String,
    pub start_line: u32,
    pub end_line: u32,
}

/// The slice of a recorded finding this analysis needs.
#[derive(Debug, Clone)]
pub struct RecordedFinding {
    pub issue_type: String,
    pub location: RecordedLocation,
    pub claim: String,
}

/// One pair the rule would merge.
#[derive(Debug)]
pub struct Merge {
    pub run: String,
    pub case_id: String,
    pub issue_type: String,
    pub file: String,
    pub a: (u32, u32),
    pub b: (u32, u32),
    pub a_claim: String,
    pub b_claim: String,
    /// True when the ranges genuinely intersect; false when only the
    /// tolerance brought them together.
    pub strict: bool,
}

/// Line ranges `a` and `b` meet once `a` is widened by `slack` on each side
/// (saturating at 0 and at `u32::MAX`).
pub open spec fn ranges_meet(a: (u32, u32), b: (u32, u32), slack: u32) -> bool {
    let lo = if a.0 >= slack {
        a.0 - slack
    } else {
        0
    };
    let hi = if a.1 + slack <= u32::MAX {
        a.1 + slack
    } else {
        u32::MAX as int
    };
    lo <= b.1 && b.0 <= hi
}

/// Whether the ranges meet with `slack` lines of give.
pub fn intersects(a: (u32, u32), b: (u32, u32), slack: u32) -> (r: bool)
    ensures
        r == ranges_meet(a, b, slack),
{
    a.0.saturating_sub(slack) <= b.1 && b.0 <= a.1.saturating_add(slack)
}

/// The line range of a recorded finding.
pub open spec fn range_of(f: RecordedFinding) -> (u32, u32) {
    (f.location.start_line, f.location.end_line)
}

/// Findings `i` and `j` of a run would be merged under `tolerance`.
pub open spec fn would_merge(f: Seq<RecordedFinding>, i: int, j: int, tolerance: u32) -> bool {
    &&& f[i].issue_type@ == f[j].issue_type@
    &&& f[i].location.file@ == f[j].location.file@
    &&& ranges_meet(range_of(f[i]), range_of(f[j]), tolerance)
}

/// The merging pairs `(i, j)` with `i < j < n`, in order of `j`.
pub open spec fn pairs_with(f: Seq<RecordedFinding>, i: int, n: int, tolerance: u32) -> Seq<(int, int)>
    decreases n - i,
{
    if n <= i + 1 {
        Seq::empty()
    } else if would_merge(f, i, n - 1, tolerance) {
        pairs_with(f, i, n - 1, tolerance).push((i, n - 1))
    } else {
        pairs_with(f, i, n - 1, tolerance)
    }
}

/// Every merging pair whose first finding is before `n`, in order.
pub open spec fn pairs_before(f: Seq<RecordedFinding>, n: int, tolerance: u32) -> Seq<(int, int)>
    decreases n,
{
    if n <= 0 {
        Seq::empty()
    } else {
        pairs_before(f, n - 1, tolerance) + pairs_with(f, n - 1, f.len() as int, tolerance)
    }
}

/// `m` records the merge of findings `p.0` and `p.1` of run `run`, case `case_id`.
pub open spec fn records(m: Merge, run: Seq<char>, case_id: Seq<char>, f: Seq<RecordedFinding>, p: (int, int)) -> bool {
    &&& m.run@ == run
    &&& m.case_id@ == case_id
    &&& m.issue_type@ == f[p.0].issue_type@
    &&& m.file@ == f[p.0].location.file@
    &&& m.a == range_of(f[p.0])
    &&& m.b == range_of(f[p.1])
    &&& m.a_claim@ == f[p.0].claim@
    &&& m.b_claim@ == f[p.1].claim@
    &&& m.strict == ranges_meet(range_of(f[p.0]), range_of(f[p.1]), 0)
}

/// The pairs of one run's findings that the rule would merge under
/// `tolerance`: same issue type, same file, ranges that meet; each pair once,
/// earlier finding first, in order of the earlier and then the later finding.
pub fn run_merges(run: &str, case_id: &str, findings: &Vec<RecordedFinding>, tolerance: u32) -> (r: Vec<Merge>)
    ensures
        r@.len() == pairs_before(findings@, findings@.len() as int, tolerance).len(),
        forall|k: int|
            0 <= k < r@.len() ==> records(
                #[trigger] r@[k],
                run@,
                case_id@,
                findings@,
                pairs_before(findings@, findings@.len() as int, tolerance)[k],
            ),
{
    let ghost f = findings@;
    let mut r: Vec<Merge> = Vec::new();
    let mut i: usize = 0;
    while i < findings.len()
        invariant
            i <= findings.len(),
            f == findings@,
            r@.len() == pairs_before(f, i as int, tolerance).len(),
            forall|k: int|
                0 <= k < r@.len() ==> records(
                    #[trigger] r@[k],
                    run@,
                    case_id@,
                    f,
                    pairs_before(f, i as int, tolerance)[k],
                ),
        decreases findings.len() - i,
    {
        let ghost base = pairs_before(f, i as int, tolerance);
        let mut j: usize = i + 1;
        while j < findings.len()
            invariant
                i < j <= findings.len(),
                f == findings@,
                base == pairs_before(f, i as int, tolerance),
                r@.len() == base.len() + pairs_with(f, i as int, j as int, tolerance).len(),
                forall|k: int|
                    0 <= k < r@.len() ==> records(
                        #[trigger] r@[k],
                        run@,
                        case_id@,
                        f,
                        (base + pairs_with(f, i as int, j as int, tolerance))[k],
                    ),
            decreases findings.len() - j,
        {
            let a = &findings[i];
            let b = &findings[j];
            let ra = (a.location.start_line, a.location.end_line);
            let rb = (b.location.start_line, b.location.end_line);
            let same = crate::text::same_text(a.issue_type.as_str(), b.issue_type.as_str())
                && crate::text::same_text(a.location.file.as_str(), b.location.file.as_str());
            if same && intersects(ra, rb, tolerance) {
                let m = Merge {
                    run: owned(run),
                    case_id: owned(case_id),
                    issue_type: a.issue_type.clone(),
                    file: a.location.file.clone(),
                    a: ra,
                    b: rb,
                    a_claim: a.claim.clone(),
                    b_claim: b.claim.clone(),
                    strict: intersects(ra, rb, 0),
                };
                r.push(m);
                assert((base + pairs_with(f, i as int, j + 1, tolerance)) =~= (base + pairs_with(
                    f,
                    i as int,
                    j as int,
                    tolerance,
                )).push((i as int, j as int)));
            } else {
                assert(pairs_with(f, i as int, j + 1, tolerance) == pairs_with(
                    f,
                    i as int,
                    j as int,
                    tolerance,
                ));
            }
            j = j + 1;
        }
        proof {
            if i + 1 > findings.len() {
            }
            assert(pairs_before(f, i + 1, tolerance) == base + pairs_with(
                f,
                i as int,
                f.len() as int,
                tolerance,
            ));
        }
        i = i + 1;
    }
    r
}

} // verus!

verus! {

/// `s` cut to at most `n` characters for a one-line report: the first
/// `n - 1` followed by an ellipsis when it is longer.
pub open spec fn shortened(s: Seq<char>, n: nat) -> Seq<char> {
    if s.len() <= n {
        s
    } else {
        s.take(if n >= 1 {
            n - 1
        } else {
            0
        }) + "…"@
    }
}

pub fn shorten(s: &str, n: usize) -> (r: String)
    ensures
        r@ == shortened(s@, n as nat),
{
    let v = crate::text::chars_of(s);
    if v.len() <= n {
        return owned(s);
    }
    let k = if n >= 1 {
        n - 1
    } else {
        0
    };
    let mut r = String::new();
    crate::text::push_range(&mut r, &v, 0, k);
    assert(v@.subrange(0, k as int) =~= v@.take(k as int));
    r.append("…");
    r
}

} // verus!
