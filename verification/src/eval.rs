//! Deterministic evaluation.
//!
//! No model is involved in scoring. A prediction matches an expected finding
//! when its `issue_type` is acceptable for that defect and its location
//! overlaps the expected range within a fixed line tolerance.
//!
//! Matching is one-to-one. Two predictions that both land on the same real
//! defect produce one true positive and one false positive: telling an agent
//! the same thing twice still costs them a second triage.

use vstd::prelude::*;
use crate::bench::{CaseCategory, ExpectedFinding, GroundTruth, accepts, expected_end, expected_start};
use crate::finding::{
    CandidateFinding, Finding, FindingStatus, Location, issue_type_name, location_text, normalized,
    overlaps_with,
};
use crate::order::{insert_pos, lemma_insert_pos, lemma_stable_sort_members, stable_sort};
use crate::text::{owned, seq_lt, str_lt};

verus! {

/// Core counts. Everything else is derived from these.
#[derive(Debug, Clone, Copy, PartialEq, Eq, Structural)]
pub struct Counts {
    pub true_positives: u32,
    pub false_positives: u32,
    pub false_negatives: u32,
}

impl Default for Counts {
    fn default() -> (c: Self)
        ensures
            c.true_positives == 0 && c.false_positives == 0 && c.false_negatives == 0,
    {
        Counts { true_positives: 0, false_positives: 0, false_negatives: 0 }
    }
}

impl Counts {
    /// Accumulate another case's counts.
    pub fn add(&mut self, other: &Counts)
        requires
            old(self).true_positives + other.true_positives <= u32::MAX,
            old(self).false_positives + other.false_positives <= u32::MAX,
            old(self).false_negatives + other.false_negatives <= u32::MAX,
        ensures
            final(self).true_positives == old(self).true_positives + other.true_positives,
            final(self).false_positives == old(self).false_positives + other.false_positives,
            final(self).false_negatives == old(self).false_negatives + other.false_negatives,
    {
        self.true_positives = self.true_positives + other.true_positives;
        self.false_positives = self.false_positives + other.false_positives;
        self.false_negatives = self.false_negatives + other.false_negatives;
    }
}

/// One prediction paired with the expected finding it satisfied.
#[derive(Debug, Clone)]
pub struct MatchedPair {
    pub prediction_id: String,
    pub expected_id: String,
    pub location: String,
    pub issue_type: String,
}

/// A reported finding that matched nothing.
#[derive(Debug, Clone)]
pub struct UnmatchedPrediction {
    pub prediction_id: String,
    pub location: String,
    pub issue_type: String,
    pub claim: String,
}

/// An expected finding nothing reported.
#[derive(Debug, Clone)]
pub struct MissedFinding {
    pub expected_id: String,
    pub location: String,
    pub issue_type: String,
    pub description: String,
}

/// The four text fields of a row, as character sequences.
pub type Row = (Seq<char>, Seq<char>, Seq<char>, Seq<char>);

impl MatchedPair {
    pub open spec fn row(self) -> Row {
        (self.prediction_id@, self.expected_id@, self.location@, self.issue_type@)
    }
}

impl UnmatchedPrediction {
    pub open spec fn row(self) -> Row {
        (self.prediction_id@, self.location@, self.issue_type@, self.claim@)
    }
}

impl MissedFinding {
    pub open spec fn row(self) -> Row {
        (self.expected_id@, self.location@, self.issue_type@, self.description@)
    }
}

/// Result of scoring one case.
#[derive(Debug, Clone)]
pub struct CaseEvaluation {
    pub case_id: String,
    pub category: CaseCategory,
    pub counts: Counts,
    pub matched: Vec<MatchedPair>,
    pub unmatched_predictions: Vec<UnmatchedPrediction>,
    pub missed: Vec<MissedFinding>,
    /// Findings the system produced but did not report (Rejected/Uncertain).
    /// Excluded from scoring; kept because a cleared finding is evidence that
    /// falsification did work.
    pub withheld: u32,
}

// ---------------------------------------------------------------------------
// Specification of the matching
// ---------------------------------------------------------------------------

/// The order predictions are considered in: file, first line, issue type
/// name, then id. `a` comes after `b`.
pub open spec fn prediction_gt(a: CandidateFinding, b: CandidateFinding) -> bool {
    ||| seq_lt(b.location.file@, a.location.file@)
    ||| (a.location.file@ == b.location.file@ && (a.location.start_line > b.location.start_line || (
    a.location.start_line == b.location.start_line && (seq_lt(
        issue_type_name(b.issue_type),
        issue_type_name(a.issue_type),
    ) || (issue_type_name(a.issue_type) == issue_type_name(b.issue_type) && seq_lt(
        b.id@,
        a.id@,
    ))))))
}

/// Indices, among the first `n` findings, of those that are reported.
pub open spec fn reported_upto(fs: Seq<Finding>, n: int) -> Seq<int>
    decreases n,
{
    if n <= 0 {
        Seq::empty()
    } else {
        let r = reported_upto(fs, n - 1);
        if fs[n - 1].status == FindingStatus::Verified {
            r.push(n - 1)
        } else {
            r
        }
    }
}

pub open spec fn prediction_gt_at(fs: Seq<Finding>) -> spec_fn(int, int) -> bool {
    |a: int, b: int| prediction_gt(fs[a].candidate, fs[b].candidate)
}

/// The reported findings, as indices, in the order matching considers them.
pub open spec fn prediction_order(fs: Seq<Finding>) -> Seq<int> {
    stable_sort(reported_upto(fs, fs.len() as int), prediction_gt_at(fs))
}

pub open spec fn expected_gt_at(es: Seq<ExpectedFinding>) -> spec_fn(int, int) -> bool {
    |a: int, b: int| seq_lt(es[b].id@, es[a].id@)
}

/// The expected findings, as indices, in id order.
pub open spec fn expected_order(es: Seq<ExpectedFinding>) -> Seq<int> {
    stable_sort(Seq::new(es.len(), |i: int| i), expected_gt_at(es))
}

/// Whether prediction `p` may be credited for the defect `e`.
pub open spec fn qualifies(p: CandidateFinding, e: ExpectedFinding, tol: u32) -> bool {
    accepts(e, p.issue_type) && overlaps_with(
        p.location,
        normalized(e.file@),
        expected_start(e),
        expected_end(e),
        tol,
    )
}

/// Twice the distance between the midpoints of two line ranges.
pub open spec fn distance(p: Location, e: ExpectedFinding) -> int {
    let a = p.start_line + p.end_line;
    let b = expected_start(e) + expected_end(e);
    if a >= b {
        a - b
    } else {
        b - a
    }
}

/// Among the first `n` predictions in order, the unused qualifying one
/// closest to `e`; the first one on a tie.
pub open spec fn best_upto(
    fs: Seq<Finding>,
    ord: Seq<int>,
    used: Seq<bool>,
    e: ExpectedFinding,
    tol: u32,
    n: int,
) -> Option<int>
    decreases n,
{
    if n <= 0 {
        None
    } else {
        let b = best_upto(fs, ord, used, e, tol, n - 1);
        let c = fs[ord[n - 1]].candidate;
        if !used[n - 1] && qualifies(c, e, tol) && (b is None || distance(c.location, e)
            < distance(fs[ord[b->0]].candidate.location, e)) {
            Some(n - 1)
        } else {
            b
        }
    }
}

/// The matching after the first `k` expected findings (in `eord` order):
/// which predictions are used, and which each expected finding took.
pub open spec fn match_run(
    fs: Seq<Finding>,
    ord: Seq<int>,
    es: Seq<ExpectedFinding>,
    eord: Seq<int>,
    tol: u32,
    k: int,
) -> (Seq<bool>, Seq<Option<int>>)
    decreases k,
{
    if k <= 0 {
        (Seq::new(ord.len(), |i: int| false), Seq::empty())
    } else {
        let prev = match_run(fs, ord, es, eord, tol, k - 1);
        let e = es[eord[k - 1]];
        match best_upto(fs, ord, prev.0, e, tol, ord.len() as int) {
            Some(b) => (prev.0.update(b, true), prev.1.push(Some(b))),
            None => (prev.0, prev.1.push(None)),
        }
    }
}

pub open spec fn matched_rows(
    fs: Seq<Finding>,
    ord: Seq<int>,
    es: Seq<ExpectedFinding>,
    eord: Seq<int>,
    chosen: Seq<Option<int>>,
    k: int,
) -> Seq<Row>
    decreases k,
{
    if k <= 0 {
        Seq::empty()
    } else {
        let prev = matched_rows(fs, ord, es, eord, chosen, k - 1);
        match chosen[k - 1] {
            Some(b) => {
                let c = fs[ord[b]].candidate;
                let e = es[eord[k - 1]];
                prev.push(
                    (
                        c.id@,
                        e.id@,
                        location_text(c.location.file@, c.location.start_line, c.location.end_line),
                        issue_type_name(e.issue_type),
                    ),
                )
            },
            None => prev,
        }
    }
}

pub open spec fn missed_rows(
    es: Seq<ExpectedFinding>,
    eord: Seq<int>,
    chosen: Seq<Option<int>>,
    k: int,
) -> Seq<Row>
    decreases k,
{
    if k <= 0 {
        Seq::empty()
    } else {
        let prev = missed_rows(es, eord, chosen, k - 1);
        match chosen[k - 1] {
            Some(b) => prev,
            None => {
                let e = es[eord[k - 1]];
                prev.push(
                    (
                        e.id@,
                        location_text(normalized(e.file@), expected_start(e), expected_end(e)),
                        issue_type_name(e.issue_type),
                        e.description@,
                    ),
                )
            },
        }
    }
}

pub open spec fn unmatched_rows(fs: Seq<Finding>, ord: Seq<int>, used: Seq<bool>, n: int) -> Seq<
    Row,
>
    decreases n,
{
    if n <= 0 {
        Seq::empty()
    } else {
        let prev = unmatched_rows(fs, ord, used, n - 1);
        if used[n - 1] {
            prev
        } else {
            let c = fs[ord[n - 1]].candidate;
            prev.push(
                (
                    c.id@,
                    location_text(c.location.file@, c.location.start_line, c.location.end_line),
                    issue_type_name(c.issue_type),
                    c.claim@,
                ),
            )
        }
    }
}

/// The complete matching of a case.
pub open spec fn case_matching(fs: Seq<Finding>, es: Seq<ExpectedFinding>, tol: u32) -> (
    Seq<bool>,
    Seq<Option<int>>,
) {
    let ord = prediction_order(fs);
    let eord = expected_order(es);
    match_run(fs, ord, es, eord, tol, eord.len() as int)
}

/// How many of the findings are withheld (not reported).
pub open spec fn withheld_count(fs: Seq<Finding>) -> int {
    fs.len() - reported_upto(fs, fs.len() as int).len()
}

pub open spec fn opt_int(o: Option<usize>) -> Option<int> {
    match o {
        Some(u) => Some(u as int),
        None => None,
    }
}

pub open spec fn as_ints(v: Seq<usize>) -> Seq<int> {
    v.map_values(|u: usize| u as int)
}


// ---------------------------------------------------------------------------
// Bookkeeping facts about the matching
// ---------------------------------------------------------------------------

pub open spec fn count_true(s: Seq<bool>) -> nat
    decreases s.len(),
{
    if s.len() == 0 {
        0
    } else {
        count_true(s.drop_last()) + if s.last() {
            1nat
        } else {
            0nat
        }
    }
}

pub open spec fn count_some(s: Seq<Option<int>>) -> nat
    decreases s.len(),
{
    if s.len() == 0 {
        0
    } else {
        count_some(s.drop_last()) + if s.last() is Some {
            1nat
        } else {
            0nat
        }
    }
}

proof fn lemma_count_true_update(s: Seq<bool>, b: int)
    requires
        0 <= b < s.len(),
        !s[b],
    ensures
        count_true(s.update(b, true)) == count_true(s) + 1,
    decreases s.len(),
{
    let t = s.update(b, true);
    if b == s.len() - 1 {
        assert(t.drop_last() =~= s.drop_last());
    } else {
        assert(t.drop_last() =~= s.drop_last().update(b, true));
        lemma_count_true_update(s.drop_last(), b);
    }
}

proof fn lemma_count_true_le(s: Seq<bool>)
    ensures
        count_true(s) <= s.len(),
    decreases s.len(),
{
    if s.len() > 0 {
        lemma_count_true_le(s.drop_last());
    }
}

proof fn lemma_count_true_false(n: nat)
    ensures
        count_true(Seq::new(n, |i: int| false)) == 0,
    decreases n,
{
    if n > 0 {
        assert(Seq::new(n, |i: int| false).drop_last() =~= Seq::new((n - 1) as nat, |i: int| false));
        lemma_count_true_false((n - 1) as nat);
    }
}

/// The closest qualifying prediction is an unused one that qualifies.
pub proof fn lemma_best_qualifies(
    fs: Seq<Finding>,
    ord: Seq<int>,
    used: Seq<bool>,
    e: ExpectedFinding,
    tol: u32,
    n: int,
)
    ensures
        best_upto(fs, ord, used, e, tol, n) matches Some(b) ==> 0 <= b < n && !used[b]
            && qualifies(fs[ord[b]].candidate, e, tol),
    decreases n,
{
    if n > 0 {
        lemma_best_qualifies(fs, ord, used, e, tol, n - 1);
    }
}

proof fn lemma_match_run_counts(
    fs: Seq<Finding>,
    ord: Seq<int>,
    es: Seq<ExpectedFinding>,
    eord: Seq<int>,
    tol: u32,
    k: int,
)
    requires
        0 <= k,
    ensures
        match_run(fs, ord, es, eord, tol, k).0.len() == ord.len(),
        match_run(fs, ord, es, eord, tol, k).1.len() == k,
        count_true(match_run(fs, ord, es, eord, tol, k).0) == count_some(
            match_run(fs, ord, es, eord, tol, k).1,
        ),
        forall|j: int|
            0 <= j < k ==> (#[trigger] match_run(fs, ord, es, eord, tol, k).1[j] matches Some(b)
                ==> qualifies(fs[ord[b]].candidate, es[eord[j]], tol)),
    decreases k,
{
    if k == 0 {
        lemma_count_true_false(ord.len());
    } else {
        lemma_match_run_counts(fs, ord, es, eord, tol, k - 1);
        let prev = match_run(fs, ord, es, eord, tol, k - 1);
        let e = es[eord[k - 1]];
        lemma_best_qualifies(fs, ord, prev.0, e, tol, ord.len() as int);
        let cur = match_run(fs, ord, es, eord, tol, k);
        assert(cur.1.drop_last() =~= prev.1);
        match best_upto(fs, ord, prev.0, e, tol, ord.len() as int) {
            Some(b) => {
                lemma_count_true_update(prev.0, b);
            },
            None => {},
        }
        assert forall|j: int|
            0 <= j < k implies (#[trigger] cur.1[j] matches Some(b) ==> qualifies(
                fs[ord[b]].candidate,
                es[eord[j]],
                tol,
            )) by {
            if j < k - 1 {
                assert(cur.1[j] == prev.1[j]);
            }
        }
    }
}

proof fn lemma_row_counts(
    fs: Seq<Finding>,
    ord: Seq<int>,
    es: Seq<ExpectedFinding>,
    eord: Seq<int>,
    chosen: Seq<Option<int>>,
    k: int,
)
    requires
        0 <= k <= chosen.len(),
    ensures
        matched_rows(fs, ord, es, eord, chosen, k).len() == count_some(chosen.take(k)),
        missed_rows(es, eord, chosen, k).len() + count_some(chosen.take(k)) == k,
    decreases k,
{
    if k > 0 {
        lemma_row_counts(fs, ord, es, eord, chosen, k - 1);
        assert(chosen.take(k).drop_last() =~= chosen.take(k - 1));
    } else {
        assert(chosen.take(0).len() == 0);
    }
}

proof fn lemma_unmatched_count(fs: Seq<Finding>, ord: Seq<int>, used: Seq<bool>, n: int)
    requires
        0 <= n <= used.len(),
    ensures
        unmatched_rows(fs, ord, used, n).len() + count_true(used.take(n)) == n,
    decreases n,
{
    if n > 0 {
        lemma_unmatched_count(fs, ord, used, n - 1);
        assert(used.take(n).drop_last() =~= used.take(n - 1));
    } else {
        assert(used.take(0).len() == 0);
    }
}

proof fn lemma_reported_len(fs: Seq<Finding>, n: int)
    requires
        0 <= n <= fs.len(),
    ensures
        reported_upto(fs, n).len() <= n,
    decreases n,
{
    if n > 0 {
        lemma_reported_len(fs, n - 1);
    }
}

// ---------------------------------------------------------------------------
// Executable matching
// ---------------------------------------------------------------------------

fn prediction_gt_exec(a: &CandidateFinding, b: &CandidateFinding) -> (r: bool)
    ensures
        r == prediction_gt(*a, *b),
{
    if str_lt(b.location.file.as_str(), a.location.file.as_str()) {
        return true;
    }
    if a.location.file != b.location.file {
        return false;
    }
    if a.location.start_line > b.location.start_line {
        return true;
    }
    if a.location.start_line != b.location.start_line {
        return false;
    }
    let an = a.issue_type.as_str();
    let bn = b.issue_type.as_str();
    if str_lt(bn, an) {
        return true;
    }
    if owned(an) != owned(bn) {
        return false;
    }
    str_lt(b.id.as_str(), a.id.as_str())
}

fn reported_indices(findings: &[Finding]) -> (r: (Vec<usize>, u32))
    requires
        findings.len() <= u32::MAX,
    ensures
        as_ints(r.0@) == reported_upto(findings@, findings.len() as int),
        forall|j: int| 0 <= j < r.0.len() ==> (#[trigger] r.0@[j]) < findings.len(),
        r.1 == withheld_count(findings@),
{
    let mut rep: Vec<usize> = Vec::new();
    let mut withheld: u32 = 0;
    let mut i: usize = 0;
    while i < findings.len()
        invariant
            i <= findings.len() <= u32::MAX,
            as_ints(rep@) == reported_upto(findings@, i as int),
            forall|j: int| 0 <= j < rep.len() ==> (#[trigger] rep@[j]) < i,
            withheld == i - rep.len(),
            rep.len() <= i,
        decreases findings.len() - i,
    {
        if findings[i].status.is_reported() {
            rep.push(i);
            assert(as_ints(rep@) =~= as_ints(rep@.drop_last()).push(i as int));
        } else {
            withheld = withheld + 1;
        }
        i = i + 1;
    }
    (rep, withheld)
}

fn sort_predictions(findings: &[Finding], rep: &Vec<usize>) -> (ord: Vec<usize>)
    requires
        forall|j: int| 0 <= j < rep.len() ==> (#[trigger] rep@[j]) < findings.len(),
    ensures
        as_ints(ord@) == stable_sort(as_ints(rep@), prediction_gt_at(findings@)),
        forall|j: int| 0 <= j < ord.len() ==> (#[trigger] ord@[j]) < findings.len(),
        ord.len() == rep.len(),
{
    let ghost gt = prediction_gt_at(findings@);
    let ghost xs = as_ints(rep@);
    let mut ord: Vec<usize> = Vec::new();
    let mut k: usize = 0;
    while k < rep.len()
        invariant
            k <= rep.len(),
            gt == prediction_gt_at(findings@),
            xs == as_ints(rep@),
            forall|j: int| 0 <= j < rep.len() ==> (#[trigger] rep@[j]) < findings.len(),
            as_ints(ord@) == stable_sort(xs.take(k as int), gt),
            forall|j: int| 0 <= j < ord.len() ==> (#[trigger] ord@[j]) < findings.len(),
            ord.len() == k,
        decreases rep.len() - k,
    {
        let x = rep[k];
        let mut p: usize = 0;
        while p < ord.len() && !prediction_gt_exec(&findings[ord[p]].candidate, &findings[x].candidate)
            invariant
                p <= ord.len(),
                x < findings.len(),
                forall|j: int| 0 <= j < ord.len() ==> (#[trigger] ord@[j]) < findings.len(),
                forall|j: int| 0 <= j < p ==> !gt(#[trigger] as_ints(ord@)[j], x as int),
                gt == prediction_gt_at(findings@),
            decreases ord.len() - p,
        {
            p = p + 1;
        }
        proof {
            let s = as_ints(ord@);
            lemma_insert_pos(s, x as int, gt, p as int);
            assert(xs.take(k + 1).drop_last() =~= xs.take(k as int));
            assert(xs.take(k + 1).last() == x as int);
        }
        let ghost before = as_ints(ord@);
        ord.insert(p, x);
        assert(as_ints(ord@) =~= before.insert(p as int, x as int));
        k = k + 1;
    }
    assert(xs.take(rep.len() as int) =~= xs);
    ord
}

fn sort_expected(es: &Vec<ExpectedFinding>) -> (ord: Vec<usize>)
    ensures
        as_ints(ord@) == expected_order(es@),
        forall|j: int| 0 <= j < ord.len() ==> (#[trigger] ord@[j]) < es.len(),
        ord.len() == es.len(),
{
    let ghost gt = expected_gt_at(es@);
    let ghost xs = Seq::new(es@.len(), |i: int| i);
    let mut ord: Vec<usize> = Vec::new();
    let mut k: usize = 0;
    while k < es.len()
        invariant
            k <= es.len(),
            gt == expected_gt_at(es@),
            xs == Seq::new(es@.len(), |i: int| i),
            as_ints(ord@) == stable_sort(xs.take(k as int), gt),
            forall|j: int| 0 <= j < ord.len() ==> (#[trigger] ord@[j]) < es.len(),
            ord.len() == k,
        decreases es.len() - k,
    {
        let mut p: usize = 0;
        while p < ord.len() && !str_lt(es[k].id.as_str(), es[ord[p]].id.as_str())
            invariant
                p <= ord.len(),
                k < es.len(),
                forall|j: int| 0 <= j < ord.len() ==> (#[trigger] ord@[j]) < es.len(),
                forall|j: int| 0 <= j < p ==> !gt(#[trigger] as_ints(ord@)[j], k as int),
                gt == expected_gt_at(es@),
            decreases ord.len() - p,
        {
            p = p + 1;
        }
        proof {
            let s = as_ints(ord@);
            lemma_insert_pos(s, k as int, gt, p as int);
            assert(xs.take(k + 1).drop_last() =~= xs.take(k as int));
            assert(xs.take(k + 1).last() == k as int);
        }
        let ghost before = as_ints(ord@);
        ord.insert(p, k);
        assert(as_ints(ord@) =~= before.insert(p as int, k as int));
        k = k + 1;
    }
    assert(xs.take(es.len() as int) =~= xs);
    ord
}

fn distance_exec(p: &Location, e: &ExpectedFinding) -> (d: u64)
    ensures
        d == distance(*p, *e),
{
    let es = if e.start_line <= e.end_line { e.start_line } else { e.end_line };
    let ee = if e.start_line <= e.end_line { e.end_line } else { e.start_line };
    let a = p.start_line as u64 + p.end_line as u64;
    let b = es as u64 + ee as u64;
    if a >= b {
        a - b
    } else {
        b - a
    }
}

/// The closest unused qualifying prediction for `e`.
fn best_prediction(
    findings: &[Finding],
    ord: &Vec<usize>,
    used: &Vec<bool>,
    e: &ExpectedFinding,
    tol: u32,
) -> (b: Option<usize>)
    requires
        used.len() == ord.len(),
        forall|j: int| 0 <= j < ord.len() ==> (#[trigger] ord@[j]) < findings.len(),
    ensures
        opt_int(b) == best_upto(findings@, as_ints(ord@), used@, *e, tol, ord.len() as int),
        b matches Some(i) ==> i < ord.len(),
{
    let eloc = e.location();
    let mut best: Option<usize> = None;
    let mut best_d: u64 = 0;
    let mut i: usize = 0;
    while i < ord.len()
        invariant
            i <= ord.len() == used.len(),
            forall|j: int| 0 <= j < ord.len() ==> (#[trigger] ord@[j]) < findings.len(),
            eloc.file@ == normalized(e.file@),
            eloc.start_line == expected_start(*e),
            eloc.end_line == expected_end(*e),
            opt_int(best) == best_upto(findings@, as_ints(ord@), used@, *e, tol, i as int),
            best matches Some(bi) ==> bi < i && best_d == distance(
                findings@[ord@[bi as int] as int].candidate.location,
                *e,
            ),
        decreases ord.len() - i,
    {
        let c = &findings[ord[i]].candidate;
        assert(as_ints(ord@)[i as int] == ord@[i as int] as int);
        if !used[i] && e.accepts_type(c.issue_type) && c.location.overlaps(&eloc, tol) {
            let d = distance_exec(&c.location, e);
            let better = match best {
                None => true,
                Some(_) => d < best_d,
            };
            if better {
                best = Some(i);
                best_d = d;
            }
        }
        proof {
            match best {
                Some(bi) => {
                    assert(as_ints(ord@)[bi as int] == ord@[bi as int] as int);
                },
                None => {},
            }
        }
        i = i + 1;
    }
    best
}

/// Score one case.
///
/// Only `Verified` findings are treated as predictions. `Rejected` and
/// `Uncertain` findings are counted in `withheld` and do not affect the score.
/// Predictions are considered in a fixed order (file, first line, issue type,
/// id) and expected findings in id order; each expected finding takes the
/// closest unused qualifying prediction.
pub fn evaluate_case(
    case_id: &str,
    category: CaseCategory,
    findings: &[Finding],
    truth: &GroundTruth,
    line_tolerance: u32,
) -> (r: CaseEvaluation)
    requires
        findings.len() <= u32::MAX,
        truth.expected_findings.len() <= u32::MAX,
    ensures
        r.case_id@ == case_id@,
        r.category == category,
        r.withheld == withheld_count(findings@),
        ({
            let fs = findings@;
            let es = truth.expected_findings@;
            let ord = prediction_order(fs);
            let eord = expected_order(es);
            let (used, chosen) = case_matching(fs, es, line_tolerance);
            &&& r.matched@.map_values(|m: MatchedPair| m.row()) == matched_rows(
                fs,
                ord,
                es,
                eord,
                chosen,
                eord.len() as int,
            )
            &&& r.missed@.map_values(|m: MissedFinding| m.row()) == missed_rows(
                es,
                eord,
                chosen,
                eord.len() as int,
            )
            &&& r.unmatched_predictions@.map_values(|m: UnmatchedPrediction| m.row())
                == unmatched_rows(fs, ord, used, ord.len() as int)
        }),
        r.counts.true_positives == r.matched.len(),
        r.counts.false_positives == r.unmatched_predictions.len(),
        r.counts.false_negatives == r.missed.len(),
        r.counts.true_positives + r.counts.false_negatives == truth.expected_findings.len(),
        r.counts.true_positives + r.counts.false_positives + r.withheld == findings.len(),
        forall|j: int|
            0 <= j < expected_order(truth.expected_findings@).len() ==> (#[trigger] case_matching(
                findings@,
                truth.expected_findings@,
                line_tolerance,
            ).1[j] matches Some(b) ==> qualifies(
                findings@[prediction_order(findings@)[b]].candidate,
                truth.expected_findings@[expected_order(truth.expected_findings@)[j]],
                line_tolerance,
            )),
{
    let es = &truth.expected_findings;
    let (rep, withheld) = reported_indices(findings);
    let ord = sort_predictions(findings, &rep);
    let eord = sort_expected(es);
    let ghost fs = findings@;
    let ghost ords = as_ints(ord@);
    let ghost eords = as_ints(eord@);
    assert(ords == prediction_order(fs));
    assert(eords == expected_order(es@));

    let mut used: Vec<bool> = Vec::new();
    let mut i: usize = 0;
    while i < ord.len()
        invariant
            i <= ord.len(),
            used@ == Seq::new(i as nat, |j: int| false),
        decreases ord.len() - i,
    {
        used.push(false);
        i = i + 1;
        assert(used@ =~= Seq::new(i as nat, |j: int| false));
    }

    let mut chosen: Vec<Option<usize>> = Vec::new();
    let mut k: usize = 0;
    while k < eord.len()
        invariant
            k <= eord.len() == es.len(),
            ords == as_ints(ord@),
            fs == findings@,
            eords == as_ints(eord@),
            used.len() == ord.len(),
            forall|j: int| 0 <= j < ord.len() ==> (#[trigger] ord@[j]) < findings.len(),
            forall|j: int| 0 <= j < eord.len() ==> (#[trigger] eord@[j]) < es.len(),
            forall|j: int|
                0 <= j < chosen.len() ==> (#[trigger] chosen@[j] matches Some(b) ==> b
                    < ord.len()),
            used@ == match_run(fs, ords, es@, eords, line_tolerance, k as int).0,
            chosen@.map_values(|o: Option<usize>| opt_int(o)) == match_run(
                fs,
                ords,
                es@,
                eords,
                line_tolerance,
                k as int,
            ).1,
            chosen.len() == k,
        decreases eord.len() - k,
    {
        let e = &es[eord[k]];
        assert(eords[k as int] == eord@[k as int] as int);
        let b = best_prediction(findings, &ord, &used, e, line_tolerance);
        let ghost prev_chosen = chosen@.map_values(|o: Option<usize>| opt_int(o));
        match b {
            Some(bi) => {
                used.set(bi, true);
            },
            None => {},
        }
        chosen.push(b);
        assert(chosen@.map_values(|o: Option<usize>| opt_int(o)) =~= prev_chosen.push(opt_int(b)));
        proof {
            let prev = match_run(fs, ords, es@, eords, line_tolerance, k as int);
            assert(es@[eords[k as int]] == *e);
            assert(opt_int(b) == best_upto(fs, ords, prev.0, es@[eords[k as int]], line_tolerance, ords.len() as int));
            let next = match_run(fs, ords, es@, eords, line_tolerance, k + 1);
            assert(next.1 == prev.1.push(opt_int(b)));
        }
        k = k + 1;
    }
    let ghost run = match_run(fs, ords, es@, eords, line_tolerance, eords.len() as int);
    assert(run == case_matching(fs, es@, line_tolerance));
    let ghost chosen_i = run.1;

    let mut matched: Vec<MatchedPair> = Vec::new();
    let mut missed: Vec<MissedFinding> = Vec::new();
    let mut k: usize = 0;
    while k < eord.len()
        invariant
            k <= eord.len() == chosen.len() == es.len(),
            ords == as_ints(ord@),
            fs == findings@,
            eords == as_ints(eord@),
            forall|j: int| 0 <= j < ord.len() ==> (#[trigger] ord@[j]) < findings.len(),
            forall|j: int| 0 <= j < eord.len() ==> (#[trigger] eord@[j]) < es.len(),
            forall|j: int|
                0 <= j < chosen.len() ==> (#[trigger] chosen@[j] matches Some(b) ==> b
                    < ord.len()),
            chosen@.map_values(|o: Option<usize>| opt_int(o)) == chosen_i,
            matched@.map_values(|m: MatchedPair| m.row()) == matched_rows(
                fs,
                ords,
                es@,
                eords,
                chosen_i,
                k as int,
            ),
            missed@.map_values(|m: MissedFinding| m.row()) == missed_rows(
                es@,
                eords,
                chosen_i,
                k as int,
            ),
            matched.len() + missed.len() == k,
        decreases eord.len() - k,
    {
        let e = &es[eord[k]];
        assert(eords[k as int] == eord@[k as int] as int);
        assert(chosen_i[k as int] == opt_int(chosen@[k as int]));
        match chosen[k] {
            Some(bi) => {
                let c = &findings[ord[bi]].candidate;
                assert(ords[bi as int] == ord@[bi as int] as int);
                let ghost before = matched@.map_values(|m: MatchedPair| m.row());
                let mp = MatchedPair {
                    prediction_id: c.id.clone(),
                    expected_id: e.id.clone(),
                    location: c.location.to_string(),
                    issue_type: owned(e.issue_type.as_str()),
                };
                matched.push(mp);
                assert(matched@.map_values(|m: MatchedPair| m.row()) =~= before.push(mp.row()));
                assert(mp.row() == (c.id@, e.id@, location_text(c.location.file@, c.location.start_line, c.location.end_line), issue_type_name(e.issue_type)));
                assert(*c == fs[ords[bi as int]].candidate);
                assert(*e == es@[eords[k as int]]);
            },
            None => {
                let ghost before = missed@.map_values(|m: MissedFinding| m.row());
                let mf = MissedFinding {
                    expected_id: e.id.clone(),
                    location: e.location().to_string(),
                    issue_type: owned(e.issue_type.as_str()),
                    description: e.description.clone(),
                };
                missed.push(mf);
                assert(missed@.map_values(|m: MissedFinding| m.row()) =~= before.push(mf.row()));
            },
        }
        k = k + 1;
    }

    let mut unmatched: Vec<UnmatchedPrediction> = Vec::new();
    let mut i: usize = 0;
    while i < ord.len()
        invariant
            i <= ord.len() == used.len(),
            ords == as_ints(ord@),
            fs == findings@,
            forall|j: int| 0 <= j < ord.len() ==> (#[trigger] ord@[j]) < findings.len(),
            unmatched@.map_values(|m: UnmatchedPrediction| m.row()) == unmatched_rows(
                fs,
                ords,
                used@,
                i as int,
            ),
            unmatched.len() <= i,
        decreases ord.len() - i,
    {
        assert(ords[i as int] == ord@[i as int] as int);
        if !used[i] {
            let c = &findings[ord[i]].candidate;
            let ghost before = unmatched@.map_values(|m: UnmatchedPrediction| m.row());
            let u = UnmatchedPrediction {
                prediction_id: c.id.clone(),
                location: c.location.to_string(),
                issue_type: owned(c.issue_type.as_str()),
                claim: c.claim.clone(),
            };
            unmatched.push(u);
            assert(unmatched@.map_values(|m: UnmatchedPrediction| m.row()) =~= before.push(u.row()));
            assert(*c == fs[ords[i as int]].candidate);
            assert(u.row() == (c.id@, location_text(c.location.file@, c.location.start_line, c.location.end_line), issue_type_name(c.issue_type), c.claim@));
        }
        i = i + 1;
    }

    proof {
        lemma_match_run_counts(fs, ords, es@, eords, line_tolerance, eords.len() as int);
        lemma_row_counts(fs, ords, es@, eords, chosen_i, eords.len() as int);
        assert(chosen_i.take(eords.len() as int) =~= chosen_i);
        lemma_unmatched_count(fs, ords, used@, ords.len() as int);
        assert(used@.take(ords.len() as int) =~= used@);
        lemma_stable_sort_members(reported_upto(fs, fs.len() as int), prediction_gt_at(fs));
        lemma_stable_sort_members(Seq::new(es@.len(), |i: int| i), expected_gt_at(es@));
        lemma_reported_len(fs, fs.len() as int);
    }
    let tp = matched.len() as u32;
    let fp = unmatched.len() as u32;
    let fneg = missed.len() as u32;
    CaseEvaluation {
        case_id: owned(case_id),
        category,
        counts: Counts { true_positives: tp, false_positives: fp, false_negatives: fneg },
        matched,
        unmatched_predictions: unmatched,
        missed,
        withheld,
    }
}

} // verus!

verus! {

proof fn lemma_match_run_injective(
    fs: Seq<Finding>,
    ord: Seq<int>,
    es: Seq<ExpectedFinding>,
    eord: Seq<int>,
    tol: u32,
    k: int,
)
    requires
        0 <= k,
    ensures
        match_run(fs, ord, es, eord, tol, k).0.len() == ord.len(),
        match_run(fs, ord, es, eord, tol, k).1.len() == k,
        forall|j: int|
            0 <= j < k && (#[trigger] match_run(fs, ord, es, eord, tol, k).1[j]) is Some ==> {
                let b = match_run(fs, ord, es, eord, tol, k).1[j]->0;
                0 <= b < ord.len() && match_run(fs, ord, es, eord, tol, k).0[b]
            },
        forall|j1: int, j2: int|
            0 <= j1 < j2 < k && (#[trigger] match_run(fs, ord, es, eord, tol, k).1[j1]) is Some && (
            #[trigger] match_run(fs, ord, es, eord, tol, k).1[j2]) is Some ==> match_run(
                fs,
                ord,
                es,
                eord,
                tol,
                k,
            ).1[j1]->0 != match_run(fs, ord, es, eord, tol, k).1[j2]->0,
    decreases k,
{
    if k > 0 {
        lemma_match_run_injective(fs, ord, es, eord, tol, k - 1);
        let prev = match_run(fs, ord, es, eord, tol, k - 1);
        let e = es[eord[k - 1]];
        lemma_best_qualifies(fs, ord, prev.0, e, tol, ord.len() as int);
        let cur = match_run(fs, ord, es, eord, tol, k);
        assert forall|j: int| 0 <= j < k - 1 implies cur.1[j] == prev.1[j] by {}
    } else {
        assert(match_run(fs, ord, es, eord, tol, k).1 =~= Seq::<Option<int>>::empty());
    }
}

/// Matching is one-to-one: no prediction is credited for two expected
/// findings, so two predictions on one defect give one true positive and one
/// false positive, never two true positives.
pub proof fn law_matching_is_one_to_one(fs: Seq<Finding>, es: Seq<ExpectedFinding>, tol: u32)
    ensures
        forall|j1: int, j2: int|
            0 <= j1 < j2 < case_matching(fs, es, tol).1.len() && (#[trigger] case_matching(
                fs,
                es,
                tol,
            ).1[j1]) is Some && (#[trigger] case_matching(fs, es, tol).1[j2]) is Some
                ==> case_matching(fs, es, tol).1[j1]->0 != case_matching(fs, es, tol).1[j2]->0,
{
    lemma_match_run_injective(
        fs,
        prediction_order(fs),
        es,
        expected_order(es),
        tol,
        expected_order(es).len() as int,
    );
}


/// The reported candidates, in the order matching considers them.
pub open spec fn considered(fs: Seq<Finding>) -> Seq<CandidateFinding> {
    prediction_order(fs).map_values(|i: int| fs[i].candidate)
}

/// Two orderings present the same candidates at every position.
pub open spec fn same_candidates(fs1: Seq<Finding>, ord1: Seq<int>, fs2: Seq<Finding>, ord2: Seq<int>) -> bool {
    &&& ord1.len() == ord2.len()
    &&& forall|k: int| 0 <= k < ord1.len() ==> #[trigger] fs1[ord1[k]].candidate == fs2[ord2[k]].candidate
}

proof fn lemma_best_transfer(
    fs1: Seq<Finding>,
    ord1: Seq<int>,
    fs2: Seq<Finding>,
    ord2: Seq<int>,
    used: Seq<bool>,
    e: ExpectedFinding,
    tol: u32,
    n: int,
)
    requires
        same_candidates(fs1, ord1, fs2, ord2),
        n <= ord1.len(),
    ensures
        best_upto(fs1, ord1, used, e, tol, n) == best_upto(fs2, ord2, used, e, tol, n),
        best_upto(fs1, ord1, used, e, tol, n) matches Some(b) ==> 0 <= b < n,
    decreases n,
{
    if n > 0 {
        lemma_best_transfer(fs1, ord1, fs2, ord2, used, e, tol, n - 1);
        assert(fs1[ord1[n - 1]].candidate == fs2[ord2[n - 1]].candidate);
        let b = best_upto(fs1, ord1, used, e, tol, n - 1);
        if b is Some {
            assert(fs1[ord1[b->0]].candidate == fs2[ord2[b->0]].candidate);
        }
    }
}

proof fn lemma_match_transfer(
    fs1: Seq<Finding>,
    ord1: Seq<int>,
    fs2: Seq<Finding>,
    ord2: Seq<int>,
    es: Seq<ExpectedFinding>,
    eord: Seq<int>,
    tol: u32,
    k: int,
)
    requires
        same_candidates(fs1, ord1, fs2, ord2),
    ensures
        match_run(fs1, ord1, es, eord, tol, k) == match_run(fs2, ord2, es, eord, tol, k),
    decreases k,
{
    if k > 0 {
        lemma_match_transfer(fs1, ord1, fs2, ord2, es, eord, tol, k - 1);
        let prev = match_run(fs1, ord1, es, eord, tol, k - 1);
        lemma_best_transfer(fs1, ord1, fs2, ord2, prev.0, es[eord[k - 1]], tol, ord1.len() as int);
    } else {
        assert(Seq::new(ord1.len(), |i: int| false) =~= Seq::new(ord2.len(), |i: int| false));
    }
}

proof fn lemma_matched_rows_transfer(
    fs1: Seq<Finding>,
    ord1: Seq<int>,
    fs2: Seq<Finding>,
    ord2: Seq<int>,
    es: Seq<ExpectedFinding>,
    eord: Seq<int>,
    chosen: Seq<Option<int>>,
    k: int,
)
    requires
        same_candidates(fs1, ord1, fs2, ord2),
        k <= chosen.len(),
        forall|j: int| 0 <= j < k && (#[trigger] chosen[j]) is Some ==> 0 <= chosen[j]->0 < ord1.len(),
    ensures
        matched_rows(fs1, ord1, es, eord, chosen, k) == matched_rows(fs2, ord2, es, eord, chosen, k),
    decreases k,
{
    if k > 0 {
        lemma_matched_rows_transfer(fs1, ord1, fs2, ord2, es, eord, chosen, k - 1);
        if chosen[k - 1] is Some {
            assert(fs1[ord1[chosen[k - 1]->0]].candidate == fs2[ord2[chosen[k - 1]->0]].candidate);
        }
    }
}

proof fn lemma_unmatched_rows_transfer(
    fs1: Seq<Finding>,
    ord1: Seq<int>,
    fs2: Seq<Finding>,
    ord2: Seq<int>,
    used: Seq<bool>,
    n: int,
)
    requires
        same_candidates(fs1, ord1, fs2, ord2),
        n <= ord1.len(),
    ensures
        unmatched_rows(fs1, ord1, used, n) == unmatched_rows(fs2, ord2, used, n),
    decreases n,
{
    if n > 0 {
        lemma_unmatched_rows_transfer(fs1, ord1, fs2, ord2, used, n - 1);
        assert(fs1[ord1[n - 1]].candidate == fs2[ord2[n - 1]].candidate);
    }
}

/// The score of a case follows the predictions it considers: two sets of
/// findings whose reported candidates come out in the same order are
/// matched alike, and give the same matched, missed and unmatched rows.
pub proof fn law_score_follows_considered_predictions(
    fs1: Seq<Finding>,
    fs2: Seq<Finding>,
    es: Seq<ExpectedFinding>,
    tol: u32,
)
    requires
        considered(fs1) == considered(fs2),
    ensures
        case_matching(fs1, es, tol) == case_matching(fs2, es, tol),
        ({
            let eord = expected_order(es);
            let (used, chosen) = case_matching(fs1, es, tol);
            &&& matched_rows(fs1, prediction_order(fs1), es, eord, chosen, eord.len() as int)
                == matched_rows(fs2, prediction_order(fs2), es, eord, chosen, eord.len() as int)
            &&& unmatched_rows(fs1, prediction_order(fs1), used, prediction_order(fs1).len() as int)
                == unmatched_rows(fs2, prediction_order(fs2), used, prediction_order(fs2).len() as int)
        }),
{
    let ord1 = prediction_order(fs1);
    let ord2 = prediction_order(fs2);
    assert(considered(fs1).len() == ord1.len());
    assert(considered(fs2).len() == ord2.len());
    assert forall|k: int| 0 <= k < ord1.len() implies #[trigger] fs1[ord1[k]].candidate == fs2[ord2[k]].candidate by {
        assert(considered(fs1)[k] == fs1[ord1[k]].candidate);
        assert(considered(fs2)[k] == fs2[ord2[k]].candidate);
    }
    let eord = expected_order(es);
    lemma_match_transfer(fs1, ord1, fs2, ord2, es, eord, tol, eord.len() as int);
    lemma_match_run_injective(fs1, ord1, es, eord, tol, eord.len() as int);
    let (used, chosen) = case_matching(fs1, es, tol);
    lemma_matched_rows_transfer(fs1, ord1, fs2, ord2, es, eord, chosen, eord.len() as int);
    lemma_unmatched_rows_transfer(fs1, ord1, fs2, ord2, used, ord1.len() as int);
}

proof fn lemma_reported_upto_props(fs: Seq<Finding>, n: int)
    requires
        0 <= n <= fs.len(),
    ensures
        forall|k: int|
            reported_upto(fs, n).contains(k) <==> (0 <= k < n && fs[k].status == FindingStatus::Verified),
        forall|i: int, j: int|
            0 <= i < j < reported_upto(fs, n).len() ==> #[trigger] reported_upto(fs, n)[i]
                < #[trigger] reported_upto(fs, n)[j],
        forall|i: int| 0 <= i < reported_upto(fs, n).len() ==> 0 <= #[trigger] reported_upto(fs, n)[i] < n,
    decreases n,
{
    if n > 0 {
        lemma_reported_upto_props(fs, n - 1);
        let r = reported_upto(fs, n - 1);
        if fs[n - 1].status == FindingStatus::Verified {
            let q = r.push(n - 1);
            assert forall|k: int| q.contains(k) <==> (0 <= k < n && fs[k].status == FindingStatus::Verified) by {
                if k == n - 1 {
                    assert(q[r.len() as int] == k);
                }
                if q.contains(k) && k != n - 1 {
                    let m = choose|m: int| 0 <= m < q.len() && q[m] == k;
                    assert(r[m] == k);
                    assert(r.contains(k));
                }
                if 0 <= k < n - 1 && fs[k].status == FindingStatus::Verified {
                    assert(r.contains(k));
                    let m = choose|m: int| 0 <= m < r.len() && r[m] == k;
                    assert(q[m] == k);
                }
            }
        }
    }
}

proof fn lemma_prediction_gt_irreflexive(c: CandidateFinding)
    ensures
        !prediction_gt(c, c),
{
    crate::text::lemma_seq_lt_irreflexive(c.location.file@);
    crate::text::lemma_seq_lt_irreflexive(issue_type_name(c.issue_type));
    crate::text::lemma_seq_lt_irreflexive(c.id@);
}

proof fn lemma_prediction_gt_transitive(a: CandidateFinding, b: CandidateFinding, c: CandidateFinding)
    requires
        prediction_gt(a, b),
        prediction_gt(b, c),
    ensures
        prediction_gt(a, c),
{
    let (fa, fb, fc) = (a.location.file@, b.location.file@, c.location.file@);
    let (ta, tb, tc) = (issue_type_name(a.issue_type), issue_type_name(b.issue_type), issue_type_name(c.issue_type));
    crate::text::lemma_seq_lt_total(fa, fb);
    crate::text::lemma_seq_lt_total(fb, fc);
    crate::text::lemma_seq_lt_total(fa, fc);
    crate::text::lemma_seq_lt_total(ta, tb);
    crate::text::lemma_seq_lt_total(tb, tc);
    crate::text::lemma_seq_lt_total(ta, tc);
    crate::text::lemma_seq_lt_irreflexive(fa);
    crate::text::lemma_seq_lt_irreflexive(ta);
    if seq_lt(fc, fb) && seq_lt(fb, fa) {
        crate::text::lemma_seq_lt_transitive(fc, fb, fa);
    }
    if seq_lt(tc, tb) && seq_lt(tb, ta) {
        crate::text::lemma_seq_lt_transitive(tc, tb, ta);
    }
    if seq_lt(c.id@, b.id@) && seq_lt(b.id@, a.id@) {
        crate::text::lemma_seq_lt_transitive(c.id@, b.id@, a.id@);
    }
}

proof fn lemma_prediction_gt_total(a: CandidateFinding, b: CandidateFinding)
    requires
        a.id@ != b.id@,
    ensures
        prediction_gt(a, b) || prediction_gt(b, a),
{
    crate::text::lemma_seq_lt_total(a.location.file@, b.location.file@);
    crate::text::lemma_seq_lt_total(issue_type_name(a.issue_type), issue_type_name(b.issue_type));
    crate::text::lemma_seq_lt_total(a.id@, b.id@);
}

/// No two findings share a candidate id.
pub open spec fn ids_distinct(fs: Seq<Finding>) -> bool {
    forall|i: int, j: int|
        0 <= i < j < fs.len() ==> (#[trigger] fs[i]).candidate.id@ != (#[trigger] fs[j]).candidate.id@
}

/// `c` is the candidate of a reported finding of `fs`.
pub open spec fn reported_candidate(fs: Seq<Finding>, c: CandidateFinding) -> bool {
    exists|k: int| 0 <= k < fs.len() && fs[k].status == FindingStatus::Verified && #[trigger] fs[k].candidate == c
}

proof fn lemma_considered_props(fs: Seq<Finding>)
    requires
        ids_distinct(fs),
    ensures
        forall|i: int, j: int|
            0 <= i < j < considered(fs).len() ==> prediction_gt(
                #[trigger] considered(fs)[j],
                #[trigger] considered(fs)[i],
            ),
        forall|c: CandidateFinding| considered(fs).contains(c) <==> reported_candidate(fs, c),
{
    let n = fs.len() as int;
    let xs = reported_upto(fs, n);
    let gt = prediction_gt_at(fs);
    lemma_reported_upto_props(fs, n);
    assert(xs.no_duplicates()) by {
        assert forall|i: int, j: int| 0 <= i < xs.len() && 0 <= j < xs.len() && i != j implies xs[i] != xs[j] by {
            if i < j {
                assert(xs[i] < xs[j]);
            } else {
                assert(xs[j] < xs[i]);
            }
        }
    }
    assert forall|a: int| xs.contains(a) implies !gt(a, a) by {
        lemma_prediction_gt_irreflexive(fs[a].candidate);
    }
    assert forall|a: int, b: int, c: int|
        #![trigger gt(a, b), gt(b, c)]
        xs.contains(a) && xs.contains(b) && xs.contains(c) && gt(a, b) && gt(b, c) implies gt(a, c) by {
        lemma_prediction_gt_transitive(fs[a].candidate, fs[b].candidate, fs[c].candidate);
    }
    assert forall|a: int, b: int|
        #![trigger xs.contains(a), xs.contains(b)]
        xs.contains(a) && xs.contains(b) && a != b implies gt(a, b) || gt(b, a) by {
        if a < b {
            assert(fs[a].candidate.id@ != fs[b].candidate.id@);
        } else {
            assert(fs[b].candidate.id@ != fs[a].candidate.id@);
        }
        lemma_prediction_gt_total(fs[a].candidate, fs[b].candidate);
    }
    assert(crate::order::strict_total_on(xs, gt));
    crate::order::lemma_stable_sort_sorted(xs, gt);
    let ord = prediction_order(fs);
    let cs = considered(fs);
    assert forall|i: int, j: int| 0 <= i < j < cs.len() implies prediction_gt(
        #[trigger] cs[j],
        #[trigger] cs[i],
    ) by {
        assert(gt(ord[j], ord[i]));
    }
    assert forall|c: CandidateFinding| cs.contains(c) <==> reported_candidate(fs, c) by {
        if cs.contains(c) {
            let m = choose|m: int| 0 <= m < cs.len() && cs[m] == c;
            assert(ord.contains(ord[m]));
            assert(xs.contains(ord[m]));
            assert(fs[ord[m]].candidate == c);
        }
        if reported_candidate(fs, c) {
            let k = choose|k: int| 0 <= k < fs.len() && fs[k].status == FindingStatus::Verified && #[trigger] fs[k].candidate == c;
            assert(xs.contains(k));
            assert(ord.contains(k));
            let m = choose|m: int| 0 <= m < ord.len() && ord[m] == k;
            assert(cs[m] == c);
        }
    }
}

/// Two sequences in strictly increasing prediction order that hold the same
/// candidates are the same sequence.
proof fn lemma_sorted_unique(c1: Seq<CandidateFinding>, c2: Seq<CandidateFinding>)
    requires
        forall|i: int, j: int| 0 <= i < j < c1.len() ==> prediction_gt(#[trigger] c1[j], #[trigger] c1[i]),
        forall|i: int, j: int| 0 <= i < j < c2.len() ==> prediction_gt(#[trigger] c2[j], #[trigger] c2[i]),
        forall|c: CandidateFinding| c1.contains(c) <==> c2.contains(c),
    ensures
        c1 == c2,
    decreases c1.len(),
{
    if c1.len() == 0 {
        if c2.len() > 0 {
            assert(c2.contains(c2[0]));
        }
        assert(c1 =~= c2);
    } else {
        assert(c1.contains(c1[0]));
        assert(c2.len() > 0);
        assert(c2.contains(c2[0]));
        let k = choose|k: int| 0 <= k < c2.len() && c2[k] == c1[0];
        let m = choose|m: int| 0 <= m < c1.len() && c1[m] == c2[0];
        if k > 0 && m > 0 {
            assert(prediction_gt(c2[k], c2[0]));
            assert(prediction_gt(c1[m], c1[0]));
            lemma_prediction_gt_transitive(c1[0], c2[0], c1[0]);
            lemma_prediction_gt_irreflexive(c1[0]);
        }
        assert(c1[0] == c2[0]) by {
            if k == 0 {
            } else {
                assert(m == 0);
            }
        }
        let t1 = c1.drop_first();
        let t2 = c2.drop_first();
        assert forall|c: CandidateFinding| t1.contains(c) <==> t2.contains(c) by {
            if t1.contains(c) {
                let a = choose|a: int| 0 <= a < t1.len() && t1[a] == c;
                assert(c1[a + 1] == c);
                assert(prediction_gt(c1[a + 1], c1[0]));
                lemma_prediction_gt_irreflexive(c);
                assert(c1.contains(c));
                assert(c2.contains(c));
                let b = choose|b: int| 0 <= b < c2.len() && c2[b] == c;
                assert(b != 0);
                assert(t2[b - 1] == c);
            }
            if t2.contains(c) {
                let a = choose|a: int| 0 <= a < t2.len() && t2[a] == c;
                assert(c2[a + 1] == c);
                assert(prediction_gt(c2[a + 1], c2[0]));
                lemma_prediction_gt_irreflexive(c);
                assert(c2.contains(c));
                assert(c1.contains(c));
                let b = choose|b: int| 0 <= b < c1.len() && c1[b] == c;
                assert(b != 0);
                assert(t1[b - 1] == c);
            }
        }
        assert forall|i: int, j: int| 0 <= i < j < t1.len() implies prediction_gt(#[trigger] t1[j], #[trigger] t1[i]) by {
            assert(t1[j] == c1[j + 1] && t1[i] == c1[i + 1]);
        }
        assert forall|i: int, j: int| 0 <= i < j < t2.len() implies prediction_gt(#[trigger] t2[j], #[trigger] t2[i]) by {
            assert(t2[j] == c2[j + 1] && t2[i] == c2[i + 1]);
        }
        lemma_sorted_unique(t1, t2);
        assert(c1 =~= c2) by {
            assert forall|i: int| 0 <= i < c1.len() implies c1[i] == c2[i] by {
                if i > 0 {
                    assert(c1[i] == t1[i - 1]);
                    assert(c2[i] == t2[i - 1]);
                }
            }
        }
    }
}

proof fn lemma_permutation_props(fs1: Seq<Finding>, fs2: Seq<Finding>)
    requires
        fs1.to_multiset() == fs2.to_multiset(),
        ids_distinct(fs1),
    ensures
        fs1.len() == fs2.len(),
        ids_distinct(fs2),
        forall|c: CandidateFinding| reported_candidate(fs1, c) <==> reported_candidate(fs2, c),
{
    broadcast use vstd::seq_lib::group_to_multiset_ensures;

    assert(fs1.len() == fs1.to_multiset().len());
    assert(fs2.len() == fs2.to_multiset().len());
    assert forall|x: Finding| fs1.contains(x) <==> fs2.contains(x) by {
        assert(fs1.contains(x) <==> fs1.to_multiset().count(x) > 0);
        assert(fs2.contains(x) <==> fs2.to_multiset().count(x) > 0);
    }
    assert(fs1.no_duplicates()) by {
        assert forall|i: int, j: int| 0 <= i < fs1.len() && 0 <= j < fs1.len() && i != j implies fs1[i] != fs1[j] by {
            if i < j {
                assert(fs1[i].candidate.id@ != fs1[j].candidate.id@);
            } else {
                assert(fs1[j].candidate.id@ != fs1[i].candidate.id@);
            }
        }
    }
    fs1.lemma_multiset_has_no_duplicates();
    assert forall|x: Finding| fs2.to_multiset().contains(x) implies fs2.to_multiset().count(x) == 1 by {
        assert(fs1.to_multiset().contains(x));
    }
    fs2.lemma_multiset_has_no_duplicates_conv();
    assert forall|i: int, j: int| 0 <= i < j < fs2.len() implies (#[trigger] fs2[i]).candidate.id@
        != (#[trigger] fs2[j]).candidate.id@ by {
        assert(fs2[i] != fs2[j]);
        assert(fs2.contains(fs2[i]));
        assert(fs2.contains(fs2[j]));
        assert(fs1.contains(fs2[i]));
        assert(fs1.contains(fs2[j]));
        let a = choose|a: int| 0 <= a < fs1.len() && fs1[a] == fs2[i];
        let b = choose|b: int| 0 <= b < fs1.len() && fs1[b] == fs2[j];
        assert(a != b);
        if a < b {
            assert(fs1[a].candidate.id@ != fs1[b].candidate.id@);
        } else {
            assert(fs1[b].candidate.id@ != fs1[a].candidate.id@);
        }
    }
    assert forall|c: CandidateFinding| reported_candidate(fs1, c) <==> reported_candidate(fs2, c) by {
        if reported_candidate(fs1, c) {
            let k = choose|k: int| 0 <= k < fs1.len() && fs1[k].status == FindingStatus::Verified && #[trigger] fs1[k].candidate == c;
            assert(fs1.contains(fs1[k]));
            let j = choose|j: int| 0 <= j < fs2.len() && fs2[j] == fs1[k];
            assert(fs2[j].candidate == c);
        }
        if reported_candidate(fs2, c) {
            let k = choose|k: int| 0 <= k < fs2.len() && fs2[k].status == FindingStatus::Verified && #[trigger] fs2[k].candidate == c;
            assert(fs2.contains(fs2[k]));
            let j = choose|j: int| 0 <= j < fs1.len() && fs1[j] == fs2[k];
            assert(fs1[j].candidate == c);
        }
    }
}

/// The score of a case does not depend on the order the findings come in:
/// for any reordering of findings whose candidate ids are distinct, the
/// predictions are considered in the same order, so the matching, the
/// matched, missed and unmatched rows, and the withheld count are the same.
pub proof fn law_score_ignores_the_order_of_findings(
    fs1: Seq<Finding>,
    fs2: Seq<Finding>,
    es: Seq<ExpectedFinding>,
    tol: u32,
)
    requires
        fs1.to_multiset() == fs2.to_multiset(),
        ids_distinct(fs1),
    ensures
        considered(fs1) == considered(fs2),
        withheld_count(fs1) == withheld_count(fs2),
        case_matching(fs1, es, tol) == case_matching(fs2, es, tol),
        ({
            let eord = expected_order(es);
            let (used, chosen) = case_matching(fs1, es, tol);
            &&& matched_rows(fs1, prediction_order(fs1), es, eord, chosen, eord.len() as int)
                == matched_rows(fs2, prediction_order(fs2), es, eord, chosen, eord.len() as int)
            &&& missed_rows(es, eord, chosen, eord.len() as int) == missed_rows(
                es,
                eord,
                case_matching(fs2, es, tol).1,
                eord.len() as int,
            )
            &&& unmatched_rows(fs1, prediction_order(fs1), used, prediction_order(fs1).len() as int)
                == unmatched_rows(fs2, prediction_order(fs2), used, prediction_order(fs2).len() as int)
        }),
{
    lemma_permutation_props(fs1, fs2);
    lemma_considered_props(fs1);
    lemma_considered_props(fs2);
    assert forall|c: CandidateFinding| considered(fs1).contains(c) <==> considered(fs2).contains(c) by {
        assert(considered(fs1).contains(c) <==> reported_candidate(fs1, c));
        assert(considered(fs2).contains(c) <==> reported_candidate(fs2, c));
        assert(reported_candidate(fs1, c) <==> reported_candidate(fs2, c));
    }
    lemma_sorted_unique(considered(fs1), considered(fs2));
    law_score_follows_considered_predictions(fs1, fs2, es, tol);
    lemma_stable_sort_members(reported_upto(fs1, fs1.len() as int), prediction_gt_at(fs1));
    lemma_stable_sort_members(reported_upto(fs2, fs2.len() as int), prediction_gt_at(fs2));
    assert(considered(fs1).len() == prediction_order(fs1).len());
    assert(considered(fs2).len() == prediction_order(fs2).len());
}

/// `i` is a prediction, among the first `n` in order, still free and able to
/// take `e`.
pub open spec fn free_for(fs: Seq<Finding>, ord: Seq<int>, used: Seq<bool>, e: ExpectedFinding, tol: u32, i: int) -> bool {
    !used[i] && qualifies(fs[ord[i]].candidate, e, tol)
}

proof fn lemma_best_is_closest(
    fs: Seq<Finding>,
    ord: Seq<int>,
    used: Seq<bool>,
    e: ExpectedFinding,
    tol: u32,
    n: int,
)
    requires
        0 <= n,
    ensures
        best_upto(fs, ord, used, e, tol, n) matches Some(b) ==> 0 <= b < n && free_for(fs, ord, used, e, tol, b)
            && forall|i: int|
            0 <= i < n && #[trigger] free_for(fs, ord, used, e, tol, i) ==> distance(
                fs[ord[b]].candidate.location,
                e,
            ) <= distance(fs[ord[i]].candidate.location, e),
        best_upto(fs, ord, used, e, tol, n) is None ==> forall|i: int|
            0 <= i < n ==> !#[trigger] free_for(fs, ord, used, e, tol, i),
    decreases n,
{
    if n > 0 {
        lemma_best_is_closest(fs, ord, used, e, tol, n - 1);
    }
}

proof fn lemma_match_run_prefix(
    fs: Seq<Finding>,
    ord: Seq<int>,
    es: Seq<ExpectedFinding>,
    eord: Seq<int>,
    tol: u32,
    k: int,
    big: int,
)
    requires
        0 <= k < big,
    ensures
        match_run(fs, ord, es, eord, tol, big).1[k] == best_upto(
            fs,
            ord,
            match_run(fs, ord, es, eord, tol, k).0,
            es[eord[k]],
            tol,
            ord.len() as int,
        ),
    decreases big,
{
    lemma_match_run_injective(fs, ord, es, eord, tol, big - 1);
    if big - 1 > k {
        lemma_match_run_prefix(fs, ord, es, eord, tol, k, big - 1);
    }
}

/// Each expected finding, in its turn, takes the closest prediction that is
/// still free and qualifies for it: no free qualifying prediction is
/// strictly closer (by midpoint distance) than the one it took, and it goes
/// unmatched only when no free prediction qualifies at all.
pub proof fn law_each_match_takes_the_closest(fs: Seq<Finding>, es: Seq<ExpectedFinding>, tol: u32)
    ensures
        forall|k: int|
            0 <= k < expected_order(es).len() ==> {
                let ord = prediction_order(fs);
                let eord = expected_order(es);
                let e = es[eord[k]];
                let used = match_run(fs, ord, es, eord, tol, k).0;
                match #[trigger] case_matching(fs, es, tol).1[k] {
                    Some(b) => 0 <= b < ord.len() && free_for(fs, ord, used, e, tol, b) && forall|i: int|
                        0 <= i < ord.len() && #[trigger] free_for(fs, ord, used, e, tol, i) ==> distance(
                            fs[ord[b]].candidate.location,
                            e,
                        ) <= distance(fs[ord[i]].candidate.location, e),
                    None => forall|i: int| 0 <= i < ord.len() ==> !#[trigger] free_for(fs, ord, used, e, tol, i),
                }
            },
{
    let ord = prediction_order(fs);
    let eord = expected_order(es);
    assert forall|k: int| 0 <= k < eord.len() implies {
        let e = es[eord[k]];
        let used = match_run(fs, ord, es, eord, tol, k).0;
        match #[trigger] case_matching(fs, es, tol).1[k] {
            Some(b) => 0 <= b < ord.len() && free_for(fs, ord, used, e, tol, b) && forall|i: int|
                0 <= i < ord.len() && #[trigger] free_for(fs, ord, used, e, tol, i) ==> distance(
                    fs[ord[b]].candidate.location,
                    e,
                ) <= distance(fs[ord[i]].candidate.location, e),
            None => forall|i: int| 0 <= i < ord.len() ==> !#[trigger] free_for(fs, ord, used, e, tol, i),
        }
    } by {
        lemma_match_run_prefix(fs, ord, es, eord, tol, k, eord.len() as int);
        let used = match_run(fs, ord, es, eord, tol, k).0;
        lemma_best_is_closest(fs, ord, used, es[eord[k]], tol, ord.len() as int);
    }
}

} // verus!
