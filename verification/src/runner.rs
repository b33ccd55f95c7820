//! Scoring a completed run: the integer side of aggregation.
//!
//! Each case is scored by `eval::evaluate_case`; here the cases' counts are
//! summed, overall and per category, and the checks that must hold before a
//! case is scored at all are made. Rates and means, which are floating point,
//! are computed from these by the program.

use vstd::prelude::*;
use crate::bench::CaseCategory;
use crate::eval::{CaseEvaluation, Counts};
use crate::finding::{Finding, FindingStatus};
use crate::text::{debug_quoted, debug_str};

verus! {

/// A ground-truth file belongs to the case it sits with, or scoring stops
/// with this error.
pub open spec fn truth_mismatch_message(truth_id: Seq<char>, case_id: Seq<char>) -> Seq<char> {
    "ground_truth.json case_id "@ + debug_str(truth_id) + " does not match case.json case_id "@
        + debug_str(case_id)
}

/// Check that a case's ground truth names the case.
pub fn check_truth_matches(truth_case_id: &str, case_id: &str) -> (r: Result<(), String>)
    ensures
        r is Ok <==> truth_case_id@ == case_id@,
        r matches Err(m) ==> m@ == truth_mismatch_message(truth_case_id@, case_id@),
{
    if crate::text::same_text(truth_case_id, case_id) {
        return Ok(());
    }
    let mut m = String::from_str("ground_truth.json case_id ");
    let a = debug_quoted(truth_case_id);
    m.append(a.as_str());
    m.append(" does not match case.json case_id ");
    let b = debug_quoted(case_id);
    m.append(b.as_str());
    Err(m)
}

/// The counts of the first `n` cases in `cats` (all of them when `cats` is
/// `None`), summed, with how many cases that was.
pub open spec fn summed(es: Seq<CaseEvaluation>, cat: Option<CaseCategory>, n: int) -> (nat, nat, nat, nat)
    decreases n,
{
    if n <= 0 {
        (0, 0, 0, 0)
    } else {
        let s = summed(es, cat, n - 1);
        let e = es[n - 1];
        if cat is None || cat == Some(e.category) {
            (
                s.0 + 1,
                s.1 + e.counts.true_positives as nat,
                s.2 + e.counts.false_positives as nat,
                s.3 + e.counts.false_negatives as nat,
            )
        } else {
            s
        }
    }
}

/// The summed counts fit their types.
pub open spec fn sums_fit(es: Seq<CaseEvaluation>, cat: Option<CaseCategory>) -> bool {
    let s = summed(es, cat, es.len() as int);
    s.1 <= u32::MAX && s.2 <= u32::MAX && s.3 <= u32::MAX
}

proof fn lemma_summed_monotone(es: Seq<CaseEvaluation>, cat: Option<CaseCategory>, i: int, n: int)
    requires
        0 <= i <= n <= es.len(),
    ensures
        summed(es, cat, i).0 <= summed(es, cat, n).0,
        summed(es, cat, i).1 <= summed(es, cat, n).1,
        summed(es, cat, i).2 <= summed(es, cat, n).2,
        summed(es, cat, i).3 <= summed(es, cat, n).3,
        summed(es, cat, n).0 <= n,
    decreases n,
{
    if n > 0 {
        if i < n {
            lemma_summed_monotone(es, cat, i, n - 1);
        } else {
            lemma_summed_monotone(es, cat, i - 1, n - 1);
        }
    }
}

/// The number of cases of category `cat` (of every category when `None`)
/// and their counts summed.
pub fn sum_counts(per_case: &Vec<CaseEvaluation>, cat: Option<CaseCategory>) -> (r: (usize, Counts))
    requires
        sums_fit(per_case@, cat),
    ensures
        ({
            let s = summed(per_case@, cat, per_case@.len() as int);
            &&& r.0 == s.0
            &&& r.1.true_positives == s.1
            &&& r.1.false_positives == s.2
            &&& r.1.false_negatives == s.3
        }),
{
    let mut counts = Counts { true_positives: 0, false_positives: 0, false_negatives: 0 };
    let mut n: usize = 0;
    let mut i: usize = 0;
    while i < per_case.len()
        invariant
            i <= per_case@.len(),
            sums_fit(per_case@, cat),
            n == summed(per_case@, cat, i as int).0,
            counts.true_positives == summed(per_case@, cat, i as int).1,
            counts.false_positives == summed(per_case@, cat, i as int).2,
            counts.false_negatives == summed(per_case@, cat, i as int).3,
        decreases per_case@.len() - i,
    {
        proof {
            lemma_summed_monotone(per_case@, cat, i + 1, per_case@.len() as int);
        }
        let e = &per_case[i];
        let counted = match cat {
            None => true,
            Some(c) => c == e.category,
        };
        if counted {
            counts.add(&e.counts);
            n = n + 1;
        }
        i = i + 1;
    }
    (n, counts)
}

/// Per category, in the order real issues, traps, challenging: how many cases
/// and their summed counts. A category with no cases is left out.
pub fn by_category_counts(per_case: &Vec<CaseEvaluation>) -> (r: Vec<(CaseCategory, usize, Counts)>)
    requires
        sums_fit(per_case@, Some(CaseCategory::RealIssue)),
        sums_fit(per_case@, Some(CaseCategory::Trap)),
        sums_fit(per_case@, Some(CaseCategory::Challenging)),
    ensures
        r@.len() <= 3,
        forall|k: int|
            0 <= k < r@.len() ==> {
                let s = summed(per_case@, Some((#[trigger] r@[k]).0), per_case@.len() as int);
                &&& r@[k].1 == s.0 && s.0 > 0
                &&& r@[k].2.true_positives == s.1
                &&& r@[k].2.false_positives == s.2
                &&& r@[k].2.false_negatives == s.3
            },
        forall|k: int, l: int| 0 <= k < l < r@.len() ==> category_rank(r@[k].0) < category_rank(r@[l].0),
        forall|c: CaseCategory|
            summed(per_case@, Some(c), per_case@.len() as int).0 > 0 ==> exists|k: int|
                0 <= k < r@.len() && (#[trigger] r@[k]).0 == c,
{
    let mut r: Vec<(CaseCategory, usize, Counts)> = Vec::new();
    let (n, c) = sum_counts(per_case, Some(CaseCategory::RealIssue));
    if n > 0 {
        r.push((CaseCategory::RealIssue, n, c));
    }
    let (n, c) = sum_counts(per_case, Some(CaseCategory::Trap));
    if n > 0 {
        r.push((CaseCategory::Trap, n, c));
    }
    let (n, c) = sum_counts(per_case, Some(CaseCategory::Challenging));
    if n > 0 {
        r.push((CaseCategory::Challenging, n, c));
    }
    proof {
        assert forall|c: CaseCategory|
            summed(per_case@, Some(c), per_case@.len() as int).0 > 0 implies exists|k: int|
                0 <= k < r@.len() && (#[trigger] r@[k]).0 == c by {
            match c {
                CaseCategory::RealIssue => {
                    assert(r@[0].0 == c);
                },
                CaseCategory::Trap => {
                    if r@[0].0 == c {
                    } else {
                        assert(r@[1].0 == c);
                    }
                },
                CaseCategory::Challenging => {
                    assert(r@[r@.len() - 1].0 == c);
                },
            }
        }
    }
    r
}

/// Order of categories in a breakdown.
pub open spec fn category_rank(c: CaseCategory) -> int {
    match c {
        CaseCategory::RealIssue => 0,
        CaseCategory::Trap => 1,
        CaseCategory::Challenging => 2,
    }
}

/// How many of the first `n` findings were reported, and how many withheld.
pub open spec fn tallied(fs: Seq<Finding>, n: int) -> (nat, nat)
    decreases n,
{
    if n <= 0 {
        (0, 0)
    } else {
        let t = tallied(fs, n - 1);
        if fs[n - 1].status == FindingStatus::Verified {
            (t.0 + 1, t.1)
        } else {
            (t.0, t.1 + 1)
        }
    }
}

proof fn lemma_tallied_sum(fs: Seq<Finding>, n: int)
    requires
        0 <= n,
    ensures
        tallied(fs, n).0 + tallied(fs, n).1 == n,
    decreases n,
{
    if n > 0 {
        lemma_tallied_sum(fs, n - 1);
    }
}

/// Findings a run showed a human, and findings it produced but withheld.
pub fn reported_and_withheld(findings: &Vec<Finding>) -> (r: (u32, u32))
    requires
        findings@.len() <= u32::MAX,
    ensures
        r.0 == tallied(findings@, findings@.len() as int).0,
        r.1 == tallied(findings@, findings@.len() as int).1,
{
    let mut reported: u32 = 0;
    let mut withheld: u32 = 0;
    let mut i: usize = 0;
    while i < findings.len()
        invariant
            i <= findings@.len() <= u32::MAX,
            reported == tallied(findings@, i as int).0,
            withheld == tallied(findings@, i as int).1,
        decreases findings@.len() - i,
    {
        proof {
            lemma_tallied_sum(findings@, i as int);
        }
        if findings[i].status.is_reported() {
            reported = reported + 1;
        } else {
            withheld = withheld + 1;
        }
        i = i + 1;
    }
    (reported, withheld)
}

} // verus!

verus! {

/// The warnings printed above a baseline-versus-advanced table, in order: a
/// dry run is no measurement, different models make the comparison unfair,
/// and different case counts make it uneven.
pub open spec fn comparison_warnings_spec(
    base_mock: bool,
    adv_mock: bool,
    base_model: Seq<char>,
    adv_model: Seq<char>,
    base_cases: nat,
    adv_cases: nat,
) -> Seq<Seq<char>> {
    (if base_mock || adv_mock {
        seq!["*** One or both arms were dry runs. This table is NOT a measurement. ***\n"@]
    } else {
        Seq::empty()
    }) + (if base_model != adv_model {
        seq![
            "*** WARNING: arms used different models ("@ + base_model + " vs "@ + adv_model
                + "). The comparison is not fair. ***\n"@,
        ]
    } else {
        Seq::empty()
    }) + (if base_cases != adv_cases {
        seq![
            "*** WARNING: arms ran different case counts ("@ + crate::text::decimal(base_cases)
                + " vs "@ + crate::text::decimal(adv_cases) + "). ***\n"@,
        ]
    } else {
        Seq::empty()
    })
}

pub fn comparison_warnings(
    base_mock: bool,
    adv_mock: bool,
    base_model: &str,
    adv_model: &str,
    base_cases: usize,
    adv_cases: usize,
) -> (r: Vec<String>)
    ensures
        crate::text::views(r@) == comparison_warnings_spec(
            base_mock,
            adv_mock,
            base_model@,
            adv_model@,
            base_cases as nat,
            adv_cases as nat,
        ),
{
    let mut r: Vec<String> = Vec::new();
    if base_mock || adv_mock {
        r.push(String::from_str("*** One or both arms were dry runs. This table is NOT a measurement. ***\n"));
    }
    let ghost a = crate::text::views(r@);
    if !crate::text::same_text(base_model, adv_model) {
        let mut m = String::from_str("*** WARNING: arms used different models (");
        m.append(base_model);
        m.append(" vs ");
        m.append(adv_model);
        m.append("). The comparison is not fair. ***\n");
        r.push(m);
    }
    let ghost b = crate::text::views(r@);
    if base_cases != adv_cases {
        let mut m = String::from_str("*** WARNING: arms ran different case counts (");
        crate::text::push_decimal(&mut m, base_cases as u64);
        m.append(" vs ");
        crate::text::push_decimal(&mut m, adv_cases as u64);
        m.append("). ***\n");
        r.push(m);
    }
    assert(crate::text::views(r@) =~= comparison_warnings_spec(
        base_mock,
        adv_mock,
        base_model@,
        adv_model@,
        base_cases as nat,
        adv_cases as nat,
    ));
    r
}

} // verus!
