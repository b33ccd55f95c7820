//! The advanced agent's decisions: candidate → falsification question →
//! investigation → fresh-context verification → decision.
//!
//! Three properties are deliberate and load-bearing:
//!
//! 1. The falsification question is fixed before any evidence is gathered.
//! 2. The verifier runs in a genuinely fresh context: it receives the claim
//!    and the collected excerpts and nothing else.
//! 3. This code assigns the final status, not the model. The verifier
//!    returns a judgement; [`decide`] decides what that judgement is worth
//!    given the evidence actually on file.
//!
//! The model calls, the repository reads and the clock belong to the driver
//! that runs the pipeline; every decision it takes between them is here.

use vstd::prelude::*;
use crate::finding::{
    CandidateFinding, Evidence, EvidenceKind, Finding, FindingStatus, Location,
    VerificationOutcome, VerificationResult, issue_type_name, location_text, overlaps_spec,
    push_location,
};
use crate::text::{
    chars_of, contains_text, decimal, is_blank, is_blank_range, joined, line_ranges, lines,
    push_decimal, push_decimal_padded, push_joined, push_range, trim, trim_range, trim_str, views,
    pad_left,
};

verus! {

// ---------------------------------------------------------------------------
// Deduplication
// ---------------------------------------------------------------------------

/// Two candidates describe the same defect: same category, and line ranges
/// in the same file that genuinely intersect.
pub open spec fn same_defect(a: CandidateFinding, b: CandidateFinding) -> bool {
    a.issue_type == b.issue_type && overlaps_spec(a.location, b.location, 0)
}

/// Index of the first kept candidate, from `i` on, that describes the same
/// defect as `c`.
pub open spec fn first_same(kept: Seq<CandidateFinding>, c: CandidateFinding, i: int) -> Option<int>
    decreases kept.len() - i,
{
    if i < 0 || i >= kept.len() {
        None
    } else if same_defect(kept[i], c) {
        Some(i)
    } else {
        first_same(kept, c, i + 1)
    }
}

/// How many lines past its first a candidate's range reaches.
pub open spec fn span(c: CandidateFinding) -> int {
    c.location.end_line - c.location.start_line
}

/// One candidate through deduplication: kept if it is new, otherwise merged
/// with the first kept candidate it duplicates, the narrower range surviving
/// (the earlier one on a tie). Each merge is recorded as (dropped, kept).
pub open spec fn dedup_step(
    st: (Seq<CandidateFinding>, Seq<(Seq<char>, Seq<char>)>),
    c: CandidateFinding,
) -> (Seq<CandidateFinding>, Seq<(Seq<char>, Seq<char>)>) {
    match first_same(st.0, c, 0) {
        None => (st.0.push(c), st.1),
        Some(j) => {
            let e = st.0[j];
            if span(c) < span(e) {
                (st.0.update(j, c), st.1.push((e.id@, c.id@)))
            } else {
                (st.0, st.1.push((c.id@, e.id@)))
            }
        },
    }
}

/// Deduplication of the first `n` candidates.
pub open spec fn dedup_upto(cs: Seq<CandidateFinding>, n: int) -> (
    Seq<CandidateFinding>,
    Seq<(Seq<char>, Seq<char>)>,
)
    decreases n,
{
    if n <= 0 {
        (Seq::empty(), Seq::empty())
    } else {
        dedup_step(dedup_upto(cs, n - 1), cs[n - 1])
    }
}

/// Every candidate's range runs forwards.
pub open spec fn ranges_forward(cs: Seq<CandidateFinding>) -> bool {
    forall|i: int| 0 <= i < cs.len() ==> (#[trigger] cs[i]).location.start_line <= cs[i].location.end_line
}

/// A recorded merge names two input candidates of the same category whose
/// ranges intersect.
pub open spec fn merge_justified(cs: Seq<CandidateFinding>, m: (Seq<char>, Seq<char>)) -> bool {
    exists|i: int, j: int|
        0 <= i < cs.len() && 0 <= j < cs.len() && #[trigger] cs[i].id@ == m.0 && #[trigger] cs[j].id@
            == m.1 && (same_defect(cs[i], cs[j]) || same_defect(cs[j], cs[i]))
}

proof fn lemma_first_same(kept: Seq<CandidateFinding>, c: CandidateFinding, i: int)
    requires
        0 <= i,
    ensures
        first_same(kept, c, i) matches Some(j) ==> i <= j < kept.len() && same_defect(kept[j], c),
    decreases kept.len() - i,
{
    if i < kept.len() && !same_defect(kept[i], c) {
        lemma_first_same(kept, c, i + 1);
    }
}

/// A recorded merge (dropped, kept) names two input candidates of the same
/// category whose ranges intersect, and the kept one's range is no wider
/// than the dropped one's.
pub open spec fn merge_narrows(cs: Seq<CandidateFinding>, m: (Seq<char>, Seq<char>)) -> bool {
    exists|i: int, j: int|
        0 <= i < cs.len() && 0 <= j < cs.len() && #[trigger] cs[i].id@ == m.0 && #[trigger] cs[j].id@
            == m.1 && (same_defect(cs[i], cs[j]) || same_defect(cs[j], cs[i]))
            && cs[j].location.end_line - cs[j].location.start_line
            <= cs[i].location.end_line - cs[i].location.start_line
}

proof fn lemma_dedup_narrows(cs: Seq<CandidateFinding>, n: int)
    requires
        0 <= n <= cs.len(),
    ensures
        forall|k: int| 0 <= k < dedup_upto(cs, n).0.len() ==> cs.contains(#[trigger] dedup_upto(cs, n).0[k]),
        forall|k: int| 0 <= k < dedup_upto(cs, n).1.len() ==> merge_narrows(cs, #[trigger] dedup_upto(cs, n).1[k]),
    decreases n,
{
    if n > 0 {
        lemma_dedup_narrows(cs, n - 1);
        let st = dedup_upto(cs, n - 1);
        let c = cs[n - 1];
        lemma_first_same(st.0, c, 0);
        let nx = dedup_upto(cs, n);
        match first_same(st.0, c, 0) {
            None => {
                assert forall|k: int| 0 <= k < nx.0.len() implies cs.contains(#[trigger] nx.0[k]) by {
                    if k < st.0.len() {
                        assert(nx.0[k] == st.0[k]);
                    } else {
                        assert(nx.0[k] == cs[n - 1]);
                    }
                }
                assert forall|k: int| 0 <= k < nx.1.len() implies merge_narrows(cs, #[trigger] nx.1[k]) by {
                    assert(nx.1[k] == st.1[k]);
                }
            },
            Some(j) => {
                let e = st.0[j];
                assert(cs.contains(e));
                let ie = choose|ie: int| 0 <= ie < cs.len() && cs[ie] == e;
                let ic = n - 1;
                assert forall|k: int| 0 <= k < nx.0.len() implies cs.contains(#[trigger] nx.0[k]) by {
                    if k != j {
                        assert(nx.0[k] == st.0[k]);
                    } else if span(c) < span(e) {
                        assert(nx.0[k] == cs[ic]);
                    }
                }
                assert forall|k: int| 0 <= k < nx.1.len() implies merge_narrows(cs, #[trigger] nx.1[k]) by {
                    if k < st.1.len() {
                        assert(nx.1[k] == st.1[k]);
                    } else if span(c) < span(e) {
                        assert(cs[ie].id@ == nx.1[k].0 && cs[ic].id@ == nx.1[k].1);
                    } else {
                        assert(cs[ic].id@ == nx.1[k].0 && cs[ie].id@ == nx.1[k].1);
                    }
                }
            },
        }
    }
}

/// Deduplication never keeps the wider claim: in every recorded merge
/// (dropped, kept), the kept candidate describes the same defect as the
/// dropped one and its line range is no wider.
pub proof fn law_merges_keep_the_narrower_claim(cs: Seq<CandidateFinding>)
    ensures
        forall|k: int|
            0 <= k < dedup_upto(cs, cs.len() as int).1.len() ==> merge_narrows(
                cs,
                #[trigger] dedup_upto(cs, cs.len() as int).1[k],
            ),
{
    lemma_dedup_narrows(cs, cs.len() as int);
}

/// Kept candidate `k` stands for input `c`: same category, same file, and a
/// line range no wider.
pub open spec fn stands_for(k: CandidateFinding, c: CandidateFinding) -> bool {
    &&& k.issue_type == c.issue_type
    &&& k.location.file@ == c.location.file@
    &&& k.location.end_line - k.location.start_line <= c.location.end_line - c.location.start_line
}

/// Some candidate of `kept` stands for input `c`.
pub open spec fn represented(kept: Seq<CandidateFinding>, c: CandidateFinding) -> bool {
    exists|k: int| 0 <= k < kept.len() && stands_for(#[trigger] kept[k], c)
}

proof fn lemma_dedup_represents(cs: Seq<CandidateFinding>, n: int)
    requires
        0 <= n <= cs.len(),
    ensures
        forall|i: int| 0 <= i < n ==> represented(dedup_upto(cs, n).0, #[trigger] cs[i]),
    decreases n,
{
    if n > 0 {
        lemma_dedup_represents(cs, n - 1);
        let st = dedup_upto(cs, n - 1);
        let c = cs[n - 1];
        lemma_first_same(st.0, c, 0);
        let nx = dedup_upto(cs, n);
        assert forall|i: int| 0 <= i < n implies represented(nx.0, #[trigger] cs[i]) by {
            match first_same(st.0, c, 0) {
                None => {
                    if i == n - 1 {
                        assert(stands_for(nx.0[st.0.len() as int], cs[i]));
                    } else {
                        assert(represented(st.0, cs[i]));
                        let k = choose|k: int| 0 <= k < st.0.len() && stands_for(#[trigger] st.0[k], cs[i]);
                        assert(stands_for(nx.0[k], cs[i]));
                    }
                },
                Some(j) => {
                    let e = st.0[j];
                    if i == n - 1 {
                        assert(stands_for(nx.0[j], cs[i]));
                    } else {
                        assert(represented(st.0, cs[i]));
                        let k = choose|k: int| 0 <= k < st.0.len() && stands_for(#[trigger] st.0[k], cs[i]);
                        if k == j && span(c) < span(e) {
                            assert(stands_for(nx.0[j], cs[i]));
                        } else {
                            assert(stands_for(nx.0[k], cs[i]));
                        }
                    }
                },
            }
        }
    }
}

/// Nothing an input claimed is lost in deduplication, and nothing kept is
/// wider than what it replaced: every input candidate is represented by a
/// kept candidate of the same category, in the same file, whose line range
/// is no wider than its own.
pub proof fn law_every_input_has_a_no_wider_survivor(cs: Seq<CandidateFinding>)
    ensures
        forall|i: int|
            0 <= i < cs.len() ==> represented(dedup_upto(cs, cs.len() as int).0, #[trigger] cs[i]),
{
    lemma_dedup_represents(cs, cs.len() as int);
}

fn first_same_exec(kept: &Vec<CandidateFinding>, c: &CandidateFinding) -> (r: Option<usize>)
    ensures
        match first_same(kept@, *c, 0) {
            Some(j) => r == Some(j as usize),
            None => r is None,
        },
        r matches Some(j) ==> j < kept.len(),
{
    let mut i: usize = 0;
    while i < kept.len()
        invariant
            i <= kept.len(),
            first_same(kept@, *c, 0) == first_same(kept@, *c, i as int),
        decreases kept.len() - i,
    {
        if kept[i].issue_type == c.issue_type && kept[i].location.overlaps(&c.location, 0) {
            return Some(i);
        }
        i = i + 1;
    }
    None
}

/// Collapse candidates that describe the same defect.
///
/// The rule is deliberately conservative: same file, same `issue_type`, and
/// line ranges that genuinely overlap. Two distinct defects that sit near each
/// other are left alone, and so are defects under different categories.
/// Under-merging costs a false positive; over-merging hides a real defect,
/// which is worse. The survivor is the most specific claim, the narrowest
/// line range. Returns the kept candidates and each merge as
/// (dropped id, kept id).
pub fn deduplicate_candidates(candidates: Vec<CandidateFinding>) -> (r: (
    Vec<CandidateFinding>,
    Vec<(String, String)>,
))
    requires
        ranges_forward(candidates@),
    ensures
        r.0@ == dedup_upto(candidates@, candidates@.len() as int).0,
        r.1@.map_values(|p: (String, String)| (p.0@, p.1@)) == dedup_upto(
            candidates@,
            candidates@.len() as int,
        ).1,
        r.0@.len() + r.1@.len() == candidates@.len(),
        forall|k: int| 0 <= k < r.0@.len() ==> candidates@.contains(#[trigger] r.0@[k]),
        forall|k: int|
            0 <= k < r.1@.len() ==> merge_justified(
                candidates@,
                (#[trigger] r.1@[k].0@, r.1@[k].1@),
            ),
        forall|k: int|
            0 <= k < r.1@.len() ==> merge_narrows(candidates@, (#[trigger] r.1@[k].0@, r.1@[k].1@)),
        forall|i: int| 0 <= i < candidates@.len() ==> represented(r.0@, #[trigger] candidates@[i]),
{
    let ghost cs = candidates@;
    let mut kept: Vec<CandidateFinding> = Vec::new();
    let mut merged: Vec<(String, String)> = Vec::new();
    let mut n: usize = 0;
    while n < candidates.len()
        invariant
            n <= candidates.len(),
            cs == candidates@,
            ranges_forward(cs),
            kept@ == dedup_upto(cs, n as int).0,
            merged@.map_values(|p: (String, String)| (p.0@, p.1@)) == dedup_upto(cs, n as int).1,
            kept@.len() + merged@.len() == n,
            forall|k: int| 0 <= k < kept@.len() ==> cs.contains(#[trigger] kept@[k]),
            forall|k: int|
                0 <= k < merged@.len() ==> merge_justified(cs, (#[trigger] merged@[k].0@, merged@[k].1@)),
        decreases candidates.len() - n,
    {
        let c = candidates[n].clone();
        assert(cs[n as int] == c);
        let ghost before_kept = kept@;
        let ghost before_merged = merged@;
        proof {
            lemma_first_same(kept@, c, 0);
        }
        match first_same_exec(&kept, &c) {
            None => {
                kept.push(c);
                assert forall|k: int| 0 <= k < kept@.len() implies cs.contains(#[trigger] kept@[k]) by {
                    if k == kept@.len() - 1 {
                        assert(cs[n as int] == kept@[k]);
                    } else {
                        assert(kept@[k] == before_kept[k]);
                    }
                }
            },
            Some(j) => {
                let e = kept[j].clone();
                assert(cs.contains(e));
                let ghost ie = choose|ie: int| 0 <= ie < cs.len() && cs[ie] == e;
                assert(same_defect(e, c));
                proof {
                    assert(e.location.start_line <= e.location.end_line);
                }
                let existing_span = e.location.end_line - e.location.start_line;
                let candidate_span = c.location.end_line - c.location.start_line;
                if candidate_span < existing_span {
                    let pair = (e.id.clone(), c.id.clone());
                    merged.push(pair);
                    kept.set(j, c);
                    assert(merge_justified(cs, (e.id@, cs[n as int].id@))) by {
                        assert(cs[ie].id@ == e.id@);
                    }
                    assert forall|k: int| 0 <= k < kept@.len() implies cs.contains(#[trigger] kept@[k]) by {
                        if k == j {
                            assert(cs[n as int] == kept@[k]);
                        } else {
                            assert(kept@[k] == before_kept[k]);
                        }
                    }
                } else {
                    let pair = (c.id.clone(), e.id.clone());
                    merged.push(pair);
                    assert(merge_justified(cs, (cs[n as int].id@, e.id@))) by {
                        assert(cs[ie].id@ == e.id@);
                    }
                }
                assert forall|k: int| 0 <= k < merged@.len() implies merge_justified(
                    cs,
                    (#[trigger] merged@[k].0@, merged@[k].1@),
                ) by {
                    if k < before_merged.len() {
                        assert(merged@[k] == before_merged[k]);
                    }
                }
                assert(merged@.map_values(|p: (String, String)| (p.0@, p.1@)) =~= before_merged.map_values(
                    |p: (String, String)| (p.0@, p.1@),
                ).push((merged@.last().0@, merged@.last().1@)));
            },
        }
        n = n + 1;
    }
    proof {
        law_every_input_has_a_no_wider_survivor(cs);
        law_merges_keep_the_narrower_claim(cs);
        assert forall|k: int| 0 <= k < merged@.len() implies merge_narrows(
            cs,
            (#[trigger] merged@[k].0@, merged@[k].1@),
        ) by {
            assert(merged@.map_values(|p: (String, String)| (p.0@, p.1@))[k] == (merged@[k].0@, merged@[k].1@));
        }
    }
    (kept, merged)
}

// ---------------------------------------------------------------------------
// The evidence gate
// ---------------------------------------------------------------------------

/// Evidence the investigation actually went and found: a search hit or a
/// file region, anchored to a file, with a non-blank excerpt. A directory
/// listing is not evidence about a claim, and the seeded claimed region is
/// the agent's starting material rather than a discovery.
pub open spec fn is_concrete(e: Evidence) -> bool {
    e.file is Some && !is_blank(e.excerpt@) && (e.kind == EvidenceKind::Search || e.kind
        == EvidenceKind::FileRegion)
}

/// How many of the first `n` items are concrete.
pub open spec fn concrete_upto(es: Seq<Evidence>, n: int) -> nat
    decreases n,
{
    if n <= 0 {
        0
    } else {
        concrete_upto(es, n - 1) + if is_concrete(es[n - 1]) {
            1nat
        } else {
            0nat
        }
    }
}

/// Number of concrete evidence items.
pub open spec fn concrete_count(es: Seq<Evidence>) -> nat {
    concrete_upto(es, es.len() as int)
}

proof fn lemma_concrete_upto_le(es: Seq<Evidence>, n: int)
    requires
        0 <= n,
    ensures
        concrete_upto(es, n) <= n,
    decreases n,
{
    if n > 0 {
        lemma_concrete_upto_le(es, n - 1);
    }
}

/// Evidence the investigation actually went and found.
pub fn concrete_evidence_count(evidence: &[Evidence]) -> (n: usize)
    ensures
        n == concrete_count(evidence@),
{
    let mut n: usize = 0;
    let mut i: usize = 0;
    while i < evidence.len()
        invariant
            i <= evidence@.len(),
            n == concrete_upto(evidence@, i as int),
            n <= i,
        decreases evidence@.len() - i,
    {
        let e = &evidence[i];
        let mut concrete = false;
        if e.kind == EvidenceKind::Search || e.kind == EvidenceKind::FileRegion {
            if let Some(_) = &e.file {
                let v = chars_of(e.excerpt.as_str());
                assert(v@.subrange(0, v@.len() as int) =~= e.excerpt@);
                concrete = !is_blank_range(&v, 0, v.len());
            }
        }
        if concrete {
            n = n + 1;
        }
        i = i + 1;
    }
    n
}

/// The status the evidence gate assigns.
pub open spec fn decided_status(
    location_is_file: bool,
    verification: Option<VerificationResult>,
    concrete: nat,
) -> FindingStatus {
    if !location_is_file {
        FindingStatus::Rejected
    } else {
        match verification {
            None => FindingStatus::Uncertain,
            Some(v) => match v.outcome {
                VerificationOutcome::Contradicts => FindingStatus::Rejected,
                VerificationOutcome::Insufficient => FindingStatus::Uncertain,
                VerificationOutcome::Supports => if concrete == 0 {
                    FindingStatus::Uncertain
                } else {
                    FindingStatus::Verified
                },
            },
        }
    }
}

/// The reason the evidence gate gives.
pub open spec fn decided_reason(
    file: Seq<char>,
    location_is_file: bool,
    verification: Option<VerificationResult>,
    concrete: nat,
) -> Seq<char> {
    if !location_is_file {
        "location "@ + file + " does not exist in the repository"@
    } else {
        match verification {
            None => "no verification verdict was obtained"@,
            Some(v) => match v.outcome {
                VerificationOutcome::Contradicts => "fresh-context verification found the evidence contradicts the claim ("@
                    + decimal(concrete) + " repository evidence item(s))"@,
                VerificationOutcome::Insufficient => "fresh-context verification found the evidence insufficient to settle the claim ("@
                    + decimal(concrete) + " repository evidence item(s))"@,
                VerificationOutcome::Supports => if concrete == 0 {
                    "verification reported support, but no concrete repository evidence was gathered; an unsupported assertion is not a verification"@
                } else {
                    "fresh-context verification found the evidence supports the claim, backed by "@
                        + decimal(concrete) + " repository evidence item(s)"@
                },
            },
        }
    }
}

/// Assign the final status.
///
/// This is the evidence-enforcement step. The verifier's judgement is an
/// input, never the last word: `Supports` without concrete repository
/// evidence downgrades to `Uncertain`. `location_is_file` says whether the
/// candidate's location names a file inside the repository; a finding whose
/// file does not exist cannot be acted on and is rejected.
pub fn decide(
    candidate: &CandidateFinding,
    evidence: &[Evidence],
    verification: Option<&VerificationResult>,
    location_is_file: bool,
) -> (r: (FindingStatus, String))
    ensures
        ({
            let v = match verification {
                Some(v) => Some(*v),
                None => None,
            };
            let concrete = concrete_count(evidence@);
            &&& r.0 == decided_status(location_is_file, v, concrete)
            &&& r.1@ == decided_reason(candidate.location.file@, location_is_file, v, concrete)
        }),
{
    if !location_is_file {
        let mut s = String::from_str("location ");
        s.append(candidate.location.file.as_str());
        s.append(" does not exist in the repository");
        return (FindingStatus::Rejected, s);
    }
    let v = match verification {
        None => {
            return (FindingStatus::Uncertain, String::from_str("no verification verdict was obtained"));
        },
        Some(v) => v,
    };
    let concrete = concrete_evidence_count(evidence);
    match v.outcome {
        VerificationOutcome::Contradicts => {
            let mut s = String::from_str(
                "fresh-context verification found the evidence contradicts the claim (",
            );
            push_decimal(&mut s, concrete as u64);
            s.append(" repository evidence item(s))");
            (FindingStatus::Rejected, s)
        },
        VerificationOutcome::Insufficient => {
            let mut s = String::from_str(
                "fresh-context verification found the evidence insufficient to settle the claim (",
            );
            push_decimal(&mut s, concrete as u64);
            s.append(" repository evidence item(s))");
            (FindingStatus::Uncertain, s)
        },
        VerificationOutcome::Supports => {
            if concrete == 0 {
                (
                    FindingStatus::Uncertain,
                    String::from_str(
                        "verification reported support, but no concrete repository evidence was gathered; an unsupported assertion is not a verification",
                    ),
                )
            } else {
                let mut s = String::from_str(
                    "fresh-context verification found the evidence supports the claim, backed by ",
                );
                push_decimal(&mut s, concrete as u64);
                s.append(" repository evidence item(s)");
                (FindingStatus::Verified, s)
            }
        },
    }
}

/// No finding is `Verified` unless the verifier said `Supports`, the
/// location exists, and at least one concrete evidence item is on file.
pub proof fn law_verified_needs_evidence(
    location_is_file: bool,
    verification: Option<VerificationResult>,
    evidence: Seq<Evidence>,
)
    ensures
        decided_status(location_is_file, verification, concrete_count(evidence))
            == FindingStatus::Verified ==> location_is_file && verification is Some
            && verification->0.outcome == VerificationOutcome::Supports && concrete_count(evidence)
            > 0,
{
}

/// A contradiction is a rejection, however much evidence was gathered: when
/// the location names a file and the verifier found the evidence
/// contradicts the claim, the finding is rejected, for any evidence package,
/// concrete or not.
pub proof fn law_contradiction_rejects_whatever_the_evidence(verification: VerificationResult, evidence: Seq<Evidence>)
    requires
        verification.outcome == VerificationOutcome::Contradicts,
    ensures
        decided_status(true, Some(verification), concrete_count(evidence)) == FindingStatus::Rejected,
        forall|other: Seq<Evidence>|
            decided_status(true, Some(verification), #[trigger] concrete_count(other)) == decided_status(
                true,
                Some(verification),
                concrete_count(evidence),
            ),
{
}

/// Usual fallback question when the model gives none: what would show the
/// claim false.
pub fn default_question(candidate: &CandidateFinding) -> (q: String)
    ensures
        q@ == "What evidence in this repository would show that the following claim is false: "@
            + candidate.claim@,
{
    let mut q = String::from_str(
        "What evidence in this repository would show that the following claim is false: ",
    );
    q.append(candidate.claim.as_str());
    q
}

// ---------------------------------------------------------------------------
// What the fresh verifier is shown
// ---------------------------------------------------------------------------

/// How `{:?}` writes an evidence kind.
pub open spec fn kind_name(k: EvidenceKind) -> Seq<char> {
    match k {
        EvidenceKind::Search => "Search"@,
        EvidenceKind::FileRegion => "FileRegion"@,
        EvidenceKind::DiffHunk => "DiffHunk"@,
        EvidenceKind::FileList => "FileList"@,
    }
}

fn kind_str(k: EvidenceKind) -> (s: &'static str)
    ensures
        s@ == kind_name(k),
{
    match k {
        EvidenceKind::Search => "Search",
        EvidenceKind::FileRegion => "FileRegion",
        EvidenceKind::DiffHunk => "DiffHunk",
        EvidenceKind::FileList => "FileList",
    }
}

/// Where an evidence item points: `file:line`, `file:start-end`, the bare
/// file, or the repository as a whole.
pub open spec fn evidence_place(e: Evidence) -> Seq<char> {
    match e.file {
        Some(f) => match (e.start_line, e.end_line) {
            (Some(s), Some(en)) => location_text(f@, s, en),
            _ => f@,
        },
        None => "(repository)"@,
    }
}

/// The block for the `i`-th (0-based) evidence item.
pub open spec fn evidence_block(i: nat, e: Evidence) -> Seq<char> {
    "[E"@ + decimal(i + 1) + "] "@ + kind_name(e.kind) + " from "@ + evidence_place(e) + "\n"@
        + e.excerpt@ + "\n\n"@
}

/// The blocks of the first `n` items.
pub open spec fn evidence_blocks(es: Seq<Evidence>, n: int) -> Seq<char>
    decreases n,
{
    if n <= 0 {
        Seq::empty()
    } else {
        evidence_blocks(es, n - 1) + evidence_block((n - 1) as nat, es[n - 1])
    }
}

/// What the verifier is shown of the evidence.
pub open spec fn rendered_evidence(es: Seq<Evidence>) -> Seq<char> {
    if es.len() == 0 {
        "(no evidence was gathered)"@
    } else {
        evidence_blocks(es, es.len() as int)
    }
}

/// Render evidence for the verifier: each repository-grounded item,
/// labelled with its origin so the verifier can cite it. The agent's
/// reasoning is deliberately absent.
pub fn render_evidence(evidence: &[Evidence]) -> (s: String)
    requires
        evidence@.len() < u64::MAX,
    ensures
        s@ == rendered_evidence(evidence@),
{
    if evidence.len() == 0 {
        return String::from_str("(no evidence was gathered)");
    }
    let mut out = String::new();
    let mut i: usize = 0;
    while i < evidence.len()
        invariant
            i <= evidence@.len() < u64::MAX,
            out@ == evidence_blocks(evidence@, i as int),
        decreases evidence@.len() - i,
    {
        let e = &evidence[i];
        let ghost before = out@;
        out.append("[E");
        push_decimal(&mut out, (i + 1) as u64);
        out.append("] ");
        out.append(kind_str(e.kind));
        out.append(" from ");
        match &e.file {
            Some(f) => match (e.start_line, e.end_line) {
                (Some(st), Some(en)) => push_location(&mut out, f.as_str(), st, en),
                _ => out.append(f.as_str()),
            },
            None => out.append("(repository)"),
        }
        out.append("\n");
        out.append(e.excerpt.as_str());
        out.append("\n\n");
        assert(out@ =~= before + evidence_block(i as nat, evidence@[i as int]));
        i = i + 1;
    }
    out
}

// ---------------------------------------------------------------------------
// Questions already settled, for a second look
// ---------------------------------------------------------------------------

/// Why a finding was ruled out: the verifier's rationale where it gave one,
/// the decision's own reason otherwise.
pub open spec fn ruled_out_because(f: Finding) -> Seq<char> {
    match f.verification {
        Some(v) => if trim(v.rationale@).len() > 0 {
            trim(v.rationale@)
        } else {
            trim(f.status_reason@)
        },
        None => trim(f.status_reason@),
    }
}

/// The entry for one settled question.
pub open spec fn settled_entry(f: Finding) -> Seq<char> {
    "- **"@ + issue_type_name(f.candidate.issue_type) + "** at `"@ + location_text(
        f.candidate.location.file@,
        f.candidate.location.start_line,
        f.candidate.location.end_line,
    ) + "`\n  Claim: "@ + trim(f.candidate.claim@) + "\n  Ruled out because: "@
        + ruled_out_because(f)
}

/// The entries for the findings among the first `n` that were not reported.
pub open spec fn settled_entries(fs: Seq<Finding>, n: int) -> Seq<Seq<char>>
    decreases n,
{
    if n <= 0 {
        Seq::empty()
    } else if fs[n - 1].status == FindingStatus::Verified {
        settled_entries(fs, n - 1)
    } else {
        settled_entries(fs, n - 1).push(settled_entry(fs[n - 1]))
    }
}

fn settled_entry_exec(f: &Finding) -> (s: String)
    ensures
        s@ == settled_entry(*f),
{
    let mut s = String::from_str("- **");
    s.append(f.candidate.issue_type.as_str());
    s.append("** at `");
    push_location(
        &mut s,
        f.candidate.location.file.as_str(),
        f.candidate.location.start_line,
        f.candidate.location.end_line,
    );
    s.append("`\n  Claim: ");
    let claim = trim_str(f.candidate.claim.as_str());
    s.append(claim.as_str());
    s.append("\n  Ruled out because: ");
    let reason = match &f.verification {
        Some(v) => {
            let r = trim_str(v.rationale.as_str());
            if r.as_str().is_empty() {
                trim_str(f.status_reason.as_str())
            } else {
                r
            }
        },
        None => trim_str(f.status_reason.as_str()),
    };
    s.append(reason.as_str());
    s
}

/// Render the questions a case has already settled, for the second look:
/// each closed claim paired with the reason it closed, separated by blank
/// lines. Reported findings are not settled questions.
pub fn settled_questions(findings: &[Finding]) -> (s: String)
    ensures
        s@ == joined(settled_entries(findings@, findings@.len() as int), "\n\n"@),
{
    let mut out = String::new();
    let mut first = true;
    let mut i: usize = 0;
    while i < findings.len()
        invariant
            i <= findings@.len(),
            out@ == joined(settled_entries(findings@, i as int), "\n\n"@),
            first == (settled_entries(findings@, i as int).len() == 0),
        decreases findings@.len() - i,
    {
        let f = &findings[i];
        if !f.status.is_reported() {
            let entry = settled_entry_exec(f);
            push_joined(
                &mut out,
                Ghost(settled_entries(findings@, i as int)),
                first,
                "\n\n",
                entry.as_str(),
            );
            first = false;
        }
        i = i + 1;
    }
    out
}

// ---------------------------------------------------------------------------
// Within-case memory
// ---------------------------------------------------------------------------

/// The first line of a tool's response, trimmed; empty when there is none.
pub open spec fn first_line(text: Seq<char>) -> Seq<char> {
    if lines(text).len() == 0 {
        Seq::empty()
    } else {
        trim(lines(text)[0])
    }
}

/// The memory line for one lookup: `tool arguments -> first line`.
pub open spec fn memory_entry(tool: Seq<char>, arguments: Seq<char>, response: Seq<char>) -> Seq<char> {
    tool + " "@ + arguments + " -> "@ + first_line(response)
}

/// Repository facts gathered earlier in the same case.
///
/// Holds the lookups made and their first lines of output, never a
/// judgement about a claim: passing judgements forward would reintroduce the
/// anchor the fresh-context verifier exists to remove.
#[derive(Debug)]
pub struct CaseMemory {
    entries: Vec<String>,
}

impl CaseMemory {
    /// The lookups remembered, in order, without repeats.
    pub closed spec fn remembered(&self) -> Seq<Seq<char>> {
        views(self.entries@)
    }

    pub fn new() -> (m: CaseMemory)
        ensures
            m.remembered() == Seq::<Seq<char>>::empty(),
    {
        let m = CaseMemory { entries: Vec::new() };
        assert(m.remembered() =~= Seq::<Seq<char>>::empty());
        m
    }

    /// Remember a successful lookup. `arguments` is the call's arguments as
    /// compact JSON. Refusals are not facts and are not remembered.
    pub fn record(&mut self, tool: &str, arguments: &str, response: &str, ok: bool)
        ensures
            ({
                let e = memory_entry(tool@, arguments@, response@);
                final(self).remembered() == if ok && !old(self).remembered().contains(e) {
                    old(self).remembered().push(e)
                } else {
                    old(self).remembered()
                }
            }),
    {
        if !ok {
            return;
        }
        let v = chars_of(response);
        assert(v@.subrange(0, v@.len() as int) =~= response@);
        let ls = line_ranges(&v, 0, v.len());
        let mut entry = String::from_str(tool);
        entry.append(" ");
        entry.append(arguments);
        entry.append(" -> ");
        if ls.len() > 0 {
            let (a, b) = ls[0];
            let (ta, tb) = trim_range(&v, a, b);
            push_range(&mut entry, &v, ta, tb);
        }
        assert(entry@ =~= memory_entry(tool@, arguments@, response@));
        if !contains_text(&self.entries, entry.as_str()) {
            let ghost before = self.remembered();
            self.entries.push(entry);
            assert(self.remembered() =~= before.push(memory_entry(tool@, arguments@, response@)));
        }
    }

    /// The remembered lookups, one per line; `None` until something was
    /// looked up.
    pub fn render(&self) -> (r: Option<String>)
        ensures
            self.remembered().len() == 0 ==> r is None,
            self.remembered().len() > 0 ==> r is Some && r->0@ == joined(self.remembered(), "\n"@),
    {
        if self.entries.len() == 0 {
            return None;
        }
        let mut out = String::new();
        let mut i: usize = 0;
        while i < self.entries.len()
            invariant
                i <= self.entries.len(),
                out@ == joined(self.remembered().take(i as int), "\n"@),
            decreases self.entries.len() - i,
        {
            let ghost done = self.remembered().take(i as int);
            assert(self.remembered().take(i + 1) =~= done.push(self.entries@[i as int]@));
            push_joined(&mut out, Ghost(done), i == 0, "\n", self.entries[i].as_str());
            i = i + 1;
        }
        assert(self.remembered().take(i as int) =~= self.remembered());
        Some(out)
    }
}

// ---------------------------------------------------------------------------
// The claimed region
// ---------------------------------------------------------------------------

/// Lines of surrounding context included with the claimed region.
pub const CLAIM_CONTEXT_LINES: u32 = 15;

/// The first line of the claimed region: the claim's start less the context,
/// but not before line 1.
pub open spec fn region_start(start_line: u32) -> u32 {
    if start_line > CLAIM_CONTEXT_LINES + 1 {
        (start_line - CLAIM_CONTEXT_LINES) as u32
    } else {
        1
    }
}

/// The last line of the claimed region: the claim's end plus the context,
/// but not past the end of the file.
pub open spec fn region_end(end_line: u32, total: nat) -> u32 {
    let reach: int = if end_line + CLAIM_CONTEXT_LINES <= u32::MAX {
        end_line + CLAIM_CONTEXT_LINES
    } else {
        u32::MAX as int
    };
    if reach < total {
        reach as u32
    } else {
        total as u32
    }
}

/// The excerpt lines `start..=end` of `ls`, numbered, as `{n:>5} | {line}`,
/// joined with newlines.
pub open spec fn numbered_region(ls: Seq<Seq<char>>, start: int, end: int) -> Seq<Seq<char>> {
    Seq::new(
        if end >= start {
            (end - start + 1) as nat
        } else {
            0nat
        },
        |k: int| pad_left(decimal((start + k) as nat), 5) + " | "@ + ls[start + k - 1],
    )
}

/// One numbered line, `{n:>5} | {line}`.
pub open spec fn numbered_line(n: nat, line: Seq<char>) -> Seq<char> {
    pad_left(decimal(n), 5) + " | "@ + line
}

/// Appends the numbered lines `first..first + count` of `v` (whose lines are
/// `ls`) to `out`, joined with newlines after what `out` already holds.
pub(crate) fn push_numbered_lines(
    out: &mut String,
    v: &Vec<char>,
    ls: &Vec<(usize, usize)>,
    first: u64,
    count: u64,
)
    requires
        old(out)@.len() == 0,
        1 <= first,
        count == 0 || first + count <= ls.len() + 1,
        ls.len() <= u32::MAX,
        forall|j: int|
            0 <= j < ls.len() ==> 0 <= (#[trigger] ls[j]).0 <= ls[j].1 <= v.len(),
    ensures
        final(out)@ == joined(
            numbered_region(
                Seq::new(ls@.len(), |j: int| v@.subrange(ls@[j].0 as int, ls@[j].1 as int)),
                first as int,
                first + count - 1,
            ),
            "\n"@,
        ),
{
    let ghost lsv = Seq::new(ls@.len(), |j: int| v@.subrange(ls@[j].0 as int, ls@[j].1 as int));
    let mut k: u64 = 0;
    while k < count
        invariant
            k <= count,
            1 <= first,
            count == 0 || first + count <= ls.len() + 1,
            lsv == Seq::new(ls@.len(), |j: int| v@.subrange(ls@[j].0 as int, ls@[j].1 as int)),
            forall|j: int|
                0 <= j < ls.len() ==> 0 <= (#[trigger] ls[j]).0 <= ls[j].1 <= v.len(),
            out@ == joined(numbered_region(lsv, first as int, first + k - 1), "\n"@),
        decreases count - k,
    {
        let n = first + k;
        let (a, b) = ls[(n - 1) as usize];
        let mut line = String::new();
        push_decimal_padded(&mut line, n, 5);
        line.append(" | ");
        push_range(&mut line, v, a, b);
        let ghost done = numbered_region(lsv, first as int, first + k - 1);
        assert(numbered_region(lsv, first as int, first + k) =~= done.push(
            numbered_line(n as nat, lsv[n - 1]),
        ));
        assert(line@ =~= numbered_line(n as nat, lsv[n - 1]));
        push_joined(out, Ghost(done), k == 0, "\n", line.as_str());
        k = k + 1;
    }
}

/// The region a candidate points at, with `CLAIM_CONTEXT_LINES` of context on
/// each side, so the verifier can always see the code being claimed about.
///
/// `content` is the file the candidate names, as the repository read gave
/// it, or `None` when it could not be read. It is tagged `DiffHunk` because
/// it is the change under examination rather than something the
/// investigation went and found, so it never counts as concrete evidence.
pub fn seed_claimed_region(content: Option<&str>, candidate: &CandidateFinding) -> (r: Option<Evidence>)
    requires
        content matches Some(c) ==> lines(c@).len() <= u32::MAX,
    ensures
        match content {
            None => r is None,
            Some(c) => {
                let ls = lines(c@);
                let start = region_start(candidate.location.start_line);
                let end = region_end(candidate.location.end_line, ls.len());
                if ls.len() == 0 {
                    r is None
                } else {
                    &&& r is Some
                    &&& r->0.kind == EvidenceKind::DiffHunk
                    &&& r->0.file == Some(candidate.location.file)
                    &&& r->0.start_line == Some(start)
                    &&& r->0.end_line == Some(end)
                    &&& r->0.symbol is None
                    &&& r->0.excerpt@ == joined(numbered_region(ls, start as int, end as int), "\n"@)
                    &&& r->0.tool_call_id@ == candidate.id@ + "-claimed-region"@
                }
            },
        },
{
    let c = match content {
        None => {
            return None;
        },
        Some(c) => c,
    };
    let v = chars_of(c);
    assert(v@.subrange(0, v@.len() as int) =~= c@);
    let ls = line_ranges(&v, 0, v.len());
    let ghost lsv = lines(c@);
    assert(lsv =~= Seq::new(ls@.len(), |j: int| v@.subrange(ls@[j].0 as int, ls@[j].1 as int)));
    let total = ls.len() as u32;
    if total == 0 {
        return None;
    }
    let loc = &candidate.location;
    let start: u32 = if loc.start_line > CLAIM_CONTEXT_LINES + 1 {
        loc.start_line - CLAIM_CONTEXT_LINES
    } else {
        1
    };
    let reach = loc.end_line.saturating_add(CLAIM_CONTEXT_LINES);
    let end: u32 = if reach < total {
        reach
    } else {
        total
    };
    let count: u64 = if end >= start {
        (end - start + 1) as u64
    } else {
        0
    };
    let mut excerpt = String::new();
    push_numbered_lines(&mut excerpt, &v, &ls, start as u64, count);
    assert(numbered_region(lsv, start as int, start + count - 1) =~= numbered_region(
        lsv,
        start as int,
        end as int,
    ));
    let mut id = candidate.id.clone();
    id.append("-claimed-region");
    Some(
        Evidence {
            kind: EvidenceKind::DiffHunk,
            file: Some(loc.file.clone()),
            start_line: Some(start),
            end_line: Some(end),
            symbol: None,
            excerpt,
            tool_call_id: id,
        },
    )
}

} // verus!
