//! Blind triage: the parts of a stopwatch session that decide things.
//!
//! Findings from every arm are pooled, shuffled with a recorded seed, and
//! presented one at a time with no indication of which system produced them.
//! Only the claim and its location are shown. The clock, the terminal and the
//! per-arm timing totals live with the program that runs the session.

use vstd::prelude::*;
use crate::bench::Case;
use crate::finding::{issue_type_name, location_text, Finding};
use crate::text::{owned, trim, trim_str};

verus! {

/// One finding queued for blind triage.
#[derive(Debug, Clone)]
pub struct TriageItem {
    pub arm: String,
    pub case_id: String,
    pub case_title: String,
    pub case_description: String,
    pub finding_id: String,
    pub issue_type: String,
    pub location: String,
    pub claim: String,
    pub repository_path: String,
}

/// The queue entry for finding `f` of `case`, reported by `arm`.
pub fn item_from(arm: &str, case: &Case, f: &Finding) -> (t: TriageItem)
    ensures
        t.arm@ == arm@,
        t.case_id@ == case.manifest.case_id@,
        t.case_title@ == case.manifest.title@,
        t.case_description@ == case.manifest.description@,
        t.finding_id@ == f.candidate.id@,
        t.issue_type@ == issue_type_name(f.candidate.issue_type),
        t.location@ == location_text(
            f.candidate.location.file@,
            f.candidate.location.start_line,
            f.candidate.location.end_line,
        ),
        t.claim@ == f.candidate.claim@,
        t.repository_path@ == case.repo.root_path(),
{
    TriageItem {
        arm: owned(arm),
        case_id: case.manifest.case_id.clone(),
        case_title: case.manifest.title.clone(),
        case_description: case.manifest.description.clone(),
        finding_id: f.candidate.id.clone(),
        issue_type: owned(f.candidate.issue_type.as_str()),
        location: f.candidate.location.to_string(),
        claim: f.candidate.claim.clone(),
        repository_path: owned(case.repo.path()),
    }
}

// ---------------------------------------------------------------------------
// Presentation order
// ---------------------------------------------------------------------------

/// One xorshift step.
pub open spec fn xorshift(s: u64) -> u64 {
    let a = s ^ (s << 13u64);
    let b = a ^ (a >> 7u64);
    b ^ (b << 17u64)
}

/// The generator's state after `k` draws from `seed` (forced odd, so a zero
/// seed still moves).
pub open spec fn draw(seed: u64, k: nat) -> u64
    decreases k,
{
    if k == 0 {
        seed | 1u64
    } else {
        xorshift(draw(seed, (k - 1) as nat))
    }
}

/// `s` with the items at `i` and `j` exchanged.
pub open spec fn swapped<T>(s: Seq<T>, i: int, j: int) -> Seq<T> {
    s.update(i, s[j]).update(j, s[i])
}

/// Fisher–Yates from position `i` down to 1, the `k`-th draw choosing the
/// partner of position `i`.
pub open spec fn shuffled_from<T>(s: Seq<T>, seed: u64, i: int, k: nat) -> Seq<T>
    decreases i,
{
    if i < 1 {
        s
    } else {
        let j = (draw(seed, k + 1) % ((i + 1) as u64)) as int;
        shuffled_from(swapped(s, i, j), seed, i - 1, k + 1)
    }
}

/// The order a session with `seed` presents `s` in.
pub open spec fn shuffled<T>(s: Seq<T>, seed: u64) -> Seq<T> {
    shuffled_from(s, seed, s.len() - 1, 0)
}

proof fn lemma_swap_keeps_items<T>(s: Seq<T>, i: int, j: int)
    requires
        0 <= i < s.len(),
        0 <= j < s.len(),
        i != j,
    ensures
        swapped(s, i, j).to_multiset() == s.to_multiset(),
{
    broadcast use vstd::seq_lib::to_multiset_update, vstd::multiset::group_multiset_axioms,
        vstd::seq_lib::to_multiset_contains;

    let m = s.to_multiset();
    let s1 = s.update(i, s[j]);
    assert(s1.to_multiset() == m.insert(s[j]).remove(s[i]));
    assert(s1[j] == s[j]);
    assert(s1.update(j, s[i]).to_multiset() == s1.to_multiset().insert(s[i]).remove(s[j]));
    assert(s.contains(s[i]));
    assert(m.count(s[i]) > 0);
    assert(m.insert(s[j]).remove(s[i]).insert(s[i]).remove(s[j]) =~= m);
}

/// Deterministic shuffle, so a session's order can be replayed from its seed.
/// A xorshift is plenty for presentation order.
pub fn shuffle<T>(items: &mut Vec<T>, seed: u64)
    ensures
        final(items)@ == shuffled(old(items)@, seed),
        final(items)@.to_multiset() == old(items)@.to_multiset(),
{

    let ghost orig = items@;
    let mut state: u64 = seed | 1;
    if items.len() < 2 {
        return;
    }
    let mut i: usize = items.len() - 1;
    let ghost mut k: nat = 0;
    while i > 0
        invariant
            i < items.len(),
            items@.len() == orig.len(),
            state == draw(seed, k),
            shuffled_from(items@, seed, i as int, k) == shuffled(orig, seed),
            items@.to_multiset() == orig.to_multiset(),
        decreases i,
    {
        state = state ^ (state << 13u64);
        state = state ^ (state >> 7u64);
        state = state ^ (state << 17u64);
        proof {
            k = k + 1;
        }
        let j = (state % ((i + 1) as u64)) as usize;
        if j != i {
            let ghost before = items@;
            let a = items.remove(i);
            let b = items.remove(j);
            items.insert(j, a);
            items.insert(i, b);
            assert(items@ =~= swapped(before, i as int, j as int));
            proof {
                lemma_swap_keeps_items(before, i as int, j as int);
            }
        } else {
            assert(swapped(items@, i as int, j as int) =~= items@);
        }
        i = i - 1;
    }
}

// ---------------------------------------------------------------------------
// Answers
// ---------------------------------------------------------------------------

/// What the person triaging may answer for one finding.
#[derive(Debug, Clone, Copy, PartialEq, Eq, Structural)]
pub enum TriageAnswer {
    Real,
    NotABug,
    Unsure,
    Quit,
}

/// The verdict recorded for an answer; quitting records none.
pub open spec fn verdict_name(a: TriageAnswer) -> Seq<char> {
    match a {
        TriageAnswer::Real => "real"@,
        TriageAnswer::NotABug => "not-a-bug"@,
        TriageAnswer::Unsure => "unsure"@,
        TriageAnswer::Quit => ""@,
    }
}

/// The answer a trimmed, lower-cased input line gives, if it is one.
pub open spec fn answer_of(t: Seq<char>) -> Option<TriageAnswer> {
    if t == "r"@ {
        Some(TriageAnswer::Real)
    } else if t == "n"@ {
        Some(TriageAnswer::NotABug)
    } else if t == "u"@ {
        Some(TriageAnswer::Unsure)
    } else if t == "q"@ {
        Some(TriageAnswer::Quit)
    } else {
        None
    }
}

/// The answer an already trimmed and lower-cased line gives, if any.
pub fn answer_from(lowered: &str) -> (r: Option<TriageAnswer>)
    ensures
        r == answer_of(lowered@),
{
    if crate::text::same_text(lowered, "r") {
        Some(TriageAnswer::Real)
    } else if crate::text::same_text(lowered, "n") {
        Some(TriageAnswer::NotABug)
    } else if crate::text::same_text(lowered, "u") {
        Some(TriageAnswer::Unsure)
    } else if crate::text::same_text(lowered, "q") {
        Some(TriageAnswer::Quit)
    } else {
        None
    }
}

/// Read one answer: `r`, `n`, `u` or `q` once trimmed and lower-cased.
pub fn read_answer(line: &str) -> (r: Option<TriageAnswer>)
    ensures
        r == answer_of(crate::text::lowercase(trim(line@))),
{
    let t = trim_str(line);
    let l = crate::text::to_lowercase(t.as_str());
    answer_from(l.as_str())
}

/// The verdict text recorded for an answer.
pub fn verdict_text(a: TriageAnswer) -> (s: &'static str)
    ensures
        s@ == verdict_name(a),
{
    match a {
        TriageAnswer::Real => "real",
        TriageAnswer::NotABug => "not-a-bug",
        TriageAnswer::Unsure => "unsure",
        TriageAnswer::Quit => "",
    }
}

/// Notes every session file carries about its own limits, and the reason it
/// ended early when it did.
pub fn session_notes(ended_early: Option<&str>) -> (v: Vec<String>)
    ensures
        v@.len() == if ended_early is Some {
            4nat
        } else {
            3nat
        },
        v@[0]@ == session_note_pooled(),
        v@[1]@ == session_note_withheld(),
        v@[2]@ == session_note_per_case(),
        ended_early matches Some(n) ==> v@[3]@ == n@,
{
    let mut v: Vec<String> = Vec::new();
    v.push(String::from_str(
        "Findings from all arms were pooled, shuffled, and presented without identifying which system produced them.",
    ));
    v.push(String::from_str(
        "Only the claim and its location were shown. Evidence and verifier verdicts were withheld to keep the arms indistinguishable, which understates the advanced system's benefit.",
    ));
    v.push(String::from_str(
        "seconds_per_case divides an arm's total triage time by the number of benchmark cases, including cases where that arm reported nothing.",
    ));
    match ended_early {
        Some(n) => v.push(owned(n)),
        None => {},
    }
    v
}

pub open spec fn session_note_pooled() -> Seq<char> {
    "Findings from all arms were pooled, shuffled, and presented without identifying which system produced them."@
}

pub open spec fn session_note_withheld() -> Seq<char> {
    "Only the claim and its location were shown. Evidence and verifier verdicts were withheld to keep the arms indistinguishable, which understates the advanced system's benefit."@
}

pub open spec fn session_note_per_case() -> Seq<char> {
    "seconds_per_case divides an arm's total triage time by the number of benchmark cases, including cases where that arm reported nothing."@
}

} // verus!
