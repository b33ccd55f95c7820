//! Reviewing a real change, outside the benchmark: what to review, and the
//! report a person reads afterwards.
//!
//! A real review is the same `Case` a benchmark case is, assembled from a
//! repository path and a diff, run through the same pipeline. There is no
//! ground truth and no score: the output is a report for a human, which is the
//! only thing this system is allowed to produce.

use vstd::prelude::*;
use crate::agent::advanced::ruled_out_because;
use crate::bench::{Case, CaseCategory, CaseManifest, Language};
use crate::repo::RepoRoot;
use crate::finding::{
    issue_type_name, location_text, push_location, related_files_of, Evidence, Finding,
    FindingStatus, Severity, VerificationOutcome,
};
use crate::text::{decimal, joined, push_decimal, push_joined, trim, trim_str};
use crate::trajectory::{AgentKind, Trajectory, TrajectoryEvent};

verus! {

/// What to review.
#[derive(Debug)]
pub struct ReviewRequest {
    /// The working tree the diff applies to.
    pub repo: String,
    /// Where the diff is; `None` or `-` reads it from standard input.
    pub diff_path: Option<String>,
    pub title: String,
    pub description: String,
    pub language: Language,
    pub agent: AgentKind,
    /// Where to write the trajectory and the rendered review, if anywhere.
    pub out: Option<String>,
}

/// Whether a diff gives a review anything to do: it is refused when it is
/// empty or all whitespace.
pub fn diff_is_reviewable(diff: &str) -> (b: bool)
    ensures
        b == (trim(diff@).len() > 0),
{
    let t = trim_str(diff);
    t.as_str().unicode_len() > 0
}

/// Assemble the same `Case` the benchmark uses, in memory, for a repository
/// already opened as a sandbox root.
///
/// `category` is `RealIssue` and is never read by either agent: it exists for
/// reporting breakdowns over a benchmark and means nothing for a real change.
pub fn build_case(req: &ReviewRequest, diff: String, repo: RepoRoot) -> (c: Case)
    ensures
        c.manifest.case_id@ == "review"@,
        c.manifest.title@ == req.title@,
        c.manifest.description@ == req.description@,
        c.manifest.category == CaseCategory::RealIssue,
        c.manifest.language == req.language,
        c.diff == diff,
        c.repo == repo,
        c.dir@ == req.repo@,
{
    Case {
        manifest: CaseManifest {
            case_id: String::from_str("review"),
            title: req.title.clone(),
            description: req.description.clone(),
            category: CaseCategory::RealIssue,
            language: req.language,
        },
        diff,
        repo,
        dir: req.repo.clone(),
    }
}

// ---------------------------------------------------------------------------
// The rendered report
// ---------------------------------------------------------------------------

/// The findings among `fs` whose status is `s`, in order.
pub open spec fn with_status(fs: Seq<Finding>, s: FindingStatus) -> Seq<Finding>
    decreases fs.len(),
{
    if fs.len() == 0 {
        Seq::empty()
    } else if fs.last().status == s {
        with_status(fs.drop_last(), s).push(fs.last())
    } else {
        with_status(fs.drop_last(), s)
    }
}

/// How many of `es` record a proposed candidate.
pub open spec fn proposals(es: Seq<TrajectoryEvent>) -> nat
    decreases es.len(),
{
    if es.len() == 0 {
        0
    } else {
        proposals(es.drop_last()) + if es.last() is CandidateProposed {
            1nat
        } else {
            0nat
        }
    }
}

pub open spec fn severity_name(s: Severity) -> Seq<char> {
    match s {
        Severity::Low => "Low"@,
        Severity::Medium => "Medium"@,
        Severity::High => "High"@,
    }
}

pub open spec fn outcome_name(o: VerificationOutcome) -> Seq<char> {
    match o {
        VerificationOutcome::Supports => "Supports"@,
        VerificationOutcome::Contradicts => "Contradicts"@,
        VerificationOutcome::Insufficient => "Insufficient"@,
    }
}

/// Where an evidence item points, when it names a file.
pub open spec fn citation(e: Evidence) -> Option<Seq<char>> {
    match e.file {
        None => None,
        Some(f) => Some(
            match (e.start_line, e.end_line) {
                (Some(a), Some(b)) => if a != b {
                    f@ + ":"@ + decimal(a as nat) + "-"@ + decimal(b as nat)
                } else {
                    f@ + ":"@ + decimal(a as nat)
                },
                (Some(a), None) => f@ + ":"@ + decimal(a as nat),
                _ => f@,
            },
        ),
    }
}

/// The citations of the first `n` evidence items, skipping those with no file.
pub open spec fn citations(es: Seq<Evidence>, n: int) -> Seq<Seq<char>>
    decreases n,
{
    if n <= 0 {
        Seq::empty()
    } else {
        match citation(es[n - 1]) {
            Some(c) => citations(es, n - 1).push(c),
            None => citations(es, n - 1),
        }
    }
}

pub open spec fn rule() -> Seq<char> {
    "──────────────────────────────────────────────────────────────"@
}

/// The block for a reported finding: where, how severe, what kind, the claim,
/// the question it was checked by, the independent assessment, what was read and
/// what else the defect depends on. The agent's own reasoning is not shown.
pub open spec fn reported_block(f: Finding) -> Seq<char> {
    reported_head(f) + verdict_part(f) + cited_part(f) + related_part(f)
}

/// Where, how severe, what kind, the claim, and the question it was checked by.
pub open spec fn reported_head(f: Finding) -> Seq<char> {
    let c = f.candidate;
    "\n"@ + rule() + "\n"@ + location_text(c.location.file@, c.location.start_line, c.location.end_line)
        + " · "@ + severity_name(c.severity) + " · "@ + issue_type_name(c.issue_type) + "\n  "@
        + c.claim@ + "\n"@ + "\n  Checked by asking: "@ + f.falsification_question@ + "\n"@
}

/// The independent assessment and its rationale, when there was one.
pub open spec fn verdict_part(f: Finding) -> Seq<char> {
    match f.verification {
        Some(v) => "  Independent assessment: "@ + outcome_name(v.outcome) + "\n"@ + if trim(v.rationale@).len() > 0 {
            "    "@ + trim(v.rationale@) + "\n"@
        } else {
            Seq::<char>::empty()
        },
        None => Seq::<char>::empty(),
    }
}

/// The places the evidence points at, when any does.
pub open spec fn cited_part(f: Finding) -> Seq<char> {
    let cited = citations(f.evidence@, f.evidence@.len() as int);
    if cited.len() > 0 {
        "  Evidence read: "@ + joined(cited, ", "@) + "\n"@
    } else {
        Seq::<char>::empty()
    }
}

/// The other files the defect depends on, when there are any.
pub open spec fn related_part(f: Finding) -> Seq<char> {
    let related = related_files_of(f.evidence@, f.candidate.location.file@);
    if related.len() > 0 {
        "  Depends on code in: "@ + joined(related, ", "@) + "\n"@
    } else {
        Seq::<char>::empty()
    }
}

/// The block for a finding that was investigated and cleared.
pub open spec fn cleared_block(f: Finding) -> Seq<char> {
    let c = f.candidate;
    "\n  "@ + location_text(c.location.file@, c.location.start_line, c.location.end_line) + " · "@
        + issue_type_name(c.issue_type) + "\n    claim: "@ + c.claim@ + "\n    cleared because: "@
        + ruled_out_because(f) + "\n"@
}

/// The block for a finding withheld as uncertain.
pub open spec fn uncertain_block(f: Finding) -> Seq<char> {
    let c = f.candidate;
    "\n  "@ + location_text(c.location.file@, c.location.start_line, c.location.end_line) + " · "@
        + issue_type_name(c.issue_type) + "\n    claim: "@ + c.claim@ + "\n    withheld because: "@
        + trim(f.status_reason@) + "\n"@
}

/// The block a finding with status `s` is shown in.
pub open spec fn status_block(s: FindingStatus, f: Finding) -> Seq<char> {
    match s {
        FindingStatus::Verified => reported_block(f),
        FindingStatus::Rejected => cleared_block(f),
        FindingStatus::Uncertain => uncertain_block(f),
    }
}

/// The blocks of `fs`, one after another, each as a finding with status `s`.
pub open spec fn blocks(fs: Seq<Finding>, s: FindingStatus) -> Seq<char>
    decreases fs.len(),
{
    if fs.len() == 0 {
        Seq::empty()
    } else {
        blocks(fs.drop_last(), s) + status_block(s, fs.last())
    }
}

pub open spec fn nothing_proposed_note() -> Seq<char> {
    "\nNothing reported, and nothing proposed: the agent read the change and raised\nno candidate to investigate. That is not the same as having checked something\nand cleared it, and it is weaker evidence that the change is sound.\n"@
}

pub open spec fn all_cleared_note() -> Seq<char> {
    "\nNothing reported. That is a result, not a failure to run — every candidate\nbelow was investigated against the repository and ruled out.\n"@
}

pub open spec fn cleared_heading() -> Seq<char> {
    "\n── Investigated and cleared ──────────────────────────────────\n(shown so a rejection can be disagreed with, not to pad the report)\n"@
}

pub open spec fn uncertain_heading() -> Seq<char> {
    "\n── Withheld as uncertain ─────────────────────────────────────\n"@
}

pub open spec fn closing_note() -> Seq<char> {
    "\n"@ + rule()
        + "\nThis system does not merge, reject, approve or modify anything. A\nhuman decides. Findings are evidence-backed claims, not verdicts.\n"@
}

/// The counts and costs at the top of a report.
pub open spec fn report_header(t: Trajectory, cost: Option<Seq<char>>) -> Seq<char> {
    let fs = t.final_findings@;
    "\n"@ + decimal(with_status(fs, FindingStatus::Verified).len()) + " finding(s) for review · "@
        + decimal(with_status(fs, FindingStatus::Rejected).len()) + " investigated and cleared · "@
        + decimal(with_status(fs, FindingStatus::Uncertain).len()) + " uncertain\n"@ + decimal(
        t.llm_calls as nat,
    ) + " model call(s), "@ + decimal(t.tool_calls as nat) + " tool call(s), "@ + decimal(
        t.runtime_ms as nat,
    ) + " ms\n"@ + match cost {
        Some(c) => "cost: $"@ + c + "\n"@,
        None => Seq::<char>::empty(),
    }
}

/// What a report says when nothing was reported: whether anything was
/// proposed and cleared, or nothing was proposed at all.
pub open spec fn silence_part(t: Trajectory) -> Seq<char> {
    if with_status(t.final_findings@, FindingStatus::Verified).len() == 0 {
        if proposals(t.events@) == 0 {
            nothing_proposed_note()
        } else {
            all_cleared_note()
        }
    } else {
        Seq::<char>::empty()
    }
}

/// A headed section of the findings with status `s`, when there are any.
pub open spec fn section(fs: Seq<Finding>, s: FindingStatus, heading: Seq<char>) -> Seq<char> {
    if with_status(fs, s).len() > 0 {
        heading + blocks(with_status(fs, s), s)
    } else {
        Seq::<char>::empty()
    }
}

/// The whole report for a trajectory: header, a note on silence when nothing
/// was reported, the reported findings, then what was cleared and what was
/// withheld, and the closing statement that a human decides.
pub open spec fn report_text(t: Trajectory, cost: Option<Seq<char>>) -> Seq<char> {
    let fs = t.final_findings@;
    report_header(t, cost) + silence_part(t) + blocks(with_status(fs, FindingStatus::Verified), FindingStatus::Verified)
        + section(fs, FindingStatus::Rejected, cleared_heading()) + section(
        fs,
        FindingStatus::Uncertain,
        uncertain_heading(),
    ) + closing_note()
}

fn severity_text(s: Severity) -> (r: &'static str)
    ensures
        r@ == severity_name(s),
{
    match s {
        Severity::Low => "Low",
        Severity::Medium => "Medium",
        Severity::High => "High",
    }
}

fn outcome_text(o: VerificationOutcome) -> (r: &'static str)
    ensures
        r@ == outcome_name(o),
{
    match o {
        VerificationOutcome::Supports => "Supports",
        VerificationOutcome::Contradicts => "Contradicts",
        VerificationOutcome::Insufficient => "Insufficient",
    }
}

fn citation_text(e: &Evidence) -> (r: Option<String>)
    ensures
        match citation(*e) {
            Some(c) => r is Some && r->0@ == c,
            None => r is None,
        },
{
    match &e.file {
        None => None,
        Some(f) => {
            let mut s = f.clone();
            match (e.start_line, e.end_line) {
                (Some(a), Some(b)) => {
                    s.append(":");
                    push_decimal(&mut s, a as u64);
                    if a != b {
                        s.append("-");
                        push_decimal(&mut s, b as u64);
                    }
                },
                (Some(a), None) => {
                    s.append(":");
                    push_decimal(&mut s, a as u64);
                },
                _ => {},
            }
            Some(s)
        },
    }
}

/// Appends `sep`-joined `items` to `out`.
fn push_all_joined(out: &mut String, items: &Vec<String>, sep: &str)
    ensures
        final(out)@ == old(out)@ + joined(crate::text::views(items@), sep@),
{
    let mut body = String::new();
    let mut i: usize = 0;
    while i < items.len()
        invariant
            i <= items@.len(),
            body@ == joined(crate::text::views(items@.take(i as int)), sep@),
        decreases items@.len() - i,
    {
        proof {
            assert(crate::text::views(items@.take(i + 1)) =~= crate::text::views(
                items@.take(i as int),
            ).push(items@[i as int]@));
        }
        push_joined(&mut body, Ghost(crate::text::views(items@.take(i as int))), i == 0, sep, items[i].as_str());
        i = i + 1;
    }
    assert(items@.take(i as int) =~= items@);
    out.append(body.as_str());
}

fn reported_head_text(f: &Finding) -> (s: String)
    ensures
        s@ == reported_head(*f),
{
    let c = &f.candidate;
    let mut s = String::from_str("\n");
    s.append("──────────────────────────────────────────────────────────────");
    s.append("\n");
    push_location(&mut s, c.location.file.as_str(), c.location.start_line, c.location.end_line);
    s.append(" · ");
    s.append(severity_text(c.severity));
    s.append(" · ");
    s.append(c.issue_type.as_str());
    s.append("\n  ");
    s.append(c.claim.as_str());
    s.append("\n");
    s.append("\n  Checked by asking: ");
    s.append(f.falsification_question.as_str());
    s.append("\n");
    s
}

fn verdict_text(f: &Finding) -> (s: String)
    ensures
        s@ == verdict_part(*f),
{
    let mut s = String::new();
    match &f.verification {
        Some(v) => {
            s.append("  Independent assessment: ");
            s.append(outcome_text(v.outcome));
            s.append("\n");
            let r = trim_str(v.rationale.as_str());
            if r.as_str().unicode_len() > 0 {
                s.append("    ");
                s.append(r.as_str());
                s.append("\n");
            }
        },
        None => {},
    }
    s
}

fn cited_text(f: &Finding) -> (s: String)
    ensures
        s@ == cited_part(*f),
{
    let mut cited: Vec<String> = Vec::new();
    let mut i: usize = 0;
    while i < f.evidence.len()
        invariant
            i <= f.evidence@.len(),
            crate::text::views(cited@) == citations(f.evidence@, i as int),
        decreases f.evidence@.len() - i,
    {
        match citation_text(&f.evidence[i]) {
            Some(t) => {
                cited.push(t);
            },
            None => {},
        }
        assert(crate::text::views(cited@) =~= citations(f.evidence@, i + 1));
        i = i + 1;
    }
    let mut s = String::new();
    if cited.len() > 0 {
        s.append("  Evidence read: ");
        push_all_joined(&mut s, &cited, ", ");
        s.append("\n");
    }
    s
}

fn related_text(f: &Finding) -> (s: String)
    ensures
        s@ == related_part(*f),
{
    let related = f.related_files();
    assert(crate::text::views(related@) =~= related@.map_values(|x: String| x@));
    let mut s = String::new();
    if related.len() > 0 {
        s.append("  Depends on code in: ");
        push_all_joined(&mut s, &related, ", ");
        s.append("\n");
    }
    s
}

fn push_reported_block(out: &mut String, f: &Finding)
    ensures
        final(out)@ == old(out)@ + reported_block(*f),
{
    let a = reported_head_text(f);
    let b = verdict_text(f);
    let c = cited_text(f);
    let d = related_text(f);
    out.append(a.as_str());
    out.append(b.as_str());
    out.append(c.as_str());
    out.append(d.as_str());
    assert(final(out)@ =~= old(out)@ + reported_block(*f));
}

fn push_cleared_block(out: &mut String, f: &Finding)
    ensures
        final(out)@ == old(out)@ + cleared_block(*f),
{
    let c = &f.candidate;
    out.append("\n  ");
    push_location(out, c.location.file.as_str(), c.location.start_line, c.location.end_line);
    out.append(" · ");
    out.append(c.issue_type.as_str());
    out.append("\n    claim: ");
    out.append(c.claim.as_str());
    out.append("\n    cleared because: ");
    let reason = match &f.verification {
        Some(v) => {
            let r = trim_str(v.rationale.as_str());
            if r.as_str().unicode_len() > 0 {
                r
            } else {
                trim_str(f.status_reason.as_str())
            }
        },
        None => trim_str(f.status_reason.as_str()),
    };
    out.append(reason.as_str());
    out.append("\n");
}

fn push_uncertain_block(out: &mut String, f: &Finding)
    ensures
        final(out)@ == old(out)@ + uncertain_block(*f),
{
    let c = &f.candidate;
    out.append("\n  ");
    push_location(out, c.location.file.as_str(), c.location.start_line, c.location.end_line);
    out.append(" · ");
    out.append(c.issue_type.as_str());
    out.append("\n    claim: ");
    out.append(c.claim.as_str());
    out.append("\n    withheld because: ");
    let reason = trim_str(f.status_reason.as_str());
    out.append(reason.as_str());
    out.append("\n");
}

proof fn lemma_with_status_step(fs: Seq<Finding>, i: int, s: FindingStatus)
    requires
        0 <= i < fs.len(),
    ensures
        with_status(fs.take(i + 1), s) == if fs[i].status == s {
            with_status(fs.take(i), s).push(fs[i])
        } else {
            with_status(fs.take(i), s)
        },
{
    assert(fs.take(i + 1).drop_last() =~= fs.take(i));
}

/// Appends the blocks of the findings with status `s`.
fn push_blocks(out: &mut String, fs: &Vec<Finding>, s: FindingStatus) -> (n: usize)
    ensures
        final(out)@ == old(out)@ + blocks(with_status(fs@, s), s),
        n == with_status(fs@, s).len(),
{
    let ghost start = out@;
    let mut n: usize = 0;
    let mut i: usize = 0;
    while i < fs.len()
        invariant
            i <= fs@.len(),
            out@ == start + blocks(with_status(fs@.take(i as int), s), s),
            n == with_status(fs@.take(i as int), s).len(),
            n <= i,
        decreases fs@.len() - i,
    {
        proof {
            lemma_with_status_step(fs@, i as int, s);
        }
        let f = &fs[i];
        if f.status == s {
            let ghost before = out@;
            match s {
                FindingStatus::Verified => push_reported_block(out, f),
                FindingStatus::Rejected => push_cleared_block(out, f),
                FindingStatus::Uncertain => push_uncertain_block(out, f),
            }
            n = n + 1;
            proof {
                let w = with_status(fs@.take(i + 1), s);
                assert(w.drop_last() == with_status(fs@.take(i as int), s));
                assert(out@ =~= start + blocks(w, s));
            }
        }
        i = i + 1;
    }
    assert(fs@.take(i as int) =~= fs@);
    n
}

fn header_text(traj: &Trajectory, counts: (usize, usize, usize), cost: Option<&str>) -> (s: String)
    requires
        counts.0 == with_status(traj.final_findings@, FindingStatus::Verified).len(),
        counts.1 == with_status(traj.final_findings@, FindingStatus::Rejected).len(),
        counts.2 == with_status(traj.final_findings@, FindingStatus::Uncertain).len(),
    ensures
        s@ == report_header(
            *traj,
            match cost {
                Some(c) => Some(c@),
                None => None,
            },
        ),
{
    let mut out = String::from_str("\n");
    push_decimal(&mut out, counts.0 as u64);
    out.append(" finding(s) for review · ");
    push_decimal(&mut out, counts.1 as u64);
    out.append(" investigated and cleared · ");
    push_decimal(&mut out, counts.2 as u64);
    out.append(" uncertain\n");
    push_decimal(&mut out, traj.llm_calls as u64);
    out.append(" model call(s), ");
    push_decimal(&mut out, traj.tool_calls as u64);
    out.append(" tool call(s), ");
    push_decimal(&mut out, traj.runtime_ms);
    out.append(" ms\n");
    match cost {
        Some(c) => {
            out.append("cost: $");
            out.append(c);
            out.append("\n");
        },
        None => {},
    }
    out
}

fn silence_text(traj: &Trajectory, reported: usize) -> (s: String)
    requires
        reported == with_status(traj.final_findings@, FindingStatus::Verified).len(),
    ensures
        s@ == silence_part(*traj),
{
    let mut out = String::new();
    if reported == 0 {
        let mut proposed: usize = 0;
        let mut i: usize = 0;
        while i < traj.events.len()
            invariant
                i <= traj.events@.len(),
                proposed == proposals(traj.events@.take(i as int)),
                proposed <= i,
            decreases traj.events@.len() - i,
        {
            assert(traj.events@.take(i + 1).drop_last() =~= traj.events@.take(i as int));
            match &traj.events[i] {
                TrajectoryEvent::CandidateProposed { .. } => {
                    proposed = proposed + 1;
                },
                _ => {},
            }
            i = i + 1;
        }
        assert(traj.events@.take(i as int) =~= traj.events@);
        if proposed == 0 {
            out.append(
                "\nNothing reported, and nothing proposed: the agent read the change and raised\nno candidate to investigate. That is not the same as having checked something\nand cleared it, and it is weaker evidence that the change is sound.\n",
            );
        } else {
            out.append(
                "\nNothing reported. That is a result, not a failure to run — every candidate\nbelow was investigated against the repository and ruled out.\n",
            );
        }
    }
    out
}

fn section_text(fs: &Vec<Finding>, s: FindingStatus, heading: &str) -> (r: String)
    ensures
        r@ == section(fs@, s, heading@),
{
    let mut body = String::new();
    let n = push_blocks(&mut body, fs, s);
    let mut out = String::new();
    if n > 0 {
        out.append(heading);
        out.append(body.as_str());
    }
    out
}

/// Render a review for a person to read, given the cost line's figure when
/// the run was priced.
///
/// Reported findings come first, because they are what a human is being asked
/// to spend attention on. What was investigated and cleared comes after, and it
/// is not hidden: a reader who disagrees with a rejection needs to see the
/// claim and the reason that closed it.
pub fn render(traj: &Trajectory, cost: Option<&str>) -> (s: String)
    ensures
        s@ == report_text(
            *traj,
            match cost {
                Some(c) => Some(c@),
                None => None,
            },
        ),
{
    let fs = &traj.final_findings;
    let mut reported_out = String::new();
    let reported = push_blocks(&mut reported_out, fs, FindingStatus::Verified);
    let mut scratch = String::new();
    let cleared = push_blocks(&mut scratch, fs, FindingStatus::Rejected);
    let uncertain = push_blocks(&mut scratch, fs, FindingStatus::Uncertain);
    let head = header_text(traj, (reported, cleared, uncertain), cost);
    let silence = silence_text(traj, reported);
    let cleared_part = section_text(
        fs,
        FindingStatus::Rejected,
        "\n── Investigated and cleared ──────────────────────────────────\n(shown so a rejection can be disagreed with, not to pad the report)\n",
    );
    let uncertain_part = section_text(
        fs,
        FindingStatus::Uncertain,
        "\n── Withheld as uncertain ─────────────────────────────────────\n",
    );
    let mut out = head;
    out.append(silence.as_str());
    out.append(reported_out.as_str());
    out.append(cleared_part.as_str());
    out.append(uncertain_part.as_str());
    out.append("\n");
    out.append("──────────────────────────────────────────────────────────────");
    out.append(
        "\nThis system does not merge, reject, approve or modify anything. A\nhuman decides. Findings are evidence-backed claims, not verdicts.\n",
    );
    proof {
        let ghost c = match cost {
            Some(c) => Some(c@),
            None => None,
        };
        assert(out@ =~= report_text(*traj, c));
    }
    out
}

} // verus!

verus! {

/// Every report, whatever the run found, ends by stating that the system
/// takes no action and that a human decides.
pub proof fn law_every_report_leaves_the_decision_to_a_human(t: Trajectory, cost: Option<Seq<char>>)
    ensures
        crate::tools::has_suffix(report_text(t, cost), closing_note()),
{
    let r = report_text(t, cost);
    let c = closing_note();
    let fs = t.final_findings@;
    let head = report_header(t, cost) + silence_part(t) + blocks(
        with_status(fs, FindingStatus::Verified),
        FindingStatus::Verified,
    ) + section(fs, FindingStatus::Rejected, cleared_heading()) + section(
        fs,
        FindingStatus::Uncertain,
        uncertain_heading(),
    );
    assert(r == head + c);
    assert(r.skip(r.len() - c.len()) =~= c);
}

/// A report with nothing to report says which silence it is: nothing was
/// proposed, or everything proposed was investigated and ruled out.
pub proof fn law_silence_is_explained(t: Trajectory)
    requires
        with_status(t.final_findings@, FindingStatus::Verified).len() == 0,
    ensures
        silence_part(t) == if proposals(t.events@) == 0 {
            nothing_proposed_note()
        } else {
            all_cleared_note()
        },
{
}

} // verus!
