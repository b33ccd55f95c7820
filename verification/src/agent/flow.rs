//! The advanced pipeline's decisions, apart from the calls they wait on.
//!
//! A run alternates between outside work (a model call, a tool run against the
//! repository) and decisions about what to do with what came back. The work is
//! done by the program that drives a run; every decision it makes is one of
//! the functions here, given what came back as plain values.

use vstd::prelude::*;
use crate::agent::advanced::{concrete_count, concrete_evidence_count, default_question};
use crate::config::{ablation_name, Ablation};
use crate::finding::{
    issue_type_name, location_text, overlaps_spec, CandidateFinding, Evidence, Finding,
    FindingStatus, VerificationOutcome, VerificationResult,
};
use crate::text::{debug_quoted, debug_str, decimal, owned, push_decimal, trim, trim_str};
use crate::tools::ToolResult;
use crate::llm::{LlmRequest, Stage};
use crate::prompts::{investigate_system, investigate_system_text, investigate_user, investigate_user_text};

verus! {

// ---------------------------------------------------------------------------
// Run-level notes and decisions
// ---------------------------------------------------------------------------

/// The note an ablation run opens with, so that no reader takes it for the
/// full system; a full run has none.
pub fn ablation_note(ablation: Ablation) -> (r: Option<String>)
    ensures
        ablation == Ablation::Full ==> r is None,
        ablation != Ablation::Full ==> crate::tools::opt_text(r) == Some("ABLATION: "@ + ablation_name(ablation)
            + " — this run deliberately disables part of the pipeline and is                  not the full system"@),
{
    if ablation == Ablation::Full {
        return None;
    }
    let mut n = String::from_str("ABLATION: ");
    n.append(ablation.as_str());
    n.append(" — this run deliberately disables part of the pipeline and is                  not the full system");
    Some(n)
}

/// The note for a candidate merged into another that describes the same
/// defect.
pub fn merge_note(dropped: &str, kept: &str) -> (r: String)
    ensures
        r@ == "candidate "@ + dropped@ + " describes the same defect as "@ + kept@ + " (same category,                  overlapping lines); merged so it is investigated and reported once"@,
{
    let mut n = String::from_str("candidate ");
    n.append(dropped);
    n.append(" describes the same defect as ");
    n.append(kept);
    n.append(" (same category,                  overlapping lines); merged so it is investigated and reported once");
    n
}

/// How many of `fs` have status `s`.
pub open spec fn status_count(fs: Seq<Finding>, s: FindingStatus) -> nat
    decreases fs.len(),
{
    if fs.len() == 0 {
        0
    } else {
        status_count(fs.drop_last(), s) + if fs.last().status == s {
            1nat
        } else {
            0nat
        }
    }
}

proof fn lemma_status_count_bound(fs: Seq<Finding>, s: FindingStatus)
    ensures
        status_count(fs, s) <= fs.len(),
    decreases fs.len(),
{
    if fs.len() > 0 {
        lemma_status_count_bound(fs.drop_last(), s);
    }
}

fn count_status(fs: &Vec<Finding>, s: FindingStatus) -> (n: usize)
    ensures
        n == status_count(fs@, s),
{
    let mut n: usize = 0;
    let mut i: usize = 0;
    while i < fs.len()
        invariant
            i <= fs@.len(),
            n == status_count(fs@.take(i as int), s),
        decreases fs@.len() - i,
    {
        proof {
            assert(fs@.take(i + 1).drop_last() =~= fs@.take(i as int));
            lemma_status_count_bound(fs@.take(i as int), s);
        }
        if fs[i].status == s {
            n = n + 1;
        }
        i = i + 1;
    }
    assert(fs@.take(i as int) =~= fs@);
    n
}

/// Whether a case that finished with nothing to report gets a second look:
/// only on a full run with a second look allowed, and only when something
/// was investigated (a case where nothing was proposed has no settled
/// questions to read again against).
pub open spec fn second_look_due(fs: Seq<Finding>, ablation: Ablation, max_second_looks: u32) -> bool {
    &&& status_count(fs, FindingStatus::Verified) == 0
    &&& ablation == Ablation::Full
    &&& max_second_looks > 0
    &&& fs.len() > 0
}

pub fn wants_second_look(findings: &Vec<Finding>, ablation: Ablation, max_second_looks: u32) -> (b: bool)
    ensures
        b == second_look_due(findings@, ablation, max_second_looks),
{
    count_status(findings, FindingStatus::Verified) == 0 && ablation == Ablation::Full
        && max_second_looks > 0 && findings.len() > 0
}

/// The note that opens a second look over `n` investigated candidates.
pub fn second_look_note(n: usize) -> (r: String)
    ensures
        r@ == "second look: "@ + decimal(n as nat) + " candidate(s) were investigated and none survived                  adjudication, so the change is being read again against the questions                  already settled"@,
{
    let mut s = String::from_str("second look: ");
    push_decimal(&mut s, n as u64);
    s.append(" candidate(s) were investigated and none survived                  adjudication, so the change is being read again against the questions                  already settled");
    s
}

/// A second-look candidate restates a settled question when some settled
/// finding has its category and overlapping lines in the same file.
pub open spec fn restates(settled: Seq<Finding>, c: CandidateFinding) -> bool {
    exists|i: int|
        0 <= i < settled.len() && (#[trigger] settled[i]).candidate.issue_type == c.issue_type
            && overlaps_spec(settled[i].candidate.location, c.location, 0)
}

/// Whether a second-look candidate merely restates a question already
/// settled, so that it is dropped rather than investigated again.
pub fn restates_settled(settled: &Vec<Finding>, c: &CandidateFinding) -> (b: bool)
    ensures
        b == restates(settled@, *c),
{
    let mut i: usize = 0;
    while i < settled.len()
        invariant
            i <= settled@.len(),
            forall|j: int|
                0 <= j < i ==> !((#[trigger] settled@[j]).candidate.issue_type == c.issue_type
                    && overlaps_spec(settled@[j].candidate.location, c.location, 0)),
        decreases settled@.len() - i,
    {
        let f = &settled[i];
        if f.candidate.issue_type == c.issue_type && f.candidate.location.overlaps(&c.location, 0) {
            return true;
        }
        i = i + 1;
    }
    false
}

/// The note for a dropped second-look candidate.
pub fn restated_note(c: &CandidateFinding) -> (r: String)
    ensures
        r@ == "second look: "@ + c.id@ + " restates a question already settled at "@ + location_text(
            c.location.file@,
            c.location.start_line,
            c.location.end_line,
        ) + "; dropped"@,
{
    let mut s = String::from_str("second look: ");
    s.append(c.id.as_str());
    s.append(" restates a question already settled at ");
    let loc = c.location.to_string();
    s.append(loc.as_str());
    s.append("; dropped");
    s
}

/// The human checkpoint every advanced run ends at: what was reported, what
/// was cleared, what was left uncertain, and that nothing is done to the code.
pub fn checkpoint_note(findings: &Vec<Finding>) -> (r: String)
    ensures
        r@ == decimal(status_count(findings@, FindingStatus::Verified))
            + " verified finding(s) reported for human review; "@ + decimal(
            status_count(findings@, FindingStatus::Rejected),
        ) + " investigated and cleared; "@ + decimal(
            status_count(findings@, FindingStatus::Uncertain),
        ) + " left uncertain. All findings, including cleared and uncertain ones, remain in this trajectory. The system takes no action on the code: it does not merge, reject, or modify anything."@,
{
    let mut s = String::new();
    push_decimal(&mut s, count_status(findings, FindingStatus::Verified) as u64);
    s.append(" verified finding(s) reported for human review; ");
    push_decimal(&mut s, count_status(findings, FindingStatus::Rejected) as u64);
    s.append(" investigated and cleared; ");
    push_decimal(&mut s, count_status(findings, FindingStatus::Uncertain) as u64);
    s.append(
        " left uncertain. All findings, including cleared and uncertain ones, remain in this trajectory. The system takes no action on the code: it does not merge, reject, or modify anything.",
    );
    s
}

/// The human checkpoint a baseline run ends at.
pub fn baseline_checkpoint_note(n: usize) -> (r: String)
    ensures
        r@ == decimal(n as nat)
            + " finding(s) reported for human review. The system takes no action on the code: it does not merge, reject, or modify anything."@,
{
    let mut s = String::new();
    push_decimal(&mut s, n as u64);
    s.append(
        " finding(s) reported for human review. The system takes no action on the code: it does not merge, reject, or modify anything.",
    );
    s
}

// ---------------------------------------------------------------------------
// One candidate
// ---------------------------------------------------------------------------

pub open spec fn candidates_only_reason() -> Seq<char> {
    "ablation candidates-only: reported without investigation or                          verification"@
}

/// Candidates-only: no investigation, no verification. Reported as produced,
/// which is what the advanced prompt alone is worth.
pub fn candidates_only_finding(candidate: CandidateFinding) -> (r: (Finding, String))
    ensures
        r.0.candidate == candidate,
        r.0.falsification_question@.len() == 0,
        r.0.evidence@.len() == 0,
        r.0.verification is None,
        r.0.status == FindingStatus::Verified,
        r.0.status_reason@ == "ablation candidates-only"@,
        r.1@ == candidates_only_reason(),
{
    (
        Finding {
            candidate,
            falsification_question: String::new(),
            evidence: Vec::new(),
            verification: None,
            status: FindingStatus::Verified,
            status_reason: String::from_str("ablation candidates-only"),
        },
        String::from_str("ablation candidates-only: reported without investigation or                          verification"),
    )
}

/// The question a candidate is checked by: what the model proposed, trimmed,
/// or the default disproof question when it proposed nothing usable (no
/// reply, no such field, or an empty one).
pub fn question_from_reply(proposed: Option<&str>, candidate: &CandidateFinding) -> (q: String)
    ensures
        match proposed {
            Some(p) if trim(p@).len() > 0 => q@ == trim(p@),
            _ => q@ == "What evidence in this repository would show that the following claim is false: "@
                + candidate.claim@,
        },
{
    match proposed {
        Some(p) => {
            let t = trim_str(p);
            if t.as_str().unicode_len() > 0 {
                return t;
            }
        },
        None => {},
    }
    default_question(candidate)
}

/// The outcome a verifier's `outcome` field names, once trimmed.
pub open spec fn outcome_named(s: Seq<char>) -> Option<VerificationOutcome> {
    if s == "Supports"@ {
        Some(VerificationOutcome::Supports)
    } else if s == "Contradicts"@ {
        Some(VerificationOutcome::Contradicts)
    } else if s == "Insufficient"@ {
        Some(VerificationOutcome::Insufficient)
    } else {
        None
    }
}

/// The strings among `items`, in order.
pub open spec fn strings_of(items: Seq<Option<String>>) -> Seq<Seq<char>>
    decreases items.len(),
{
    if items.len() == 0 {
        Seq::empty()
    } else {
        match items.last() {
            Some(s) => strings_of(items.drop_last()).push(s@),
            None => strings_of(items.drop_last()),
        }
    }
}

/// The verifier's judgment from its reply's fields: no judgment unless the
/// outcome names one of the three; the rationale trimmed (empty when
/// absent); the decisive evidence as the strings the list holds, other items
/// skipped.
pub fn verification_from_reply(
    outcome: Option<&str>,
    rationale: Option<&str>,
    decisive: Option<&Vec<Option<String>>>,
) -> (r: Option<VerificationResult>)
    ensures
        match outcome {
            None => r is None,
            Some(o) => match outcome_named(trim(o@)) {
                None => r is None,
                Some(k) => r matches Some(v) && v.outcome == k && v.rationale@ == match rationale {
                    Some(t) => trim(t@),
                    None => Seq::<char>::empty(),
                } && crate::text::views(v.decisive_evidence@) == match decisive {
                    Some(d) => strings_of(d@),
                    None => Seq::<Seq<char>>::empty(),
                },
            },
        },
{
    let o = match outcome {
        None => {
            return None;
        },
        Some(o) => trim_str(o),
    };
    let kind = if crate::text::same_text(o.as_str(), "Supports") {
        VerificationOutcome::Supports
    } else if crate::text::same_text(o.as_str(), "Contradicts") {
        VerificationOutcome::Contradicts
    } else if crate::text::same_text(o.as_str(), "Insufficient") {
        VerificationOutcome::Insufficient
    } else {
        return None;
    };
    let rationale = match rationale {
        Some(t) => trim_str(t),
        None => String::new(),
    };
    let mut picked: Vec<String> = Vec::new();
    match decisive {
        Some(d) => {
            let mut i: usize = 0;
            while i < d.len()
                invariant
                    i <= d@.len(),
                    crate::text::views(picked@) == strings_of(d@.take(i as int)),
                decreases d@.len() - i,
            {
                assert(d@.take(i + 1).drop_last() =~= d@.take(i as int));
                match &d[i] {
                    Some(s) => {
                        picked.push(s.clone());
                    },
                    None => {},
                }
                assert(crate::text::views(picked@) =~= strings_of(d@.take(i + 1)));
                i = i + 1;
            }
            assert(d@.take(i as int) =~= d@);
        },
        None => {
            assert(crate::text::views(picked@) =~= Seq::<Seq<char>>::empty());
        },
    }
    Some(VerificationResult { outcome: kind, rationale, decisive_evidence: picked })
}

/// `Some("…")` or `None`, as `{:?}` prints an optional string.
pub open spec fn debug_opt(o: Option<Seq<char>>) -> Seq<char> {
    match o {
        Some(s) => "Some("@ + debug_str(s) + ")"@,
        None => "None"@,
    }
}

/// The note for a verifier reply whose outcome is none of the three.
pub fn unrecognised_outcome_note(candidate_id: &str, outcome: Option<&str>) -> (r: String)
    ensures
        r@ == "verification for "@ + candidate_id@ + " returned an unrecognised outcome "@ + debug_opt(
            match outcome {
                Some(o) => Some(trim(o@)),
                None => None,
            },
        ) + "; treating as no verdict"@,
{
    let mut s = String::from_str("verification for ");
    s.append(candidate_id);
    s.append(" returned an unrecognised outcome ");
    match outcome {
        Some(o) => {
            let t = trim_str(o);
            s.append("Some(");
            let q = debug_quoted(t.as_str());
            s.append(q.as_str());
            s.append(")");
        },
        None => {
            s.append("None");
        },
    }
    s.append("; treating as no verdict");
    s
}

/// The status a no-falsification run gives a candidate backed by `n`
/// concrete evidence items.
pub open spec fn no_falsification_status(n: nat) -> FindingStatus {
    if n > 0 {
        FindingStatus::Verified
    } else {
        FindingStatus::Uncertain
    }
}

/// The reason a no-falsification run gives.
pub open spec fn no_falsification_reason(n: nat) -> Seq<char> {
    if n > 0 {
        "ablation no-falsification: reported on "@ + decimal(n)
            + " evidence item(s),                          unadjudicated"@
    } else {
        "ablation no-falsification: investigation returned no evidence"@
    }
}

/// No-falsification: investigation still runs, but nothing adjudicates it.
/// Any candidate the investigation backed with concrete evidence is reported.
pub fn no_falsification_decision(evidence: &[Evidence]) -> (r: (FindingStatus, String))
    ensures
        r.0 == no_falsification_status(concrete_count(evidence@)),
        r.1@ == no_falsification_reason(concrete_count(evidence@)),
{
    let n = concrete_evidence_count(evidence);
    if n > 0 {
        let mut s = String::from_str("ablation no-falsification: reported on ");
        push_decimal(&mut s, n as u64);
        s.append(" evidence item(s),                          unadjudicated");
        (FindingStatus::Verified, s)
    } else {
        (
            FindingStatus::Uncertain,
            String::from_str("ablation no-falsification: investigation returned no evidence"),
        )
    }
}

/// Tool-call budget for a follow-up investigation. Smaller than the first
/// pass: it is aimed at one specific gap, not at exploring.
pub const FOLLOW_UP_TOOL_BUDGET: u32 = 4;

/// Whether an "Insufficient" judgment is fed back into one more, targeted
/// investigation: only when a follow-up is allowed and not ablated.
pub fn needs_follow_up(verification: Option<&VerificationResult>, max_followups: u32, ablation: Ablation) -> (b: bool)
    ensures
        b == (verification matches Some(v) && v.outcome == VerificationOutcome::Insufficient
            && max_followups > 0 && ablation != Ablation::NoFollowup),
{
    match verification {
        Some(v) => v.outcome == VerificationOutcome::Insufficient && max_followups > 0 && ablation
            != Ablation::NoFollowup,
        None => false,
    }
}

/// The budget of a follow-up pass: the first pass's, but at most
/// `FOLLOW_UP_TOOL_BUDGET`.
pub fn follow_up_budget(first: u32) -> (b: u32)
    ensures
        b == if first <= FOLLOW_UP_TOOL_BUDGET {
            first
        } else {
            FOLLOW_UP_TOOL_BUDGET
        },
{
    if first <= FOLLOW_UP_TOOL_BUDGET {
        first
    } else {
        FOLLOW_UP_TOOL_BUDGET
    }
}

/// The note before a follow-up investigation.
pub fn follow_up_note(candidate_id: &str) -> (r: String)
    ensures
        r@ == candidate_id@ + ": verification was Insufficient; re-investigating against the stated gap"@,
{
    let mut s = owned(candidate_id);
    s.append(": verification was Insufficient; re-investigating against the stated gap");
    s
}

/// The note when a follow-up investigation found nothing new.
pub fn follow_up_empty_note(candidate_id: &str) -> (r: String)
    ensures
        r@ == candidate_id@ + ": follow-up investigation found nothing further; keeping the original verdict"@,
{
    let mut s = owned(candidate_id);
    s.append(": follow-up investigation found nothing further; keeping the original verdict");
    s
}

// ---------------------------------------------------------------------------
// Investigation
// ---------------------------------------------------------------------------

/// What one investigation reply asks for.
#[derive(Debug)]
pub enum StepReply {
    /// The reply held no JSON.
    Unparseable,
    /// The model said it is done.
    Done,
    /// Neither done nor a tool named.
    NoTool,
    /// Run this tool.
    Tool(String),
}

/// What the driver does next in an investigation.
#[derive(Debug)]
pub enum InvestigationMove {
    /// Ask the model for the next step, with the history as it stands.
    Ask,
    /// Run the named tool under this id, then report the result back.
    Run { tool: String, tool_call_id: String },
    /// The investigation is over; record the note first, when there is one.
    Stop { note: Option<String> },
}

/// `m` stops the investigation, recording `note` first when there is one.
pub open spec fn stops_with(m: InvestigationMove, note: Option<Seq<char>>) -> bool {
    match m {
        InvestigationMove::Stop { note: n } => crate::tools::opt_text(n) == note,
        _ => false,
    }
}

/// `m` runs `tool` under the id `id`.
pub open spec fn runs(m: InvestigationMove, tool: String, id: Seq<char>) -> bool {
    match m {
        InvestigationMove::Run { tool: t, tool_call_id } => t == tool && tool_call_id@ == id,
        _ => false,
    }
}

/// An investigation of one candidate, one pass: the steps taken so far, the
/// history shown back to the model, and the evidence the tools returned.
#[derive(Debug)]
pub struct Investigation {
    pub candidate_id: String,
    /// `""` for the first pass, `"f"` for the follow-up.
    pub pass: String,
    pub budget: u32,
    pub step: u32,
    pub history: String,
    pub evidence: Vec<Evidence>,
    /// Set once the investigation has stopped.
    pub stopped: bool,
}

/// `<candidate>-<pass>t<n>`, the id of the `n`-th tool call of a pass.
pub open spec fn tool_call_id_of(candidate_id: Seq<char>, pass: Seq<char>, n: nat) -> Seq<char> {
    candidate_id + "-"@ + pass + "t"@ + decimal(n)
}

/// The history entry for one step.
pub open spec fn history_entry(n: nat, tool: Seq<char>, arguments: Seq<char>, response: Seq<char>) -> Seq<char> {
    "\n--- step "@ + decimal(n) + " : "@ + tool + " "@ + arguments + " ---\n"@ + response + "\n"@
}

impl Investigation {
    /// A new pass. The first pass starts from the seeded claimed region, when
    /// there is one; a follow-up starts from nothing.
    pub fn start(candidate_id: &str, pass: &str, budget: u32, seed: Option<Evidence>) -> (s: Self)
        ensures
            s.candidate_id@ == candidate_id@,
            s.pass@ == pass@,
            s.budget == budget,
            s.step == 0,
            s.history@.len() == 0,
            s.evidence@ == match seed {
                Some(e) => seq![e],
                None => Seq::<Evidence>::empty(),
            },
            s.stopped == (budget == 0),
    {
        let mut evidence: Vec<Evidence> = Vec::new();
        match seed {
            Some(e) => evidence.push(e),
            None => {},
        }
        Investigation {
            candidate_id: owned(candidate_id),
            pass: owned(pass),
            budget,
            step: 0,
            history: String::new(),
            evidence,
            stopped: budget == 0,
        }
    }

    /// What the model is shown as the history: the steps so far, or a
    /// placeholder before the first.
    pub fn history_text(&self) -> (s: &str)
        ensures
            self.history@.len() == 0 ==> s@ == "(nothing yet)"@,
            self.history@.len() > 0 ==> s@ == self.history@,
    {
        if self.history.as_str().unicode_len() == 0 {
            "(nothing yet)"
        } else {
            self.history.as_str()
        }
    }

    /// The request for the next step: the investigation stage, in JSON mode,
    /// with the system prompt for this pass's budget and the step message
    /// showing the history so far.
    pub fn request(
        &self,
        claim: &str,
        location: &str,
        question: &str,
        diff: &str,
        gap: Option<&str>,
        memory: Option<&str>,
    ) -> (r: LlmRequest)
        ensures
            r.stage == Stage::Investigate,
            r.json_mode,
            r.system@ == investigate_system_text(self.budget),
            r.user@ == investigate_user_text(
                claim@,
                location@,
                question@,
                diff@,
                if self.history@.len() == 0 {
                    "(nothing yet)"@
                } else {
                    self.history@
                },
                crate::prompts::opt_view(gap),
                crate::prompts::opt_view(memory),
            ),
    {
        let user = investigate_user(claim, location, question, diff, self.history_text(), gap, memory);
        LlmRequest { stage: Stage::Investigate, system: investigate_system(self.budget), user, json_mode: true }
    }

    /// The next move while nothing is pending: ask, unless the budget is
    /// spent or the investigation has stopped.
    pub fn next(&self) -> (m: InvestigationMove)
        ensures
            (self.stopped || self.step >= self.budget) ==> stops_with(m, None),
            !(self.stopped || self.step >= self.budget) ==> m is Ask,
    {
        if self.stopped || self.step >= self.budget {
            InvestigationMove::Stop { note: None }
        } else {
            InvestigationMove::Ask
        }
    }

    /// The model could not be reached: the investigation ends with what it has.
    pub fn on_failure(&mut self)
        ensures
            final(self).stopped,
            final(self).evidence == old(self).evidence,
            final(self).step == old(self).step,
            final(self).history == old(self).history,
    {
        self.stopped = true;
    }

    /// Decide on the model's reply to a step: stop (with a note when the
    /// reply was unusable), or run the tool it named. A tool is never run
    /// once the investigation has stopped or spent its budget.
    pub fn on_reply(&mut self, reply: StepReply) -> (m: InvestigationMove)
        requires
            old(self).step < u32::MAX,
        ensures
            final(self).evidence == old(self).evidence,
            final(self).step == old(self).step,
            final(self).history == old(self).history,
            final(self).candidate_id == old(self).candidate_id,
            final(self).pass == old(self).pass,
            final(self).budget == old(self).budget,
            (old(self).stopped || old(self).step >= old(self).budget) ==> stops_with(m, None)
                && final(self).stopped == old(self).stopped,
            m is Run ==> !old(self).stopped && old(self).step < old(self).budget,
            !(old(self).stopped || old(self).step >= old(self).budget) ==> match reply {
                StepReply::Unparseable => final(self).stopped && stops_with(
                    m,
                    Some(
                        "investigation step "@ + decimal((old(self).step + 1) as nat) + " for "@
                            + old(self).candidate_id@ + ": unparseable response, stopping"@,
                    ),
                ),
                StepReply::NoTool => final(self).stopped && stops_with(
                    m,
                    Some(
                        "investigation step "@ + decimal((old(self).step + 1) as nat) + " for "@
                            + old(self).candidate_id@ + ": no tool named and not done, stopping"@,
                    ),
                ),
                StepReply::Done => final(self).stopped && stops_with(m, None),
                StepReply::Tool(t) => final(self).stopped == old(self).stopped && runs(
                    m,
                    t,
                    tool_call_id_of(old(self).candidate_id@, old(self).pass@, (old(self).step + 1) as nat),
                ),
            },
    {
        if self.stopped || self.step >= self.budget {
            return InvestigationMove::Stop { note: None };
        }
        match reply {
            StepReply::Done => {
                self.stopped = true;
                InvestigationMove::Stop { note: None }
            },
            StepReply::Unparseable => {
                self.stopped = true;
                let mut n = String::from_str("investigation step ");
                push_decimal(&mut n, (self.step + 1) as u64);
                n.append(" for ");
                n.append(self.candidate_id.as_str());
                n.append(": unparseable response, stopping");
                InvestigationMove::Stop { note: Some(n) }
            },
            StepReply::NoTool => {
                self.stopped = true;
                let mut n = String::from_str("investigation step ");
                push_decimal(&mut n, (self.step + 1) as u64);
                n.append(" for ");
                n.append(self.candidate_id.as_str());
                n.append(": no tool named and not done, stopping");
                InvestigationMove::Stop { note: Some(n) }
            },
            StepReply::Tool(tool) => {
                let mut id = self.candidate_id.clone();
                id.append("-");
                id.append(self.pass.as_str());
                id.append("t");
                push_decimal(&mut id, (self.step + 1) as u64);
                InvestigationMove::Run { tool, tool_call_id: id }
            },
        }
    }

    /// Take a tool's result: its text goes into the history (refusals too, so
    /// the model can correct a bad path rather than repeat it), its evidence
    /// into the package, and the step is counted.
    pub fn on_tool_result(&mut self, tool: &str, arguments: &str, result: ToolResult)
        requires
            old(self).step < u32::MAX,
        ensures
            final(self).step == old(self).step + 1,
            final(self).history@ == old(self).history@ + history_entry(
                (old(self).step + 1) as nat,
                tool@,
                arguments@,
                result.text@,
            ),
            final(self).evidence@ == old(self).evidence@ + result.evidence@,
            final(self).stopped == old(self).stopped,
            final(self).candidate_id == old(self).candidate_id,
            final(self).pass == old(self).pass,
            final(self).budget == old(self).budget,
    {
        let n = self.step + 1;
        self.history.append("\n--- step ");
        push_decimal(&mut self.history, n as u64);
        self.history.append(" : ");
        self.history.append(tool);
        self.history.append(" ");
        self.history.append(arguments);
        self.history.append(" ---\n");
        self.history.append(result.text.as_str());
        self.history.append("\n");
        let mut more = result.evidence;
        self.evidence.append(&mut more);
        self.step = n;
    }
}

} // verus!
