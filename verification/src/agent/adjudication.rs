//! Taking one candidate from proposal to final status.
//!
//! Falsification question, investigation, fresh-context verification, at most
//! one follow-up investigation when the verifier says the evidence is
//! insufficient, then the evidence gate. Every candidate of a run, first pass
//! or not, goes through this same machine: a finding that reached a report by
//! a shorter route would not mean the same thing.
//!
//! The machine decides; the program that drives it asks the model, runs the
//! investigations and checks the filesystem, and hands each result back.

use vstd::prelude::*;
use crate::agent::advanced::{concrete_count, decide, decided_reason, decided_status};
use crate::agent::flow::{
    candidates_only_finding, candidates_only_reason, follow_up_budget, follow_up_note,
    follow_up_empty_note, needs_follow_up, no_falsification_decision, no_falsification_reason,
    no_falsification_status, question_from_reply,
};
use crate::config::Ablation;
use crate::finding::{
    same_verification, CandidateFinding, Evidence, Finding, FindingStatus, VerificationOutcome,
    VerificationResult,
};
use crate::trajectory::TrajectoryEvent;
use crate::text::owned;

verus! {

/// Where an adjudication stands.
#[derive(Debug, Clone, Copy, PartialEq, Eq, Structural)]
pub enum Stage {
    /// Waiting for the falsification question.
    Question,
    /// Waiting for the first investigation's evidence.
    Investigating,
    /// Waiting for the first verification.
    Verifying,
    /// Waiting for the follow-up investigation's evidence.
    FollowingUp,
    /// Waiting for the verification of the fuller evidence package.
    Reverifying,
    /// Waiting to learn whether the claimed location is a file.
    Locating,
    /// Decided.
    Done,
}

/// What the driver does next.
#[derive(Debug)]
pub enum Next {
    /// Ask for a falsification question; report what the model proposed.
    AskQuestion,
    /// Investigate with this budget, seeding the claimed region on the first
    /// pass only, steered by the gap when there is one; report the evidence.
    Investigate { pass: String, budget: u32, seed_claimed_region: bool, gap: Option<String> },
    /// Ask the fresh-context verifier; report its judgment, if any.
    Verify,
    /// Check whether the claimed location is a file in the repository.
    Locate,
    /// The candidate is decided.
    Finished(Finding),
}

/// One candidate's adjudication.
#[derive(Debug)]
pub struct Adjudication {
    pub candidate: CandidateFinding,
    pub question: String,
    pub evidence: Vec<Evidence>,
    pub verification: Option<VerificationResult>,
    pub stage: Stage,
    pub ablation: Ablation,
    pub first_budget: u32,
    pub max_followups: u32,
}

/// The events that record the evidence package as it now stands.
fn evidence_copy(v: &Vec<Evidence>) -> (r: Vec<Evidence>)
    ensures
        r@ == v@,
{
    let mut r: Vec<Evidence> = Vec::new();
    let mut i: usize = 0;
    while i < v.len()
        invariant
            i <= v@.len(),
            r@ == v@.take(i as int),
        decreases v@.len() - i,
    {
        r.push(v[i].clone());
        assert(r@ =~= v@.take(i + 1));
        i = i + 1;
    }
    assert(v@.take(i as int) =~= v@);
    r
}

fn verification_copy(v: &VerificationResult) -> (r: VerificationResult)
    ensures
        r.outcome == v.outcome,
        r.rationale == v.rationale,
        r.decisive_evidence@ == v.decisive_evidence@,
{
    v.clone()
}

/// `e` records the evidence package `ev` of candidate `id`.
pub open spec fn records_evidence(e: TrajectoryEvent, id: Seq<char>, ev: Seq<Evidence>) -> bool {
    match e {
        TrajectoryEvent::EvidenceAssembled { candidate_id, evidence } => candidate_id@ == id && evidence@ == ev,
        _ => false,
    }
}

/// `e` records a decision on candidate `id`.
pub open spec fn records_decision(e: TrajectoryEvent, id: Seq<char>, status: FindingStatus, reason: Seq<char>) -> bool {
    match e {
        TrajectoryEvent::Decision { candidate_id, status: s, reason: r } => candidate_id@ == id && s == status && r@ == reason,
        _ => false,
    }
}

/// `e` is the note `text`.
pub open spec fn is_note(e: TrajectoryEvent, text: Seq<char>) -> bool {
    match e {
        TrajectoryEvent::Note { note } => note@ == text,
        _ => false,
    }
}

/// An "Insufficient" judgment, when a follow-up is allowed and not ablated.
pub open spec fn sends_back(verification: Option<VerificationResult>, max_followups: u32, ablation: Ablation) -> bool {
    match verification {
        Some(v) => v.outcome == VerificationOutcome::Insufficient && max_followups > 0 && ablation
            != Ablation::NoFollowup,
        None => false,
    }
}

/// The view of an optional text.
pub open spec fn opt_view(o: Option<String>) -> Option<Seq<char>> {
    match o {
        Some(s) => Some(s@),
        None => None,
    }
}

/// `n` finishes with this finding: the candidate, question, evidence and
/// verdict it was decided on, and the status and reason it was given.
pub open spec fn finishes_as(
    n: Next,
    candidate: CandidateFinding,
    question: Seq<char>,
    evidence: Seq<Evidence>,
    verification: Option<VerificationResult>,
    status: FindingStatus,
    reason: Seq<char>,
) -> bool {
    match n {
        Next::Finished(f) => f.candidate == candidate && f.falsification_question@ == question
            && f.evidence@ == evidence && same_verification(f.verification, verification) && f.status
            == status && f.status_reason@ == reason,
        _ => false,
    }
}

/// `n` is an investigation pass named `pass` with this budget, seeding and
/// gap.
pub open spec fn investigates(n: Next, pass: Seq<char>, budget: u32, seeded: bool, gap: Option<Seq<char>>) -> bool {
    match n {
        Next::Investigate { pass: p, budget: b, seed_claimed_region, gap: g } => p@ == pass && b == budget
            && seed_claimed_region == seeded && opt_view(g) == gap,
        _ => false,
    }
}

/// `e` records the verifier's judgment `v` on candidate `id`.
pub open spec fn records_verification(e: TrajectoryEvent, id: Seq<char>, v: VerificationResult) -> bool {
    match e {
        TrajectoryEvent::Verification { candidate_id, result } => candidate_id@ == id && result.outcome
            == v.outcome && result.rationale@ == v.rationale@ && result.decisive_evidence@
            == v.decisive_evidence@,
        _ => false,
    }
}

impl Adjudication {
    /// Begin adjudicating a candidate. Candidates-only runs decide at once:
    /// reported as produced, which is what the advanced prompt alone is worth.
    pub fn start(candidate: CandidateFinding, ablation: Ablation, first_budget: u32, max_followups: u32) -> (r: (
        Adjudication,
        Next,
        Vec<TrajectoryEvent>,
    ))
        ensures
            r.0.candidate == candidate,
            r.0.ablation == ablation,
            r.0.first_budget == first_budget,
            r.0.max_followups == max_followups,
            ablation == Ablation::CandidatesOnly ==> {
                &&& r.0.stage == Stage::Done
                &&& finishes_as(
                    r.1,
                    candidate,
                    Seq::<char>::empty(),
                    Seq::<Evidence>::empty(),
                    None,
                    FindingStatus::Verified,
                    "ablation candidates-only"@,
                )
                &&& r.2@.len() == 1
                &&& records_decision(r.2@[0], candidate.id@, FindingStatus::Verified, candidates_only_reason())
            },
            ablation != Ablation::CandidatesOnly ==> r.0.stage == Stage::Question && r.1 is AskQuestion
                && r.2@.len() == 0,
    {
        let mut events: Vec<TrajectoryEvent> = Vec::new();
        if ablation == Ablation::CandidatesOnly {
            let (f, reason) = candidates_only_finding(candidate.clone());
            assert(f.falsification_question@ =~= Seq::<char>::empty());
            assert(f.evidence@ =~= Seq::<Evidence>::empty());
            events.push(
                TrajectoryEvent::Decision {
                    candidate_id: candidate.id.clone(),
                    status: FindingStatus::Verified,
                    reason,
                },
            );
            let a = Adjudication {
                candidate,
                question: String::new(),
                evidence: Vec::new(),
                verification: None,
                stage: Stage::Done,
                ablation,
                first_budget,
                max_followups,
            };
            return (a, Next::Finished(f), events);
        }
        let a = Adjudication {
            candidate,
            question: String::new(),
            evidence: Vec::new(),
            verification: None,
            stage: Stage::Question,
            ablation,
            first_budget,
            max_followups,
        };
        (a, Next::AskQuestion, events)
    }

    /// The falsification question is fixed, on the record, before any
    /// evidence is gathered; then the first investigation runs with the full
    /// budget and the claimed region seeded.
    pub fn on_question(&mut self, proposed: Option<&str>) -> (r: (Next, Vec<TrajectoryEvent>))
        requires
            old(self).stage == Stage::Question,
        ensures
            final(self).stage == Stage::Investigating,
            final(self).question@ == match proposed {
                Some(p) if crate::text::trim(p@).len() > 0 => crate::text::trim(p@),
                _ => "What evidence in this repository would show that the following claim is false: "@
                    + old(self).candidate.claim@,
            },
            final(self).candidate == old(self).candidate,
            final(self).evidence == old(self).evidence,
            final(self).ablation == old(self).ablation,
            final(self).first_budget == old(self).first_budget,
            final(self).max_followups == old(self).max_followups,
            investigates(r.0, Seq::<char>::empty(), old(self).first_budget, true, None),
            r.1@.len() == 1,
            match r.1@[0] {
                TrajectoryEvent::FalsificationQuestion { candidate_id, question } => candidate_id@
                    == old(self).candidate.id@ && question@ == final(self).question@,
                _ => false,
            },
    {
        let q = question_from_reply(proposed, &self.candidate);
        let mut events: Vec<TrajectoryEvent> = Vec::new();
        events.push(
            TrajectoryEvent::FalsificationQuestion {
                candidate_id: self.candidate.id.clone(),
                question: q.clone(),
            },
        );
        self.question = q;
        self.stage = Stage::Investigating;
        (
            Next::Investigate {
                pass: String::new(),
                budget: self.first_budget,
                seed_claimed_region: true,
                gap: None,
            },
            events,
        )
    }

    /// The first investigation's evidence. Without falsification it is
    /// decided on that evidence alone; otherwise it goes to the verifier.
    pub fn on_evidence(&mut self, evidence: Vec<Evidence>) -> (r: (Next, Vec<TrajectoryEvent>))
        requires
            old(self).stage == Stage::Investigating,
        ensures
            final(self).evidence == evidence,
            final(self).candidate == old(self).candidate,
            final(self).question == old(self).question,
            final(self).ablation == old(self).ablation,
            final(self).first_budget == old(self).first_budget,
            final(self).max_followups == old(self).max_followups,
            r.1@.len() >= 1,
            records_evidence(r.1@[0], old(self).candidate.id@, evidence@),
            old(self).ablation == Ablation::NoFalsification ==> {
                let n = concrete_count(evidence@);
                &&& final(self).stage == Stage::Done
                &&& finishes_as(
                    r.0,
                    old(self).candidate,
                    old(self).question@,
                    evidence@,
                    None,
                    no_falsification_status(n),
                    no_falsification_reason(n),
                )
                &&& r.1@.len() == 2
                &&& records_decision(
                    r.1@[1],
                    old(self).candidate.id@,
                    no_falsification_status(n),
                    no_falsification_reason(n),
                )
            },
            old(self).ablation != Ablation::NoFalsification ==> final(self).stage == Stage::Verifying
                && r.0 is Verify && r.1@.len() == 1,
    {
        let mut events: Vec<TrajectoryEvent> = Vec::new();
        events.push(
            TrajectoryEvent::EvidenceAssembled {
                candidate_id: self.candidate.id.clone(),
                evidence: evidence_copy(&evidence),
            },
        );
        self.evidence = evidence;
        if self.ablation == Ablation::NoFalsification {
            let (status, reason) = no_falsification_decision(self.evidence.as_slice());
            events.push(
                TrajectoryEvent::Decision {
                    candidate_id: self.candidate.id.clone(),
                    status,
                    reason: reason.clone(),
                },
            );
            self.stage = Stage::Done;
            let f = Finding {
                candidate: self.candidate.clone(),
                falsification_question: self.question.clone(),
                evidence: evidence_copy(&self.evidence),
                verification: None,
                status,
                status_reason: reason,
            };
            return (Next::Finished(f), events);
        }
        self.stage = Stage::Verifying;
        (Next::Verify, events)
    }

    /// A verifier's judgment. The first one, when "Insufficient", is a
    /// statement of what is missing and sends the investigation back once,
    /// with a smaller budget and the stated gap; otherwise, and after the
    /// second, what remains is to check the location.
    pub fn on_verification(&mut self, verification: Option<VerificationResult>) -> (r: (Next, Vec<TrajectoryEvent>))
        requires
            old(self).stage == Stage::Verifying || old(self).stage == Stage::Reverifying,
        ensures
            final(self).verification == verification,
            final(self).candidate == old(self).candidate,
            final(self).question == old(self).question,
            final(self).evidence == old(self).evidence,
            final(self).ablation == old(self).ablation,
            final(self).first_budget == old(self).first_budget,
            final(self).max_followups == old(self).max_followups,
            r.1@.len() >= 1 <==> (verification is Some || (r.0 is Investigate)),
            r.1@.len() <= 2,
            verification matches Some(v) ==> records_verification(r.1@[0], old(self).candidate.id@, v),
            ({
                let follow = old(self).stage == Stage::Verifying && sends_back(
                    verification,
                    old(self).max_followups,
                    old(self).ablation,
                );
                &&& follow ==> final(self).stage == Stage::FollowingUp && investigates(
                    r.0,
                    "f"@,
                    if old(self).first_budget <= 4 {
                        old(self).first_budget
                    } else {
                        4
                    },
                    false,
                    Some(verification->0.rationale@),
                ) && is_note(
                    r.1@[r.1@.len() - 1],
                    old(self).candidate.id@
                        + ": verification was Insufficient; re-investigating against the stated gap"@,
                )
                &&& !follow ==> final(self).stage == Stage::Locating && r.0 is Locate && r.1@.len() == (
                if verification is Some {
                    1int
                } else {
                    0int
                })
                &&& follow ==> r.1@.len() == 2
            }),
    {
        let mut events: Vec<TrajectoryEvent> = Vec::new();
        match &verification {
            Some(v) => {
                events.push(
                    TrajectoryEvent::Verification {
                        candidate_id: self.candidate.id.clone(),
                        result: verification_copy(v),
                    },
                );
            },
            None => {},
        }
        let first = self.stage == Stage::Verifying;
        let follow = first && needs_follow_up(verification.as_ref(), self.max_followups, self.ablation);
        self.verification = verification;
        if follow {
            let gap = match &self.verification {
                Some(v) => v.rationale.clone(),
                None => String::new(),
            };
            events.push(TrajectoryEvent::Note { note: follow_up_note(self.candidate.id.as_str()) });
            self.stage = Stage::FollowingUp;
            return (
                Next::Investigate {
                    pass: owned("f"),
                    budget: follow_up_budget(self.first_budget),
                    seed_claimed_region: false,
                    gap: Some(gap),
                },
                events,
            );
        }
        self.stage = Stage::Locating;
        (Next::Locate, events)
    }

    /// The follow-up's evidence. Nothing new keeps the original judgment;
    /// anything new joins the package, which is verified afresh.
    pub fn on_follow_up_evidence(&mut self, extra: Vec<Evidence>) -> (r: (Next, Vec<TrajectoryEvent>))
        requires
            old(self).stage == Stage::FollowingUp,
        ensures
            final(self).candidate == old(self).candidate,
            final(self).question == old(self).question,
            final(self).verification == old(self).verification,
            final(self).ablation == old(self).ablation,
            final(self).first_budget == old(self).first_budget,
            final(self).max_followups == old(self).max_followups,
            r.1@.len() == 1,
            extra@.len() == 0 ==> {
                &&& final(self).evidence == old(self).evidence
                &&& final(self).stage == Stage::Locating
                &&& r.0 is Locate
                &&& is_note(
                    r.1@[0],
                    old(self).candidate.id@
                        + ": follow-up investigation found nothing further; keeping the original verdict"@,
                )
            },
            extra@.len() > 0 ==> {
                &&& final(self).evidence@ == old(self).evidence@ + extra@
                &&& final(self).stage == Stage::Reverifying
                &&& r.0 is Verify
                &&& records_evidence(r.1@[0], old(self).candidate.id@, final(self).evidence@)
            },
    {
        let mut events: Vec<TrajectoryEvent> = Vec::new();
        if extra.len() == 0 {
            events.push(TrajectoryEvent::Note { note: follow_up_empty_note(self.candidate.id.as_str()) });
            self.stage = Stage::Locating;
            return (Next::Locate, events);
        }
        let mut more = extra;
        self.evidence.append(&mut more);
        events.push(
            TrajectoryEvent::EvidenceAssembled {
                candidate_id: self.candidate.id.clone(),
                evidence: evidence_copy(&self.evidence),
            },
        );
        self.stage = Stage::Reverifying;
        (Next::Verify, events)
    }

    /// Whether the claimed location is a file decides the last gate; then the
    /// evidence gate of `decide` gives the status. Rust assigns it, not the
    /// model.
    pub fn on_location(&mut self, location_is_file: bool) -> (r: (Next, Vec<TrajectoryEvent>))
        requires
            old(self).stage == Stage::Locating,
        ensures
            final(self).stage == Stage::Done,
            ({
                let status = decided_status(
                    location_is_file,
                    old(self).verification,
                    concrete_count(old(self).evidence@),
                );
                let reason = decided_reason(
                    old(self).candidate.location.file@,
                    location_is_file,
                    old(self).verification,
                    concrete_count(old(self).evidence@),
                );
                &&& finishes_as(
                    r.0,
                    old(self).candidate,
                    old(self).question@,
                    old(self).evidence@,
                    old(self).verification,
                    status,
                    reason,
                )
                &&& r.1@.len() == 1
                &&& records_decision(r.1@[0], old(self).candidate.id@, status, reason)
            }),
    {
        let (status, reason) = decide(
            &self.candidate,
            self.evidence.as_slice(),
            self.verification.as_ref(),
            location_is_file,
        );
        let mut events: Vec<TrajectoryEvent> = Vec::new();
        events.push(
            TrajectoryEvent::Decision {
                candidate_id: self.candidate.id.clone(),
                status,
                reason: reason.clone(),
            },
        );
        self.stage = Stage::Done;
        let f = Finding {
            candidate: self.candidate.clone(),
            falsification_question: self.question.clone(),
            evidence: evidence_copy(&self.evidence),
            verification: match &self.verification {
                Some(v) => Some(verification_copy(v)),
                None => None,
            },
            status,
            status_reason: reason,
        };
        (Next::Finished(f), events)
    }
}

} // verus!
