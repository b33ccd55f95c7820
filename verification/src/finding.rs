//! Structured finding schema.
//!
//! The same `IssueType` enum is used by predictions and by ground truth so
//! that evaluation can be deterministic. Free-form semantic matching is
//! deliberately avoided.

use vstd::prelude::*;
use crate::text::{
    decimal, has_prefix, push_char, push_decimal, push_range, chars_of, string_of, push_str,
};

verus! {

/// Controlled issue taxonomy. Shared by predictions and ground truth.
///
/// Any value outside this set is rejected at parse time rather than coerced,
/// so that a model inventing a category shows up as a malformed response
/// instead of silently becoming an unmatchable prediction.
#[derive(Debug, Clone, Copy, PartialEq, Eq, Hash, Structural)]
pub enum IssueType {
    Correctness,
    ErrorHandling,
    Validation,
    StateManagement,
    ResourceManagement,
    Concurrency,
    ApiContract,
    Testing,
    Performance,
}

/// The name of an issue type, as it is spelled in prompts and JSON.
pub open spec fn issue_type_name(t: IssueType) -> Seq<char> {
    match t {
        IssueType::Correctness => "Correctness"@,
        IssueType::ErrorHandling => "ErrorHandling"@,
        IssueType::Validation => "Validation"@,
        IssueType::StateManagement => "StateManagement"@,
        IssueType::ResourceManagement => "ResourceManagement"@,
        IssueType::Concurrency => "Concurrency"@,
        IssueType::ApiContract => "ApiContract"@,
        IssueType::Testing => "Testing"@,
        IssueType::Performance => "Performance"@,
    }
}

/// Every issue type, in taxonomy order.
pub open spec fn all_issue_types() -> Seq<IssueType> {
    seq![
        IssueType::Correctness,
        IssueType::ErrorHandling,
        IssueType::Validation,
        IssueType::StateManagement,
        IssueType::ResourceManagement,
        IssueType::Concurrency,
        IssueType::ApiContract,
        IssueType::Testing,
        IssueType::Performance,
    ]
}

impl IssueType {
    /// Every issue type, in taxonomy order.
    pub fn all() -> (v: Vec<IssueType>)
        ensures
            v@ == all_issue_types(),
    {
        let v = vec![
            IssueType::Correctness,
            IssueType::ErrorHandling,
            IssueType::Validation,
            IssueType::StateManagement,
            IssueType::ResourceManagement,
            IssueType::Concurrency,
            IssueType::ApiContract,
            IssueType::Testing,
            IssueType::Performance,
        ];
        assert(v@ =~= all_issue_types());
        v
    }

    pub fn as_str(&self) -> (s: &'static str)
        ensures
            s@ == issue_type_name(*self),
    {
        match self {
            IssueType::Correctness => "Correctness",
            IssueType::ErrorHandling => "ErrorHandling",
            IssueType::Validation => "Validation",
            IssueType::StateManagement => "StateManagement",
            IssueType::ResourceManagement => "ResourceManagement",
            IssueType::Concurrency => "Concurrency",
            IssueType::ApiContract => "ApiContract",
            IssueType::Testing => "Testing",
            IssueType::Performance => "Performance",
        }
    }
}

#[derive(Debug, Clone, Copy, PartialEq, Eq, Structural)]
pub enum Severity {
    Low,
    Medium,
    High,
}

/// A location in the reviewed repository.
///
/// `file` is always a repository-relative POSIX-style path. Line numbers are
/// 1-based and inclusive on both ends.
#[derive(Debug)]
pub struct Location {
    pub file: String,
    pub start_line: u32,
    pub end_line: u32,
}

impl Clone for Location {
    fn clone(&self) -> (r: Self)
        ensures
            r == *self,
    {
        Location { file: self.file.clone(), start_line: self.start_line, end_line: self.end_line }
    }
}

/// Backslashes turned into forward slashes.
pub open spec fn slashes_forward(s: Seq<char>) -> Seq<char> {
    s.map_values(|c: char| if c == '\\' { '/' } else { c })
}

/// Number of leading `c` characters of `s`.
pub open spec fn leading_run(s: Seq<char>, c: char) -> nat
    decreases s.len(),
{
    if s.len() > 0 && s[0] == c {
        1 + leading_run(s.drop_first(), c)
    } else {
        0
    }
}

/// `s` with one leading `./` removed, if present.
pub open spec fn strip_dot_slash(s: Seq<char>) -> Seq<char> {
    if has_prefix(s, seq!['.', '/']) {
        s.skip(2)
    } else {
        s
    }
}

/// A path normalized for comparison: backslashes become forward slashes, one
/// leading `./` is removed, then every leading `/`.
pub open spec fn normalized(p: Seq<char>) -> Seq<char> {
    let a = strip_dot_slash(slashes_forward(p));
    a.skip(leading_run(a, '/') as int)
}

proof fn lemma_leading_run(s: Seq<char>, c: char, i: int)
    requires
        0 <= i <= s.len(),
        forall|j: int| 0 <= j < i ==> #[trigger] s[j] == c,
        i == s.len() || s[i] != c,
    ensures
        leading_run(s, c) == i,
    decreases i,
{
    if i > 0 {
        let t = s.drop_first();
        assert forall|j: int| 0 <= j < i - 1 implies #[trigger] t[j] == c by {
            assert(t[j] == s[j + 1]);
        }
        if i - 1 < t.len() {
            assert(t[i - 1] == s[i]);
        }
        lemma_leading_run(t, c, i - 1);
    }
}

/// Normalize a path for comparison: backslashes to forward slashes, strip a
/// leading `./`, then any leading `/`. Ground truth and predictions are
/// compared as strings, so both sides go through this.
pub fn normalize_path(p: &str) -> (r: String)
    ensures
        r@ == normalized(p@),
{
    let v = chars_of(p);
    let mut w: Vec<char> = Vec::new();
    let mut i: usize = 0;
    while i < v.len()
        invariant
            i <= v.len(),
            v@ == p@,
            w@ == slashes_forward(v@.take(i as int)),
        decreases v.len() - i,
    {
        if v[i] == '\\' {
            w.push('/');
        } else {
            w.push(v[i]);
        }
        i = i + 1;
        assert(slashes_forward(v@.take(i as int)) =~= slashes_forward(v@.take(i - 1)).push(
            if v@[i - 1] == '\\' {
                '/'
            } else {
                v@[i - 1]
            },
        ));
    }
    assert(v@.take(v.len() as int) =~= v@);
    let ghost f = slashes_forward(p@);
    let mut start: usize = 0;
    if w.len() >= 2 && w[0] == '.' && w[1] == '/' {
        start = 2;
        assert(f.take(2) =~= seq!['.', '/']);
    } else {
        proof {
            if f.len() >= 2 {
                assert(f.take(2)[0] == f[0]);
                assert(f.take(2)[1] == f[1]);
                assert(f.take(2) != seq!['.', '/']);
            }
        }
    }
    let ghost a = strip_dot_slash(f);
    assert(a =~= w@.skip(start as int));
    let mut k = start;
    while k < w.len() && w[k] == '/'
        invariant
            start <= k <= w.len(),
            forall|j: int| start <= j < k ==> w@[j] == '/',
        decreases w.len() - k,
    {
        k = k + 1;
    }
    proof {
        assert forall|j: int| 0 <= j < k - start implies #[trigger] a[j] == '/' by {
            assert(a[j] == w@[start + j]);
        }
        if k < w.len() {
            assert(a[k - start] == w@[k as int]);
        }
        lemma_leading_run(a, '/', k - start);
        assert(a.skip(k - start) =~= w@.subrange(k as int, w.len() as int));
    }
    string_of(&w, k, w.len())
}

/// How a location is written: `file:line` or `file:start-end`.
pub open spec fn location_text(file: Seq<char>, start: u32, end: u32) -> Seq<char> {
    if start == end {
        file + seq![':'] + decimal(start as nat)
    } else {
        file + seq![':'] + decimal(start as nat) + seq!['-'] + decimal(end as nat)
    }
}

/// Appends `file:line` or `file:start-end`.
pub fn push_location(out: &mut String, file: &str, start: u32, end: u32)
    ensures
        final(out)@ == old(out)@ + location_text(file@, start, end),
{
    push_str(out, file);
    push_char(out, ':');
    push_decimal(out, start as u64);
    if start != end {
        push_char(out, '-');
        push_decimal(out, end as u64);
    }
    assert(final(out)@ =~= old(out)@ + location_text(file@, start, end)) by {
        assert(old(out)@ + location_text(file@, start, end) =~= if start == end {
            old(out)@ + file@ + seq![':'] + decimal(start as nat)
        } else {
            old(out)@ + file@ + seq![':'] + decimal(start as nat) + seq!['-'] + decimal(
                end as nat,
            )
        });
    }
}

impl Location {
    pub fn new(file: &str, start_line: u32, end_line: u32) -> (l: Self)
        ensures
            l.file@ == normalized(file@),
            l.start_line == if start_line <= end_line {
                start_line
            } else {
                end_line
            },
            l.end_line == if start_line <= end_line {
                end_line
            } else {
                start_line
            },
    {
        let (start_line, end_line) = if start_line <= end_line {
            (start_line, end_line)
        } else {
            (end_line, start_line)
        };
        Location { file: normalize_path(file), start_line, end_line }
    }

    /// True when the two line ranges overlap once `tolerance` lines of slack
    /// are added to each end of `self`. Files must match exactly.
    pub fn overlaps(&self, other: &Location, tolerance: u32) -> (b: bool)
        ensures
            b == overlaps_spec(*self, *other, tolerance),
    {
        if self.file != other.file {
            return false;
        }
        let lo = self.start_line.saturating_sub(tolerance);
        let hi = self.end_line.saturating_add(tolerance);
        lo <= other.end_line && other.start_line <= hi
    }

    /// `file:line` or `file:start-end`.
    pub fn to_string(&self) -> (s: String)
        ensures
            s@ == location_text(self.file@, self.start_line, self.end_line),
    {
        let mut s = String::new();
        push_location(&mut s, self.file.as_str(), self.start_line, self.end_line);
        s
    }
}

/// The overlap test of `Location::overlaps`, over integers: the slack
/// saturates at 0 below and at `u32::MAX` above.
pub open spec fn overlaps_spec(a: Location, b: Location, tolerance: u32) -> bool {
    overlaps_with(a, b.file@, b.start_line, b.end_line, tolerance)
}

/// `overlaps_spec` against a location given by its parts.
pub open spec fn overlaps_with(a: Location, file: Seq<char>, start: u32, end: u32, tolerance: u32) -> bool {
    let lo = if a.start_line >= tolerance {
        a.start_line - tolerance
    } else {
        0
    };
    let hi = if a.end_line + tolerance <= u32::MAX {
        a.end_line + tolerance
    } else {
        u32::MAX as int
    };
    a.file@ == file && lo <= end && start <= hi
}

/// What the agent proposes before any investigation has happened.
#[derive(Debug)]
pub struct CandidateFinding {
    pub id: String,
    pub issue_type: IssueType,
    pub severity: Severity,
    pub location: Location,
    /// One-sentence assertion about what is wrong. This is the thing that gets
    /// falsified.
    pub claim: String,
    /// Why the agent believes the claim.
    pub reasoning: String,
}

impl Clone for CandidateFinding {
    fn clone(&self) -> (r: Self)
        ensures
            r == *self,
    {
        CandidateFinding {
            id: self.id.clone(),
            issue_type: self.issue_type,
            severity: self.severity,
            location: self.location.clone(),
            claim: self.claim.clone(),
            reasoning: self.reasoning.clone(),
        }
    }
}

/// The kind of repository artifact an evidence item points at.
#[derive(Debug, Clone, Copy, PartialEq, Eq, Structural)]
pub enum EvidenceKind {
    /// Result of a repository search.
    Search,
    /// A bounded read of a file region.
    FileRegion,
    /// A hunk of the reviewed diff.
    DiffHunk,
    /// A listing of repository paths.
    FileList,
}

/// A concrete, repository-grounded piece of evidence.
///
/// Evidence is produced by the repository tools, never by the model. The
/// model may request a tool call and interpret the result, but it cannot
/// author an `Evidence` value.
#[derive(Debug)]
pub struct Evidence {
    pub kind: EvidenceKind,
    /// Repository-relative path, when the evidence is anchored to one file.
    pub file: Option<String>,
    pub start_line: Option<u32>,
    pub end_line: Option<u32>,
    /// The symbol or pattern that produced this evidence, when applicable.
    pub symbol: Option<String>,
    /// Verbatim excerpt from the repository. Never model-authored prose.
    pub excerpt: String,
    /// Which tool call produced it, for trajectory cross-referencing.
    pub tool_call_id: String,
}

pub fn clone_opt_string(o: &Option<String>) -> (r: Option<String>)
    ensures
        r == *o,
{
    match o {
        Some(s) => Some(s.clone()),
        None => None,
    }
}

impl Clone for Evidence {
    fn clone(&self) -> (r: Self)
        ensures
            r == *self,
    {
        Evidence {
            kind: self.kind,
            file: clone_opt_string(&self.file),
            start_line: self.start_line,
            end_line: self.end_line,
            symbol: clone_opt_string(&self.symbol),
            excerpt: self.excerpt.clone(),
            tool_call_id: self.tool_call_id.clone(),
        }
    }
}

/// Outcome of the fresh-context falsification step.
#[derive(Debug, Clone, Copy, PartialEq, Eq, Structural)]
pub enum VerificationOutcome {
    /// Evidence supports the claim.
    Supports,
    /// Evidence contradicts the claim.
    Contradicts,
    /// Evidence is inconclusive either way.
    Insufficient,
}

/// Final classification of a finding.
#[derive(Debug, Clone, Copy, PartialEq, Eq, Structural)]
pub enum FindingStatus {
    /// Supported by concrete evidence. Reported to the human.
    Verified,
    /// Contradicted by concrete evidence. Reported in the "investigated and
    /// cleared" section, not as a finding.
    Rejected,
    /// Neither supported nor contradicted, or evidence was too thin to decide.
    Uncertain,
}

impl FindingStatus {
    /// Only `Verified` findings count as predictions in the primary metric.
    /// `Uncertain` is deliberately excluded: surfacing an unverified guess as a
    /// finding is the failure mode this project exists to reduce.
    pub fn is_reported(&self) -> (b: bool)
        ensures
            b == (*self == FindingStatus::Verified),
    {
        match self {
            FindingStatus::Verified => true,
            _ => false,
        }
    }
}

/// The verifier's judgment, produced in a fresh context.
#[derive(Debug)]
pub struct VerificationResult {
    pub outcome: VerificationOutcome,
    /// The verifier's stated reason. Recorded for the trajectory; it does not
    /// substitute for evidence.
    pub rationale: String,
    /// Evidence ids/excerpts the verifier says were decisive.
    pub decisive_evidence: Vec<String>,
}

impl Clone for VerificationResult {
    fn clone(&self) -> (r: Self)
        ensures
            r.outcome == self.outcome,
            r.rationale == self.rationale,
            r.decisive_evidence@ == self.decisive_evidence@,
    {
        VerificationResult {
            outcome: self.outcome,
            rationale: self.rationale.clone(),
            decisive_evidence: self.decisive_evidence.clone(),
        }
    }
}

/// A candidate that has been through investigation and falsification.
#[derive(Debug)]
pub struct Finding {
    pub candidate: CandidateFinding,
    /// "What evidence would prove this finding wrong?" — formulated before the
    /// verification step runs.
    pub falsification_question: String,
    pub evidence: Vec<Evidence>,
    pub verification: Option<VerificationResult>,
    pub status: FindingStatus,
    /// Why the orchestrator assigned this status.
    pub status_reason: String,
}

/// Two optional verdicts say the same thing: both absent, or the same
/// outcome, rationale and decisive evidence.
pub open spec fn same_verification(a: Option<VerificationResult>, b: Option<VerificationResult>) -> bool {
    match a {
        None => b is None,
        Some(x) => match b {
            Some(y) => x.outcome == y.outcome && x.rationale == y.rationale && x.decisive_evidence@
                == y.decisive_evidence@,
            None => false,
        },
    }
}

impl Clone for Finding {
    fn clone(&self) -> (r: Self)
        ensures
            r.candidate == self.candidate,
            r.falsification_question == self.falsification_question,
            r.evidence@ == self.evidence@,
            same_verification(r.verification, self.verification),
            r.status == self.status,
            r.status_reason == self.status_reason,
    {
        let evidence = self.evidence.clone();
        assert(evidence@ =~= self.evidence@);
        Finding {
            candidate: self.candidate.clone(),
            falsification_question: self.falsification_question.clone(),
            evidence,
            verification: match &self.verification {
                Some(v) => Some(v.clone()),
                None => None,
            },
            status: self.status,
            status_reason: self.status_reason.clone(),
        }
    }
}

/// Files the investigation read and cited, other than the anchor's own, in
/// the order they were first cited and without repeats. Only evidence the
/// investigation retrieved (a search hit or a file region) counts.
pub open spec fn related_files_of(evidence: Seq<Evidence>, anchor: Seq<char>) -> Seq<Seq<char>>
    decreases evidence.len(),
{
    if evidence.len() == 0 {
        Seq::empty()
    } else {
        let init = related_files_of(evidence.drop_last(), anchor);
        let e = evidence.last();
        if (e.kind == EvidenceKind::Search || e.kind == EvidenceKind::FileRegion) && e.file is Some
            && e.file->0@ != anchor && !init.contains(e.file->0@) {
            init.push(e.file->0@)
        } else {
            init
        }
    }
}

impl Finding {
    /// Wrap a candidate that never went through investigation (baseline path).
    pub fn from_candidate_unverified(candidate: CandidateFinding) -> (f: Self)
        ensures
            f.candidate == candidate,
            f.falsification_question@ == Seq::<char>::empty(),
            f.evidence@ == Seq::<Evidence>::empty(),
            f.verification is None,
            f.status == FindingStatus::Verified,
            f.status_reason@ == "baseline: reported as produced, no verification stage"@,
    {
        Finding {
            candidate,
            falsification_question: String::new(),
            evidence: Vec::new(),
            verification: None,
            status: FindingStatus::Verified,
            status_reason: String::from_str("baseline: reported as produced, no verification stage"),
        }
    }

    /// The files, other than the one the finding is anchored in, that the
    /// investigation read and cited. The anchor says where to start; these say
    /// what makes it wrong.
    pub fn related_files(&self) -> (r: Vec<String>)
        ensures
            r@.map_values(|s: String| s@) == related_files_of(
                self.evidence@,
                self.candidate.location.file@,
            ),
    {
        let mut r: Vec<String> = Vec::new();
        let mut i: usize = 0;
        while i < self.evidence.len()
            invariant
                i <= self.evidence.len(),
                r@.map_values(|s: String| s@) == related_files_of(
                    self.evidence@.take(i as int),
                    self.candidate.location.file@,
                ),
            decreases self.evidence.len() - i,
        {
            let e = &self.evidence[i];
            let ghost before = r@.map_values(|s: String| s@);
            assert(self.evidence@.take(i + 1).drop_last() =~= self.evidence@.take(i as int));
            if e.kind == EvidenceKind::Search || e.kind == EvidenceKind::FileRegion {
                if let Some(f) = &e.file {
                    if *f != self.candidate.location.file {
                        let mut seen = false;
                        let mut j: usize = 0;
                        while j < r.len()
                            invariant
                                j <= r.len(),
                                before == r@.map_values(|s: String| s@),
                                seen == (exists|k: int| 0 <= k < j && r@[k]@ == f@),
                            decreases r.len() - j,
                        {
                            if r[j] == *f {
                                seen = true;
                            }
                            j = j + 1;
                        }
                        proof {
                            if seen {
                                let k = choose|k: int| 0 <= k < j && r@[k]@ == f@;
                                assert(before[k] == f@);
                            } else {
                                assert forall|k: int| 0 <= k < before.len() implies before[k]
                                    != f@ by {
                                    assert(before[k] == r@[k]@);
                                }
                            }
                        }
                        if !seen {
                            r.push(f.clone());
                            assert(r@.map_values(|s: String| s@) =~= before.push(f@));
                        }
                    }
                }
            }
            i = i + 1;
        }
        assert(self.evidence@.take(self.evidence.len() as int) =~= self.evidence@);
        r
    }
}

} // verus!
