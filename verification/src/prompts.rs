//! Prompt text, versioned.
//!
//! Every prompt has a version string that is written into the trajectory, so a
//! result can always be traced back to the exact instructions that produced
//! it. Change the text, bump the version.
//!
//! The baseline prompt is written to be good: it gets the same model, the same
//! task, the same JSON contract, the same view of the diff and changed files,
//! and an explicit instruction to avoid speculation. The only thing it does not
//! get is repository tools. The two arms differ in one instruction,
//! deliberately: the baseline is told that an empty answer is correct when the
//! code is sound, while the advanced agent is told to err toward proposing,
//! because its output is a worklist for an investigation stage.

use vstd::prelude::*;
use crate::finding::{IssueType, all_issue_types, issue_type_name};
use crate::text::{decimal, joined, push_decimal, push_joined};

verus! {

pub const BASELINE_REVIEW_V: &'static str = "baseline-review/v2";

pub const ADVANCED_REVIEW_V: &'static str = "advanced-review/v6";

pub const INVESTIGATE_V: &'static str = "advanced-investigate/v2";

pub const FALSIFY_V: &'static str = "advanced-falsify/v2";

pub const VERIFY_V: &'static str = "fresh-verify/v5";

/// The JSON contract both arms share, up to the list of issue types.
pub const SCHEMA_HEAD: &'static str = r#"Return JSON of exactly this shape and nothing else:

{
  "findings": [
    {
      "issue_type": "<one of the values below, spelled exactly>",
      "severity": "Low" | "Medium" | "High",
      "file": "<repository-relative path, forward slashes>",
      "start_line": <integer, 1-based, in the file's CURRENT state after the change>,
      "end_line": <integer, >= start_line>,
      "claim": "<one sentence stating precisely what is wrong>",
      "reasoning": "<why you believe it, 1-3 sentences>"
    }
  ]
}

Valid issue_type values:
"#;

/// How the baseline contract closes: an empty answer is a correct answer.
pub const BASELINE_CLOSING: &'static str = r#"If the change contains no real defect, return {"findings": []}. An empty
result is a correct answer when the code is sound."#;

/// How the advanced contract closes: under-proposing is the expensive mistake.
pub const ADVANCED_CLOSING: &'static str = r#"Return {"findings": []} only if there is genuinely nothing worth checking.

Under-proposing is the expensive mistake at this stage. Include a candidate
even when you suspect it is fine, and in particular whenever the code's
correctness depends on something you cannot see in the changed files — a
caller, a constructor, an invariant asserted in a comment, a value's origin.
Those are the candidates the investigation stage exists to settle, and it can
only settle the ones you raise."#;

/// How both agents are addressed, before the case language.
pub const SYSTEM_OPENING: &'static str = r#"You are an experienced "#;

/// The baseline instructions, after the case language.
pub const BASELINE_BODY: &'static str = r#" engineer examining a proposed change before it merges.

Report defects that are actually present in this change. For each one, give the
file and the line range in the file's current state, classify it, and state the
problem in one sentence.

Be precise and be selective:
- Report an issue only when you are confident the code is genuinely wrong.
- A pattern that merely looks risky is not a defect.
- Do not report style preferences, naming, formatting, or missing comments.
- Do not invent a defect to have something to say.

"#;

/// The advanced instructions, after the case language.
pub const ADVANCED_BODY: &'static str = r#" engineer examining a proposed change before it merges.

You are producing CANDIDATE findings, not final ones. Nothing you write here
reaches a human directly. Each candidate is investigated against the actual
repository and then independently adjudicated, and only what survives is
reported. A candidate that turns out to be wrong costs almost nothing. A real
defect you never raised is never checked at all.

So err toward proposing. Raise anything a careful engineer would want confirmed
before approving this change, including things you expect will turn out to be
fine.

- Anchor each candidate to a specific file and line range.
- State each claim as something that can actually happen, not as a
  conditional. Write "callers can reach this with an empty list, and it will
  panic", not "this will panic if the list is empty" — the second is true of
  the code whether or not the situation ever arises, so it cannot be
  disproved and is not a finding.
- State each claim as a single falsifiable sentence — something repository
  evidence could confirm or refute.
- Every candidate must name a consequence: what goes wrong, and for whom.
  Incorrect output, a panic, data loss, a violated contract, a security
  consequence, or a real cost at the scale this code runs at. If you cannot
  finish the sentence "and so the user gets...", it is not a candidate.
  Missing trait derives, a signature that is more fallible than it needs to
  be, and unused declarations are observations about the code, not defects —
  leave them out. The investigation stage can settle whether a claim is true;
  it cannot make a true triviality worth an engineer's time.
- Pay particular attention to anything whose correctness depends on facts that
  are not visible in the changed files. If the code is only correct given some
  assumption about the rest of the repository, that assumption is a candidate.
- Apply that concretely. Where this change calls something whose definition you
  cannot see here, ask what it must return or do for this code to be right, and
  raise that as a candidate stating the assumption. A guard is only as good as
  the thing it calls; a name suggests what a function does but does not
  establish it. This is the single most common way a change that looks correct
  in isolation turns out not to be, and it is precisely what the investigation
  stage can settle in one lookup.
- Do not report style preferences, naming, formatting, or missing comments.
- Avoid vague concerns such as "this looks fragile"; say what would go wrong.

"#;

/// Part 0 of the message carrying the change.
pub const REVIEW_USER_0: &'static str = r#"## Change under review

"#;

/// Part 1 of the message carrying the change.
pub const REVIEW_USER_1: &'static str = r#"

## Diff

```diff
"#;

/// Part 2 of the message carrying the change.
pub const REVIEW_USER_2: &'static str = r#"
```

## Current contents of the changed files

"#;

/// Instructions for writing the falsification question.
pub const FALSIFY_SYSTEM: &'static str = r#"You are helping test a code-review finding.

Given a claim about a defect, write the single most decisive question whose
answer would show the claim is WRONG. The question must be answerable by
inspecting the repository: callers, implementations, tests, configuration, or
type definitions.

Ask about the thing the claim actually depends on, not about the mechanism.
Whether a function panics on a bad input is usually not in doubt and can be
read off the body; whether anything ever hands it a bad input is the question.
So when a claim rests on how the code is used, ask about the call sites by
name.

Good: "Does every caller of parse_row check is_empty() before indexing?"
Bad:  "Does parse_row panic when the row is empty?"  (asks the mechanism)
Bad:  "Is this code correct?"                        (unanswerable)

Never make a comment the answer. If a doc comment already asserts the
precondition, the question is whether the callers honour it.

Return JSON of exactly this shape:

{"falsification_question": "<one question>"}"#;

/// Part 0 of the falsification request.
pub const FALSIFY_USER_0: &'static str = r#"Claim: "#;

/// Part 1 of the falsification request.
pub const FALSIFY_USER_1: &'static str = r#"
Location: "#;

/// Part 2 of the falsification request.
pub const FALSIFY_USER_2: &'static str = r#"
Author's reasoning: "#;

/// Part 3 of the falsification request.
pub const FALSIFY_USER_3: &'static str = r#"

What evidence would prove this claim wrong?"#;

/// Part 0 of the investigation instructions.
pub const INVESTIGATE_SYSTEM_0: &'static str = r#"You are investigating a code-review claim by inspecting the repository.

Your job is to gather the evidence that answers the falsification question —
evidence that could show the claim is wrong, not only evidence that supports it.
Actively look for the disproof.

You may issue up to "#;

/// Part 1 of the investigation instructions.
pub const INVESTIGATE_SYSTEM_1: &'static str = r#" tool calls in total. Each turn, either request
one tool call or declare the investigation complete.

Available tools:

  search      {"pattern": "<literal substring>", "glob": "<optional path filter, e.g. src/**/*.rs>"}
              Case-sensitive literal substring match, not a regular
              expression. Returns matching lines with file and line number.

  read        {"file": "<repository-relative path>", "start_line": <int>, "end_line": <int>}
              Returns the requested line range with line numbers.

  list_files  {}
              Returns every file path in the repository.

Return JSON of exactly this shape:

{
  "done": false,
  "tool": "search" | "read" | "list_files",
  "arguments": { ... },
  "rationale": "<what you expect this to tell you about the falsification question>"
}

or, when you have gathered what you need:

{ "done": true, "tool": null, "arguments": null, "rationale": "<what the evidence shows>" }

Stop as soon as the falsification question is answered either way. Do not spend
calls confirming something you have already established."#;

/// Part 0 of the section naming the gap a verdict left.
pub const GAP_SECTION_0: &'static str = r#"
## An independent check has already reviewed the evidence below

It could not settle the claim either way, and said this was missing:

> "#;

/// Part 1 of the section naming the gap a verdict left.
pub const GAP_SECTION_1: &'static str = r#"

Gather specifically what would close that gap. If you cannot, say so and stop
rather than collecting more of what has already proved insufficient.
"#;

/// Part 0 of the section listing earlier lookups.
pub const MEMORY_SECTION_0: &'static str = r#"
## Already looked up during this review

These are results of earlier tool calls on this repository, recorded so you do
not have to repeat them. They are lookups, not conclusions.

"#;

/// Part 1 of the section listing earlier lookups.
pub const MEMORY_SECTION_1: &'static str = r#"
"#;

/// Part 0 of the investigation step message.
pub const INVESTIGATE_USER_0: &'static str = r#"## Claim under investigation

"#;

/// Part 1 of the investigation step message.
pub const INVESTIGATE_USER_1: &'static str = r#"

Location: "#;

/// Part 2 of the investigation step message.
pub const INVESTIGATE_USER_2: &'static str = r#"

## Falsification question

"#;

/// Part 3 of the investigation step message.
pub const INVESTIGATE_USER_3: &'static str = r#"

## Diff that produced the claim

```diff
"#;

/// Part 4 of the investigation step message.
pub const INVESTIGATE_USER_4: &'static str = r#"
```
"#;

/// Part 6 of the investigation step message.
pub const INVESTIGATE_USER_6: &'static str = r#"
## Investigation so far

"#;

/// Part 7 of the investigation step message.
pub const INVESTIGATE_USER_7: &'static str = r#"

What is your next step?"#;

/// Instructions for the fresh-context verifier.
pub const VERIFY_SYSTEM: &'static str = r#"You are deciding whether a body of evidence establishes that a codebase has a real defect.

You did not write the claim and have no stake in it. Someone asserted it; your
task is to weigh the evidence.

Decide one of:

  "Supports"      - the evidence establishes a real defect, as claimed.
  "Contradicts"   - the evidence establishes that this is not a defect.
  "Insufficient"  - the evidence does not settle it either way.

Rules:
- Judge only from the evidence provided. Do not assume facts about code you
  were not shown.
- Absence of evidence is not evidence. If the excerpts do not cover what the
  claim depends on, the answer is "Insufficient", not "Supports".
- "Insufficient" is a perfectly good answer and is expected to be common.
- Quote the specific excerpts that decided it.

Weigh comments by whether the repository could check them:

- A comment asserting something the repository itself can settle — which
  callers exist, what they pass, whether a guard runs first, whether a
  constructor rejects a value — is a CLAIM, not evidence. It is exactly the
  kind of thing that is wrong when the code is wrong. "Callers check first"
  written above a function tells you what the author believed, not what the
  callers do. Go and look at the call sites; if the evidence asserts something
  about callers but contains no callers, that is "Insufficient", never
  "Contradicts". A documented precondition does not make violating it
  acceptable — the question is whether anything violates it.

- A comment stating a fact from outside the repository — a database column
  type, a wire-protocol constant, the size of production inputs, what a
  downstream consumer requires — is different. Nothing in the repository can
  confirm or refute it, and the people who wrote it knew things you do not.
  Treat it as the best available evidence and reason from it. Do not dismiss a
  finding merely because such a fact came from a comment rather than from
  code; that standard would make every claim about the real world
  unverifiable.

A true statement is not automatically a defect:

- You are judging the finding, not the sentence. Many claims are accurate
  descriptions of the code that identify nothing wrong with it: a type that
  does not derive a trait nobody needs, a function returning `Option` that
  never returns `None`, a name someone dislikes. Confirming the description is
  accurate does not make any of these a defect.
- Ask what goes wrong, and for whom. If the evidence does not show incorrect
  behaviour, a crash, data loss, a violated contract, a security consequence,
  or a real cost at the scale the code actually runs at, then this is not a
  defect and the answer is "Contradicts" — however accurate the claim is.
- Reporting a true triviality wastes human attention just as surely as
  reporting something false, so hold both to the same bar.

Reachability is part of the claim, not a separate question:

- Most claims depend on the code reaching some state — a collection being
  empty, a key being absent, a number being out of range, a caller passing a
  particular value. Confirming that the code WOULD misbehave in that state
  settles only half of it.
- Code that would misbehave in a state it can never actually be in is not a
  defect. If the evidence shows the state is prevented — by a constructor, a
  guard, a type, or an invariant every mutation preserves — then the evidence
  CONTRADICTS the claim, however faithfully the mechanism was described.
- So do not answer "Supports" merely because the described mechanism is real.
  Answer "Supports" only when the evidence also shows the triggering state is
  reachable. If the evidence settles the mechanism but leaves reachability
  open, that is "Insufficient".

Return JSON of exactly this shape:

{
  "outcome": "Supports" | "Contradicts" | "Insufficient",
  "rationale": "<2-4 sentences explaining what the evidence shows>",
  "decisive_evidence": ["<short quote or file:line reference>", ...]
}"#;

/// Part 0 of the verification request.
pub const VERIFY_USER_0: &'static str = r#"## Claim

"#;

/// Part 1 of the verification request.
pub const VERIFY_USER_1: &'static str = r#"

Stated location: "#;

/// Part 2 of the verification request.
pub const VERIFY_USER_2: &'static str = r#"

## Question the evidence was gathered to answer

"#;

/// Part 3 of the verification request.
pub const VERIFY_USER_3: &'static str = r#"

## Evidence gathered from the repository

"#;

/// Part 4 of the verification request.
pub const VERIFY_USER_4: &'static str = r#"

Does the evidence support the claim, contradict it, or leave it unsettled?"#;

/// The controlled taxonomy as prompt lines, `  - Name` each.
pub open spec fn issue_type_lines() -> Seq<Seq<char>> {
    all_issue_types().map_values(|t: IssueType| "  - "@ + issue_type_name(t))
}

/// The controlled taxonomy, rendered for a prompt.
pub fn issue_type_list() -> (s: String)
    ensures
        s@ == joined(issue_type_lines(), "\n"@),
{
    let all = IssueType::all();
    let mut out = String::new();
    let mut i: usize = 0;
    while i < all.len()
        invariant
            i <= all@.len(),
            all@ == all_issue_types(),
            out@ == joined(issue_type_lines().take(i as int), "\n"@),
        decreases all@.len() - i,
    {
        let mut line = String::from_str("  - ");
        line.append(all[i].as_str());
        let ghost done = issue_type_lines().take(i as int);
        assert(issue_type_lines().take(i + 1) =~= done.push(line@));
        push_joined(&mut out, Ghost(done), i == 0, "\n", line.as_str());
        i = i + 1;
    }
    assert(issue_type_lines().take(i as int) =~= issue_type_lines());
    out
}

/// The shared JSON contract, with the given closing.
pub open spec fn schema_text(closing: Seq<char>) -> Seq<char> {
    SCHEMA_HEAD@ + joined(issue_type_lines(), "\n"@) + "\n\n"@ + closing
}

fn finding_schema_with(closing: &str) -> (s: String)
    ensures
        s@ == schema_text(closing@),
{
    let mut s = String::from_str(SCHEMA_HEAD);
    let list = issue_type_list();
    s.append(list.as_str());
    s.append("\n\n");
    s.append(closing);
    s
}

/// The baseline's contract: an empty answer is a correct answer.
pub fn baseline_schema() -> (s: String)
    ensures
        s@ == schema_text(BASELINE_CLOSING@),
{
    finding_schema_with(BASELINE_CLOSING)
}

/// The advanced agent's contract: these are candidates, and under-proposing
/// is the expensive mistake.
pub fn advanced_schema() -> (s: String)
    ensures
        s@ == schema_text(ADVANCED_CLOSING@),
{
    finding_schema_with(ADVANCED_CLOSING)
}

/// The baseline's instructions for a case in `language`.
pub open spec fn baseline_system_text(language: Seq<char>) -> Seq<char> {
    SYSTEM_OPENING@ + language + BASELINE_BODY@ + schema_text(BASELINE_CLOSING@)
}

/// Baseline: one direct pass over the diff and the changed files.
pub fn baseline_system(language: &str) -> (s: String)
    ensures
        s@ == baseline_system_text(language@),
{
    let mut s = String::from_str(SYSTEM_OPENING);
    s.append(language);
    s.append(BASELINE_BODY);
    let schema = baseline_schema();
    s.append(schema.as_str());
    s
}

/// The advanced agent's instructions for a case in `language`.
pub open spec fn advanced_system_text(language: Seq<char>) -> Seq<char> {
    SYSTEM_OPENING@ + language + ADVANCED_BODY@ + schema_text(ADVANCED_CLOSING@)
}

/// Advanced agent: the same task, but findings are explicitly provisional
/// because an investigation stage follows.
pub fn advanced_system(language: &str) -> (s: String)
    ensures
        s@ == advanced_system_text(language@),
{
    let mut s = String::from_str(SYSTEM_OPENING);
    s.append(language);
    s.append(ADVANCED_BODY);
    let schema = advanced_schema();
    s.append(schema.as_str());
    s
}

/// The message carrying the change under examination.
pub open spec fn review_user_text(description: Seq<char>, diff: Seq<char>, file_context: Seq<char>) -> Seq<char> {
    REVIEW_USER_0@ + description + REVIEW_USER_1@ + diff + REVIEW_USER_2@ + file_context
}

/// User message carrying the change.
pub fn review_user(description: &str, diff: &str, file_context: &str) -> (s: String)
    ensures
        s@ == review_user_text(description@, diff@, file_context@),
{
    let mut s = String::from_str(REVIEW_USER_0);
    s.append(description);
    s.append(REVIEW_USER_1);
    s.append(diff);
    s.append(REVIEW_USER_2);
    s.append(file_context);
    s
}

/// Ask what evidence would disprove a candidate. Kept as its own call so the
/// question is fixed on the record before any verification happens.
pub fn falsify_system() -> (s: String)
    ensures
        s@ == FALSIFY_SYSTEM@,
{
    String::from_str(FALSIFY_SYSTEM)
}

/// The falsification request for one claim.
pub open spec fn falsify_user_text(claim: Seq<char>, location: Seq<char>, reasoning: Seq<char>) -> Seq<char> {
    FALSIFY_USER_0@ + claim + FALSIFY_USER_1@ + location + FALSIFY_USER_2@ + reasoning
        + FALSIFY_USER_3@
}

pub fn falsify_user(claim: &str, location: &str, reasoning: &str) -> (s: String)
    ensures
        s@ == falsify_user_text(claim@, location@, reasoning@),
{
    let mut s = String::from_str(FALSIFY_USER_0);
    s.append(claim);
    s.append(FALSIFY_USER_1);
    s.append(location);
    s.append(FALSIFY_USER_2);
    s.append(reasoning);
    s.append(FALSIFY_USER_3);
    s
}

/// The investigation instructions for a budget of `max_calls` tool calls.
pub open spec fn investigate_system_text(max_calls: u32) -> Seq<char> {
    INVESTIGATE_SYSTEM_0@ + decimal(max_calls as nat) + INVESTIGATE_SYSTEM_1@
}

/// Investigation: choose the next repository tool call, or stop.
pub fn investigate_system(max_calls: u32) -> (s: String)
    ensures
        s@ == investigate_system_text(max_calls),
{
    let mut s = String::from_str(INVESTIGATE_SYSTEM_0);
    push_decimal(&mut s, max_calls as u64);
    s.append(INVESTIGATE_SYSTEM_1);
    s
}

/// The section naming what an earlier verdict said was missing, if any.
pub open spec fn gap_section(gap: Option<Seq<char>>) -> Seq<char> {
    match gap {
        None => Seq::empty(),
        Some(g) => GAP_SECTION_0@ + g + GAP_SECTION_1@,
    }
}

/// The section listing lookups already made in this case, if any.
pub open spec fn memory_section(memory: Option<Seq<char>>) -> Seq<char> {
    match memory {
        None => Seq::empty(),
        Some(m) => MEMORY_SECTION_0@ + m + MEMORY_SECTION_1@,
    }
}

/// An optional string slice by its view.
pub open spec fn opt_view(o: Option<&str>) -> Option<Seq<char>> {
    match o {
        Some(s) => Some(s@),
        None => None,
    }
}

/// One investigation step's message.
pub open spec fn investigate_user_text(
    claim: Seq<char>,
    location: Seq<char>,
    question: Seq<char>,
    diff: Seq<char>,
    history: Seq<char>,
    gap: Option<Seq<char>>,
    memory: Option<Seq<char>>,
) -> Seq<char> {
    INVESTIGATE_USER_0@ + claim + INVESTIGATE_USER_1@ + location + INVESTIGATE_USER_2@ + question
        + INVESTIGATE_USER_3@ + diff + INVESTIGATE_USER_4@ + gap_section(gap) + memory_section(
        memory,
    ) + INVESTIGATE_USER_6@ + history + INVESTIGATE_USER_7@
}

/// The message for one investigation step. `gap` is what an independent
/// check said it could not settle; `memory` is the lookups already made for
/// other candidates in this case.
pub fn investigate_user(
    claim: &str,
    location: &str,
    falsification_question: &str,
    diff: &str,
    history: &str,
    gap: Option<&str>,
    memory: Option<&str>,
) -> (s: String)
    ensures
        s@ == investigate_user_text(
            claim@,
            location@,
            falsification_question@,
            diff@,
            history@,
            opt_view(gap),
            opt_view(memory),
        ),
{
    let mut s = String::from_str(INVESTIGATE_USER_0);
    s.append(claim);
    s.append(INVESTIGATE_USER_1);
    s.append(location);
    s.append(INVESTIGATE_USER_2);
    s.append(falsification_question);
    s.append(INVESTIGATE_USER_3);
    s.append(diff);
    s.append(INVESTIGATE_USER_4);
    match gap {
        Some(g) => {
            s.append(GAP_SECTION_0);
            s.append(g);
            s.append(GAP_SECTION_1);
        },
        None => {},
    }
    match memory {
        Some(m) => {
            s.append(MEMORY_SECTION_0);
            s.append(m);
            s.append(MEMORY_SECTION_1);
        },
        None => {},
    }
    s.append(INVESTIGATE_USER_6);
    s.append(history);
    s.append(INVESTIGATE_USER_7);
    s
}

/// Fresh-context verifier. Written as if the reader has never seen the
/// earlier stages: it receives the claim and the collected evidence, and
/// nothing else.
pub fn verify_system() -> (s: String)
    ensures
        s@ == VERIFY_SYSTEM@,
{
    String::from_str(VERIFY_SYSTEM)
}

/// The verification request.
pub open spec fn verify_user_text(claim: Seq<char>, location: Seq<char>, question: Seq<char>, evidence: Seq<char>) -> Seq<char> {
    VERIFY_USER_0@ + claim + VERIFY_USER_1@ + location + VERIFY_USER_2@ + question + VERIFY_USER_3@
        + evidence + VERIFY_USER_4@
}

pub fn verify_user(claim: &str, location: &str, question: &str, evidence: &str) -> (s: String)
    ensures
        s@ == verify_user_text(claim@, location@, question@, evidence@),
{
    let mut s = String::from_str(VERIFY_USER_0);
    s.append(claim);
    s.append(VERIFY_USER_1);
    s.append(location);
    s.append(VERIFY_USER_2);
    s.append(question);
    s.append(VERIFY_USER_3);
    s.append(evidence);
    s.append(VERIFY_USER_4);
    s
}

} // verus!
