//! Trajectory logging.
//!
//! One trajectory per (case, agent) execution. Events are recorded in order,
//! with the full prompt text, and the counters a reader sees at the top of a
//! trajectory are kept equal to what its events say.
//!
//! Nothing here ever records credentials: prompts are constructed from case
//! material only, and any provider error text is scrubbed before storage.

use vstd::prelude::*;
use crate::config::{ablation_name, Ablation};
use crate::finding::{CandidateFinding, Evidence, Finding, FindingStatus, VerificationResult};
use crate::llm::{LlmResponse, Stage, Usage};
use crate::text::{chars_of, has_prefix, owned, push_range, starts_with_range};

verus! {

/// Which system produced this trajectory.
#[derive(Debug, Clone, Copy, PartialEq, Eq, Structural)]
pub enum AgentKind {
    /// Direct single-pass review. The fair baseline.
    Baseline,
    /// Repository-aware investigation plus fresh-context falsification.
    Advanced,
}

pub open spec fn agent_name(a: AgentKind) -> Seq<char> {
    match a {
        AgentKind::Baseline => "baseline"@,
        AgentKind::Advanced => "advanced"@,
    }
}

impl AgentKind {
    pub fn as_str(&self) -> (s: &'static str)
        ensures
            s@ == agent_name(*self),
    {
        match self {
            AgentKind::Baseline => "baseline",
            AgentKind::Advanced => "advanced",
        }
    }
}

/// A single step, in execution order.
#[derive(Debug)]
pub enum TrajectoryEvent {
    /// A prompt was sent and a response came back.
    LlmCall {
        stage: Stage,
        prompt_version: String,
        system: String,
        user: String,
        response_text: String,
        usage: Usage,
        latency_ms: u64,
        /// Attempts including the successful one; > 1 means a retry happened.
        attempts: u32,
    },
    /// A request failed permanently after retries.
    LlmFailure { stage: Stage, prompt_version: String, error: String, attempts: u32 },
    /// The agent proposed a candidate finding.
    CandidateProposed { candidate: CandidateFinding },
    /// A repository tool ran on behalf of the agent.
    ToolCall {
        tool_call_id: String,
        candidate_id: String,
        tool: String,
        arguments: serde_json::Value,
        /// Verbatim tool output.
        response: String,
        /// False when the tool refused (bad path, no matches, limit hit).
        ok: bool,
        duration_ms: u64,
    },
    /// The falsification question for a candidate was fixed.
    FalsificationQuestion { candidate_id: String, question: String },
    /// The evidence package handed to the fresh verifier.
    EvidenceAssembled { candidate_id: String, evidence: Vec<Evidence> },
    /// The fresh-context verifier's judgment.
    Verification { candidate_id: String, result: VerificationResult },
    /// The orchestrator's final classification, and why.
    Decision { candidate_id: String, status: FindingStatus, reason: String },
    /// A point where a human must act. The system never proceeds past a
    /// consequential action on its own.
    HumanCheckpoint { note: String },
    /// Free-text note from the orchestrator.
    Note { note: String },
}

/// Requests an event stands for: one per call, failed or not.
pub open spec fn llm_calls_in(e: TrajectoryEvent) -> nat {
    match e {
        TrajectoryEvent::LlmCall { .. } => 1,
        TrajectoryEvent::LlmFailure { .. } => 1,
        _ => 0,
    }
}

/// Attempts beyond the first that an event stands for.
pub open spec fn retries_in(e: TrajectoryEvent) -> nat {
    match e {
        TrajectoryEvent::LlmCall { attempts, .. } => if attempts >= 1 {
            (attempts - 1) as nat
        } else {
            0
        },
        TrajectoryEvent::LlmFailure { attempts, .. } => if attempts >= 1 {
            (attempts - 1) as nat
        } else {
            0
        },
        _ => 0,
    }
}

/// Tool runs an event stands for.
pub open spec fn tool_calls_in(e: TrajectoryEvent) -> nat {
    match e {
        TrajectoryEvent::ToolCall { .. } => 1,
        _ => 0,
    }
}

/// Tokens an event stands for, as (input, output, total).
pub open spec fn tokens_in(e: TrajectoryEvent) -> (nat, nat, nat) {
    match e {
        TrajectoryEvent::LlmCall { usage, .. } => (
            usage.input_tokens as nat,
            usage.output_tokens as nat,
            usage.total_tokens as nat,
        ),
        _ => (0, 0, 0),
    }
}

/// The four tallies a trajectory keeps, summed over `es`: requests, retries,
/// tool runs, and tokens.
pub open spec fn tally(es: Seq<TrajectoryEvent>) -> (nat, nat, nat, (nat, nat, nat))
    decreases es.len(),
{
    if es.len() == 0 {
        (0, 0, 0, (0, 0, 0))
    } else {
        let t = tally(es.drop_last());
        let e = es.last();
        (
            t.0 + llm_calls_in(e),
            t.1 + retries_in(e),
            t.2 + tool_calls_in(e),
            (t.3.0 + tokens_in(e).0, t.3.1 + tokens_in(e).1, t.3.2 + tokens_in(e).2),
        )
    }
}

/// What one (case, agent) execution did, in order.
///
/// The run configuration and the cost estimate travel beside it; this is the
/// part whose contents the library reasons about.
#[derive(Debug)]
pub struct Trajectory {
    pub trajectory_id: String,
    pub case_id: String,
    pub agent: AgentKind,
    pub model: String,
    pub started_at: String,
    pub finished_at: Option<String>,
    /// Which part of the pipeline the run disabled, if any.
    pub ablation: Ablation,
    pub events: Vec<TrajectoryEvent>,
    pub final_findings: Vec<Finding>,
    pub usage: Usage,
    pub runtime_ms: u64,
    pub llm_calls: u32,
    pub tool_calls: u32,
    /// Extra attempts beyond the first, summed across calls.
    pub retries: u32,
}

impl Trajectory {
    /// The counters say what the events say.
    pub open spec fn wf(&self) -> bool {
        let t = tally(self.events@);
        &&& self.llm_calls == t.0
        &&& self.retries == t.1
        &&& self.tool_calls == t.2
        &&& self.usage.input_tokens == t.3.0
        &&& self.usage.output_tokens == t.3.1
        &&& self.usage.total_tokens == t.3.2
    }

    /// `e` can be counted without any counter passing its type's bound.
    pub open spec fn has_room_for(&self, e: TrajectoryEvent) -> bool {
        &&& self.llm_calls + llm_calls_in(e) <= u32::MAX
        &&& self.retries + retries_in(e) <= u32::MAX
        &&& self.tool_calls + tool_calls_in(e) <= u32::MAX
        &&& self.usage.input_tokens + tokens_in(e).0 <= u64::MAX
        &&& self.usage.output_tokens + tokens_in(e).1 <= u64::MAX
        &&& self.usage.total_tokens + tokens_in(e).2 <= u64::MAX
    }

    /// An empty trajectory. The id and the start time come from the caller:
    /// one is random and the other is the clock's.
    pub fn new(
        trajectory_id: String,
        case_id: &str,
        agent: AgentKind,
        model: &str,
        started_at: String,
        ablation: Ablation,
    ) -> (t: Self)
        ensures
            t.wf(),
            t.trajectory_id == trajectory_id,
            t.case_id@ == case_id@,
            t.agent == agent,
            t.model@ == model@,
            t.started_at == started_at,
            t.finished_at is None,
            t.ablation == ablation,
            t.events@.len() == 0,
            t.final_findings@.len() == 0,
            t.runtime_ms == 0,
    {
        let t = Trajectory {
            trajectory_id,
            case_id: owned(case_id),
            agent,
            model: owned(model),
            started_at,
            finished_at: None,
            ablation,
            events: Vec::new(),
            final_findings: Vec::new(),
            usage: Usage { input_tokens: 0, output_tokens: 0, total_tokens: 0 },
            runtime_ms: 0,
            llm_calls: 0,
            tool_calls: 0,
            retries: 0,
        };
        assert(t.events@ =~= Seq::<TrajectoryEvent>::empty());
        t
    }

    /// Append an event, counting what it stands for.
    pub fn push(&mut self, event: TrajectoryEvent)
        requires
            old(self).wf(),
            old(self).has_room_for(event),
        ensures
            final(self).wf(),
            final(self).events@ == old(self).events@.push(event),
            final(self).trajectory_id == old(self).trajectory_id,
            final(self).case_id == old(self).case_id,
            final(self).agent == old(self).agent,
            final(self).model == old(self).model,
            final(self).started_at == old(self).started_at,
            final(self).finished_at == old(self).finished_at,
            final(self).ablation == old(self).ablation,
            final(self).final_findings == old(self).final_findings,
            final(self).runtime_ms == old(self).runtime_ms,
    {
        match &event {
            TrajectoryEvent::LlmCall { usage, attempts, .. } => {
                self.llm_calls = self.llm_calls + 1;
                self.retries = self.retries + attempts.saturating_sub(1);
                self.usage.add(usage);
            },
            TrajectoryEvent::LlmFailure { attempts, .. } => {
                self.llm_calls = self.llm_calls + 1;
                self.retries = self.retries + attempts.saturating_sub(1);
            },
            TrajectoryEvent::ToolCall { .. } => {
                self.tool_calls = self.tool_calls + 1;
            },
            _ => {},
        }
        let ghost before = self.events@;
        self.events.push(event);
        assert(self.events@.drop_last() =~= before);
    }

    /// Record a successful request together with the prompt that produced it.
    pub fn record_call(
        &mut self,
        stage: Stage,
        prompt_version: &str,
        system: &str,
        user: &str,
        resp: &LlmResponse,
    )
        requires
            old(self).wf(),
            old(self).llm_calls < u32::MAX,
            old(self).retries + resp.attempts - 1 <= u32::MAX,
            old(self).usage.input_tokens + resp.usage.input_tokens <= u64::MAX,
            old(self).usage.output_tokens + resp.usage.output_tokens <= u64::MAX,
            old(self).usage.total_tokens + resp.usage.total_tokens <= u64::MAX,
        ensures
            final(self).wf(),
            final(self).events@.len() == old(self).events@.len() + 1,
            final(self).events@.drop_last() == old(self).events@,
            match final(self).events@.last() {
                TrajectoryEvent::LlmCall {
                    stage: s,
                    prompt_version: v,
                    system: sy,
                    user: u,
                    response_text: r,
                    usage,
                    latency_ms,
                    attempts,
                } => s == stage && v@ == prompt_version@ && sy@ == system@ && u@ == user@ && r
                    == resp.text && usage == resp.usage && latency_ms == resp.latency_ms
                    && attempts == resp.attempts,
                _ => false,
            },
    {
        self.push(
            TrajectoryEvent::LlmCall {
                stage,
                prompt_version: owned(prompt_version),
                system: owned(system),
                user: owned(user),
                response_text: resp.text.clone(),
                usage: resp.usage,
                latency_ms: resp.latency_ms,
                attempts: resp.attempts,
            },
        );
    }

    /// Record a request that failed for good; the error text is scrubbed.
    pub fn record_failure(&mut self, stage: Stage, prompt_version: &str, error: &str, attempts: u32)
        requires
            old(self).wf(),
            old(self).llm_calls < u32::MAX,
            old(self).retries + attempts - 1 <= u32::MAX,
        ensures
            final(self).wf(),
            final(self).events@.len() == old(self).events@.len() + 1,
            final(self).events@.drop_last() == old(self).events@,
            match final(self).events@.last() {
                TrajectoryEvent::LlmFailure { stage: s, prompt_version: v, error: e, attempts: a } => s
                    == stage && v@ == prompt_version@ && e@ == scrubbed(error@) && a == attempts,
                _ => false,
            },
    {
        self.push(
            TrajectoryEvent::LlmFailure {
                stage,
                prompt_version: owned(prompt_version),
                error: scrub(error),
                attempts,
            },
        );
    }

    /// Close the trajectory with its findings and how long it ran.
    pub fn finish(&mut self, findings: Vec<Finding>, runtime_ms: u64, finished_at: String)
        ensures
            final(self).final_findings == findings,
            final(self).runtime_ms == runtime_ms,
            final(self).finished_at == Some(finished_at),
            final(self).events == old(self).events,
            final(self).llm_calls == old(self).llm_calls,
            final(self).tool_calls == old(self).tool_calls,
            final(self).retries == old(self).retries,
            final(self).usage == old(self).usage,
            final(self).case_id == old(self).case_id,
            final(self).agent == old(self).agent,
            final(self).ablation == old(self).ablation,
    {
        self.final_findings = findings;
        self.runtime_ms = runtime_ms;
        self.finished_at = Some(finished_at);
    }

    /// The experimental arm this trajectory belongs to: the agent, plus the
    /// ablation when one is active. An ablation run and a full run share an
    /// agent, so files are named after the arm, not the agent alone.
    pub fn arm(&self) -> (s: String)
        ensures
            s@ == agent_name(self.agent) + if self.ablation == Ablation::Full {
                Seq::<char>::empty()
            } else {
                "-"@ + ablation_name(self.ablation)
            },
    {
        let mut s = owned(self.agent.as_str());
        let suffix = self.ablation.suffix();
        s.append(suffix.as_str());
        s
    }
}

impl Trajectory {
    /// The file a trajectory is written to: `<case>-<arm>.json`.
    pub fn file_name(&self) -> (s: String)
        ensures
            s@ == self.case_id@ + "-"@ + agent_name(self.agent) + if self.ablation == Ablation::Full {
                Seq::<char>::empty()
            } else {
                "-"@ + ablation_name(self.ablation)
            } + ".json"@,
    {
        let mut s = self.case_id.clone();
        s.append("-");
        let arm = self.arm();
        s.append(arm.as_str());
        s.append(".json");
        s
    }
}

// ---------------------------------------------------------------------------
// Scrubbing
// ---------------------------------------------------------------------------

/// A character a long opaque token is made of.
pub open spec fn token_char(c: char) -> bool {
    ||| ('a' <= c && c <= 'z')
    ||| ('A' <= c && c <= 'Z')
    ||| ('0' <= c && c <= '9')
    ||| c == '_'
    ||| c == '-'
}

/// Whether a whitespace-free word looks like a credential: a known key or
/// token prefix, or more than 40 characters of letters, digits, `_` and `-`.
pub open spec fn looks_secret(w: Seq<char>) -> bool {
    ||| has_prefix(w, "AIza"@)
    ||| has_prefix(w, "ya29."@)
    ||| has_prefix(w, "sk-"@)
    ||| (w.len() > 40 && forall|i: int| 0 <= i < w.len() ==> token_char(#[trigger] w[i]))
}

/// Length of the run of non-whitespace characters `s` starts with.
pub open spec fn word_len(s: Seq<char>) -> nat
    decreases s.len(),
{
    if s.len() == 0 || crate::text::is_ws(s[0]) {
        0
    } else {
        1 + word_len(s.skip(1))
    }
}

/// One token of the text as it is written back: a credential-looking word
/// becomes `[REDACTED]`, followed by a space where the word was followed by
/// whitespace; anything else is kept as it was, whitespace included.
pub open spec fn token_out(word: Seq<char>, ws: Option<char>) -> Seq<char> {
    if looks_secret(word) {
        "[REDACTED]"@ + match ws {
            Some(_) => " "@,
            None => Seq::<char>::empty(),
        }
    } else {
        match ws {
            Some(c) => word.push(c),
            None => word,
        }
    }
}

/// `s` with every credential-looking whitespace-separated word redacted.
pub open spec fn scrubbed(s: Seq<char>) -> Seq<char>
    decreases s.len(),
{
    if s.len() == 0 {
        Seq::empty()
    } else {
        let k = word_len(s);
        if k < s.len() {
            token_out(s.take(k as int), Some(s[k as int])) + scrubbed(s.skip(k as int + 1))
        } else {
            token_out(s, None)
        }
    }
}

proof fn lemma_word_len(s: Seq<char>, m: int)
    requires
        0 <= m <= s.len(),
        forall|i: int| 0 <= i < m ==> !crate::text::is_ws(#[trigger] s[i]),
        m == s.len() || crate::text::is_ws(s[m]),
    ensures
        word_len(s) == m,
    decreases m,
{
    if m > 0 {
        assert(!crate::text::is_ws(s[0]));
        lemma_word_len(s.skip(1), m - 1);
    }
}

proof fn lemma_word_len_bound(s: Seq<char>)
    ensures
        word_len(s) <= s.len(),
    decreases s.len(),
{
    if s.len() > 0 && !crate::text::is_ws(s[0]) {
        lemma_word_len_bound(s.skip(1));
    }
}

/// Whether `v[lo..hi]` looks like a credential.
fn looks_secret_range(v: &Vec<char>, lo: usize, hi: usize) -> (b: bool)
    requires
        lo <= hi <= v.len(),
    ensures
        b == looks_secret(v@.subrange(lo as int, hi as int)),
{
    let ghost w = v@.subrange(lo as int, hi as int);
    let a = vec!['A', 'I', 'z', 'a'];
    let y = vec!['y', 'a', '2', '9', '.'];
    let k = vec!['s', 'k', '-'];
    proof {
        reveal_strlit("AIza");
        reveal_strlit("ya29.");
        reveal_strlit("sk-");
        assert(a@ =~= "AIza"@);
        assert(y@ =~= "ya29."@);
        assert(k@ =~= "sk-"@);
    }
    if starts_with_range(v, lo, hi, &a) || starts_with_range(v, lo, hi, &y) || starts_with_range(
        v,
        lo,
        hi,
        &k,
    ) {
        return true;
    }
    if hi - lo <= 40 {
        return false;
    }
    let mut i: usize = lo;
    while i < hi
        invariant
            lo <= i <= hi <= v.len(),
            w == v@.subrange(lo as int, hi as int),
            !has_prefix(w, "AIza"@) && !has_prefix(w, "ya29."@) && !has_prefix(w, "sk-"@),
            hi - lo > 40,
            forall|j: int| 0 <= j < i - lo ==> token_char(#[trigger] w[j]),
        decreases hi - i,
    {
        let c = v[i];
        let ok = ('a' <= c && c <= 'z') || ('A' <= c && c <= 'Z') || ('0' <= c && c <= '9') || c
            == '_' || c == '-';
        if !ok {
            assert(!token_char(w[i - lo]));
            return false;
        }
        i = i + 1;
    }
    true
}

/// Remove anything that looks like a credential from text bound for disk.
///
/// Prompts are built from case material and never contain secrets; this
/// guards the one path that could — provider error bodies echoing a header.
pub fn scrub(s: &str) -> (r: String)
    ensures
        r@ == scrubbed(s@),
{
    let v = chars_of(s);
    let mut out = String::new();
    let mut pos: usize = 0;
    assert(v@.skip(0) =~= v@);
    assert(out@ + scrubbed(v@) =~= scrubbed(v@));
    while pos < v.len()
        invariant
            pos <= v.len(),
            v@ == s@,
            out@ + scrubbed(v@.skip(pos as int)) == scrubbed(v@),
        decreases v.len() - pos,
    {
        let ghost rest = v@.skip(pos as int);
        let mut j: usize = pos;
        while j < v.len() && !crate::text::is_whitespace(v[j])
            invariant
                pos <= j <= v.len(),
                rest == v@.skip(pos as int),
                forall|i: int| pos <= i < j ==> !crate::text::is_ws(#[trigger] v@[i]),
            decreases v.len() - j,
        {
            j = j + 1;
        }
        proof {
            lemma_word_len(rest, j - pos);
            assert(rest.take(j - pos) =~= v@.subrange(pos as int, j as int));
        }
        let secret = looks_secret_range(&v, pos, j);
        if j < v.len() {
            proof {
                assert(rest[j - pos] == v@[j as int]);
                assert(rest.skip(j - pos + 1) =~= v@.skip(j + 1));
            }
            if secret {
                out.append("[REDACTED] ");
                proof {
                    reveal_strlit("[REDACTED] ");
                    reveal_strlit("[REDACTED]");
                    reveal_strlit(" ");
                    assert("[REDACTED] "@ =~= "[REDACTED]"@ + " "@);
                }
            } else {
                push_range(&mut out, &v, pos, j + 1);
                assert(v@.subrange(pos as int, j + 1) =~= v@.subrange(pos as int, j as int).push(
                    v@[j as int],
                ));
            }
            assert(out@ + scrubbed(v@.skip(j + 1)) == scrubbed(v@)) by {
                assert(scrubbed(rest) == token_out(rest.take(j - pos), Some(rest[j - pos]))
                    + scrubbed(rest.skip(j - pos + 1)));
            }
            pos = j + 1;
        } else {
            if secret {
                out.append("[REDACTED]");
            } else {
                push_range(&mut out, &v, pos, j);
            }
            proof {
                assert(rest =~= v@.subrange(pos as int, j as int));
                assert(v@.skip(j as int) =~= Seq::<char>::empty());
                assert(scrubbed(v@.skip(j as int)) =~= Seq::<char>::empty());
            }
            pos = j;
        }
    }
    proof {
        assert(v@.skip(pos as int) =~= Seq::<char>::empty());
        assert(out@ + Seq::<char>::empty() =~= out@);
    }
    out
}

} // verus!

verus! {

/// No whitespace-separated word of `t` looks like a credential.
pub open spec fn credential_free(t: Seq<char>) -> bool
    decreases t.len(),
{
    if t.len() == 0 {
        true
    } else {
        let k = word_len(t);
        !looks_secret(t.take(k as int)) && (k < t.len() ==> credential_free(t.skip(k as int + 1)))
    }
}

proof fn lemma_word_len_shape(s: Seq<char>)
    ensures
        word_len(s) <= s.len(),
        forall|i: int| 0 <= i < word_len(s) ==> !crate::text::is_ws(#[trigger] s[i]),
        word_len(s) < s.len() ==> crate::text::is_ws(s[word_len(s) as int]),
    decreases s.len(),
{
    if s.len() > 0 && !crate::text::is_ws(s[0]) {
        lemma_word_len_shape(s.skip(1));
        assert forall|i: int| 0 <= i < word_len(s) implies !crate::text::is_ws(#[trigger] s[i]) by {
            if i > 0 {
                assert(s[i] == s.skip(1)[i - 1]);
            }
        }
    }
}

proof fn lemma_redacted_is_not_secret()
    ensures
        !looks_secret("[REDACTED]"@),
        "[REDACTED]"@.len() == 10,
        forall|i: int| 0 <= i < 10 ==> !crate::text::is_ws(#[trigger] "[REDACTED]"@[i]),
{
    reveal_strlit("[REDACTED]");
    reveal_strlit("AIza");
    reveal_strlit("ya29.");
    reveal_strlit("sk-");
    assert("[REDACTED]"@.take(4) != "AIza"@) by {
        assert("[REDACTED]"@.take(4)[0] != "AIza"@[0]);
    }
    assert("[REDACTED]"@.take(5) != "ya29."@) by {
        assert("[REDACTED]"@.take(5)[0] != "ya29."@[0]);
    }
    assert("[REDACTED]"@.take(3) != "sk-"@) by {
        assert("[REDACTED]"@.take(3)[0] != "sk-"@[0]);
    }
}

/// What scrubbing writes to disk holds no word that looks like a credential:
/// every such word was replaced, and the replacement is not one.
pub proof fn law_scrubbed_text_is_credential_free(s: Seq<char>)
    ensures
        credential_free(scrubbed(s)),
    decreases s.len(),
{
    if s.len() > 0 {
        lemma_word_len_shape(s);
        lemma_redacted_is_not_secret();
        reveal_strlit(" ");
        let k = word_len(s);
        let w = s.take(k as int);
        if k < s.len() {
            let rest = s.skip(k as int + 1);
            law_scrubbed_text_is_credential_free(rest);
            let tail = scrubbed(rest);
            let out = scrubbed(s);
            assert(out == token_out(w, Some(s[k as int])) + tail);
            if looks_secret(w) {
                let red = "[REDACTED]"@;
                assert(out =~= red + " "@ + tail);
                assert forall|i: int| 0 <= i < 10 implies !crate::text::is_ws(#[trigger] out[i]) by {
                    assert(out[i] == red[i]);
                }
                assert(out[10] == ' ');
                lemma_word_len(out, 10);
                assert(out.take(10) =~= red);
                assert(out.skip(11) =~= tail);
            } else {
                assert(out =~= w.push(s[k as int]) + tail);
                assert forall|i: int| 0 <= i < k implies !crate::text::is_ws(#[trigger] out[i]) by {
                    assert(out[i] == s[i]);
                }
                assert(out[k as int] == s[k as int]);
                lemma_word_len(out, k as int);
                assert(out.take(k as int) =~= w);
                assert(out.skip(k as int + 1) =~= tail);
            }
        } else {
            assert(w =~= s);
            let out = scrubbed(s);
            if looks_secret(s) {
                assert(out =~= "[REDACTED]"@);
                lemma_word_len(out, 10);
                assert(out.take(10) =~= out);
            } else {
                assert(out =~= s);
                assert(out.take(k as int) =~= out);
            }
        }
    }
}

} // verus!
