//! Deterministic offline client.
//!
//! Exists so the orchestration, evaluator and trajectory code can be tested
//! and demonstrated without network access or spend. It is never a source of
//! reported results: every run records its provider.

use vstd::prelude::*;
use super::{LlmResponse, Stage, Usage};
use crate::text::views;

verus! {

/// The fixed reply each stage gets when nothing is scripted for it.
pub open spec fn default_reply(stage: Stage) -> Seq<char> {
    match stage {
        Stage::Review => "{\"findings\":[]}"@,
        Stage::Investigate => "{\"done\":true,\"tool\":null,\"rationale\":\"mock\"}"@,
        Stage::Falsify => "{\"falsification_question\":\"mock: what evidence would disprove this?\"}"@,
        Stage::Verify => "{\"outcome\":\"Insufficient\",\"rationale\":\"mock verifier\",\"decisive_evidence\":[]}"@,
    }
}

fn default_reply_text(stage: Stage) -> (s: &'static str)
    ensures
        s@ == default_reply(stage),
{
    match stage {
        Stage::Review => "{\"findings\":[]}",
        Stage::Investigate => "{\"done\":true,\"tool\":null,\"rationale\":\"mock\"}",
        Stage::Falsify => "{\"falsification_question\":\"mock: what evidence would disprove this?\"}",
        Stage::Verify => "{\"outcome\":\"Insufficient\",\"rationale\":\"mock verifier\",\"decisive_evidence\":[]}",
    }
}

/// Responses queued per stage, consumed in order; a stage whose queue is
/// exhausted falls back to its fixed default, so a script only needs to
/// specify the turns it cares about.
#[derive(Debug)]
pub struct MockClient {
    review: Vec<String>,
    investigate: Vec<String>,
    falsify: Vec<String>,
    verify: Vec<String>,
}

impl MockClient {
    /// What is still queued for `stage`.
    pub closed spec fn queued(&self, stage: Stage) -> Seq<Seq<char>> {
        views(
            match stage {
                Stage::Review => self.review@,
                Stage::Investigate => self.investigate@,
                Stage::Falsify => self.falsify@,
                Stage::Verify => self.verify@,
            },
        )
    }

    /// The plain stub: nothing queued.
    pub fn new() -> (c: MockClient)
        ensures
            forall|s: Stage| c.queued(s) == Seq::<Seq<char>>::empty(),
    {
        let c = MockClient { review: Vec::new(), investigate: Vec::new(), falsify: Vec::new(), verify: Vec::new() };
        assert forall|s: Stage| c.queued(s) == Seq::<Seq<char>>::empty() by {
            assert(c.queued(s) =~= Seq::<Seq<char>>::empty());
        }
        c
    }

    /// A client that returns queued responses per stage before falling back
    /// to the fixed defaults. A stage named twice keeps its last queue.
    pub fn scripted(script: Vec<(Stage, Vec<String>)>) -> (c: MockClient)
        ensures
            forall|s: Stage| c.queued(s) == script_queue(script@, s, script@.len() as int),
    {
        let mut c = MockClient::new();
        let ghost sc = script@;
        let mut rest = script;
        let mut k: usize = 0;
        assert(sc.len() == rest.len());
        while rest.len() > 0
            invariant
                k + rest@.len() == sc.len(),
                k <= sc.len() <= usize::MAX,
                rest@ == sc.skip(k as int),
                forall|s: Stage| c.queued(s) == script_queue(sc, s, k as int),
            decreases rest@.len(),
        {
            let (st, q) = rest.remove(0);
            assert(sc[k as int] == (st, q));
            let ghost before = c;
            match st {
                Stage::Review => c.review = q,
                Stage::Investigate => c.investigate = q,
                Stage::Falsify => c.falsify = q,
                Stage::Verify => c.verify = q,
            }
            proof {
                assert forall|s: Stage| c.queued(s) == script_queue(sc, s, k + 1) by {
                    if s != st {
                        assert(c.queued(s) == before.queued(s));
                    }
                }
            }
            k = k + 1;
            assert(rest@ =~= sc.skip(k as int));
        }
        assert(sc.skip(k as int).len() == 0);
        c
    }

    /// The reply to a request at `stage`: the next queued response if one
    /// remains, which is then consumed, and the stage's fixed default
    /// otherwise. Token counts are zero: a stub must not contribute
    /// plausible-looking numbers to a cost table.
    pub fn respond(&mut self, stage: Stage) -> (r: LlmResponse)
        ensures
            r.usage == (Usage { input_tokens: 0, output_tokens: 0, total_tokens: 0 }),
            r.latency_ms == 0,
            r.attempts == 1,
            old(self).queued(stage).len() > 0 ==> r.text@ == old(self).queued(stage)[0]
                && r.model@ == "mock-scripted"@ && final(self).queued(stage) == old(self).queued(
                stage,
            ).drop_first(),
            old(self).queued(stage).len() == 0 ==> r.text@ == default_reply(stage) && r.model@
                == "mock"@ && final(self).queued(stage) == old(self).queued(stage),
            forall|s: Stage| s != stage ==> final(self).queued(s) == old(self).queued(s),
    {
        let queue = match stage {
            Stage::Review => &mut self.review,
            Stage::Investigate => &mut self.investigate,
            Stage::Falsify => &mut self.falsify,
            Stage::Verify => &mut self.verify,
        };
        if queue.len() > 0 {
            let ghost before = queue@;
            let text = queue.remove(0);
            assert(views(queue@) =~= views(before).drop_first());
            return LlmResponse {
                text,
                usage: Usage { input_tokens: 0, output_tokens: 0, total_tokens: 0 },
                latency_ms: 0,
                attempts: 1,
                model: String::from_str("mock-scripted"),
            };
        }
        LlmResponse {
            text: String::from_str(default_reply_text(stage)),
            usage: Usage { input_tokens: 0, output_tokens: 0, total_tokens: 0 },
            latency_ms: 0,
            attempts: 1,
            model: String::from_str("mock"),
        }
    }
}

/// The queue a script gives `s`: the last of its first `n` entries that
/// names `s`, or nothing.
pub open spec fn script_queue(script: Seq<(Stage, Vec<String>)>, s: Stage, n: int) -> Seq<Seq<char>>
    decreases n,
{
    if n <= 0 {
        Seq::empty()
    } else if script[n - 1].0 == s {
        views(script[n - 1].1@)
    } else {
        script_queue(script, s, n - 1)
    }
}

} // verus!
