//! Google Vertex AI (Gemini): where requests go, and what a reply means.
//!
//! Sending the request, and reading the reply body into the plain shape
//! below, is the program's work; which URL, which error, which text and how
//! many tokens is decided here.

use vstd::prelude::*;
use crate::config::VertexAuth;
use crate::llm::{retryable, LlmError, Usage};
use crate::text::{chars_of, decimal, push_decimal, push_range, trim, trim_str};

verus! {

// ---------------------------------------------------------------------------
// Endpoint
// ---------------------------------------------------------------------------

/// The `generateContent` URL.
///
/// An API key authenticates against the express endpoint, which carries no
/// project or location segment; a project may still be configured, it simply
/// does not belong in this URL. Bearer tokens need the full project path, where
/// the `global` location uses the unprefixed host and a region a
/// `{location}-` prefix. A blank location means `global`.
pub open spec fn endpoint(location: Seq<char>, auth: VertexAuth, project_id: Option<Seq<char>>, model: Seq<char>) -> Result<Seq<char>, Seq<char>> {
    let loc = if trim(location).len() == 0 {
        "global"@
    } else {
        trim(location)
    };
    if auth == VertexAuth::ApiKey {
        Ok("https://aiplatform.googleapis.com/v1/publishers/google/models/"@ + model + ":generateContent"@)
    } else {
        match project_id {
            None => Err("VERTEX_PROJECT_ID is required to build the Vertex endpoint; set it in .env"@),
            Some(p) => Ok(
                "https://"@ + if loc == "global"@ {
                    "aiplatform.googleapis.com"@
                } else {
                    loc + "-aiplatform.googleapis.com"@
                } + "/v1/projects/"@ + p + "/locations/"@ + loc + "/publishers/google/models/"@ + model
                    + ":generateContent"@,
            ),
        }
    }
}

/// Build the `generateContent` URL, or say why it cannot be built.
pub fn build_endpoint(location: &str, auth: VertexAuth, project_id: Option<&str>, model: &str) -> (r: Result<String, String>)
    ensures
        match endpoint(
            location@,
            auth,
            match project_id {
                Some(p) => Some(p@),
                None => None,
            },
            model@,
        ) {
            Ok(u) => r matches Ok(s) && s@ == u,
            Err(m) => r matches Err(s) && s@ == m,
        },
{
    let t = trim_str(location);
    let loc = if t.as_str().unicode_len() == 0 {
        String::from_str("global")
    } else {
        t
    };
    if auth == VertexAuth::ApiKey {
        let mut u = String::from_str("https://aiplatform.googleapis.com/v1/publishers/google/models/");
        u.append(model);
        u.append(":generateContent");
        return Ok(u);
    }
    let project = match project_id {
        Some(p) => p,
        None => {
            return Err(
                String::from_str(
                    "VERTEX_PROJECT_ID is required to build the Vertex endpoint; set it in .env",
                ),
            );
        },
    };
    let mut u = String::from_str("https://");
    if crate::text::same_text(loc.as_str(), "global") {
        u.append("aiplatform.googleapis.com");
    } else {
        u.append(loc.as_str());
        u.append("-aiplatform.googleapis.com");
    }
    u.append("/v1/projects/");
    u.append(project);
    u.append("/locations/");
    u.append(loc.as_str());
    u.append("/publishers/google/models/");
    u.append(model);
    u.append(":generateContent");
    Ok(u)
}

// ---------------------------------------------------------------------------
// Reply
// ---------------------------------------------------------------------------

/// `usageMetadata`, field by field, each `None` when absent.
#[derive(Debug, Clone)]
pub struct UsageFields {
    pub prompt_token_count: Option<u64>,
    pub candidates_token_count: Option<u64>,
    pub thoughts_token_count: Option<u64>,
    pub total_token_count: Option<u64>,
}

/// One part of a candidate's content.
#[derive(Debug, Clone)]
pub struct ContentPart {
    pub text: Option<String>,
    /// `Some(true)` marks the model's internal thought, which is not the answer.
    pub thought: Option<bool>,
}

/// The first candidate of a reply.
#[derive(Debug, Clone)]
pub struct ReplyCandidate {
    pub finish_reason: Option<String>,
    /// `content.parts`, when it is an array.
    pub parts: Option<Vec<ContentPart>>,
}

/// A `generateContent` reply, read into plain values.
#[derive(Debug, Clone)]
pub struct GenerateReply {
    pub usage: Option<UsageFields>,
    /// The first of `candidates`, when there is one.
    pub first_candidate: Option<ReplyCandidate>,
    /// `promptFeedback.blockReason`, when present.
    pub block_reason: Option<String>,
}

pub open spec fn or_zero(o: Option<u64>) -> int {
    match o {
        Some(n) => n as int,
        None => 0,
    }
}

/// Tokens a reply reports. Thinking models bill reasoning tokens as output,
/// so they are counted there; a missing total is input plus output.
pub open spec fn reply_usage(u: Option<UsageFields>) -> (int, int, int) {
    match u {
        None => (0, 0, 0),
        Some(f) => {
            let input = or_zero(f.prompt_token_count);
            let output = or_zero(f.candidates_token_count) + or_zero(f.thoughts_token_count);
            (
                input,
                output,
                match f.total_token_count {
                    Some(t) => t as int,
                    None => input + output,
                },
            )
        },
    }
}

/// The reply's counts can be added without passing `u64::MAX`.
pub open spec fn usage_fits(u: Option<UsageFields>) -> bool {
    match u {
        None => true,
        Some(f) => or_zero(f.candidates_token_count) + or_zero(f.thoughts_token_count) <= u64::MAX
            && or_zero(f.prompt_token_count) + or_zero(f.candidates_token_count) + or_zero(
            f.thoughts_token_count,
        ) <= u64::MAX,
    }
}

/// The answer text: the text of every part that is not a thought, joined.
pub open spec fn answer_text(parts: Seq<ContentPart>) -> Seq<char>
    decreases parts.len(),
{
    if parts.len() == 0 {
        Seq::empty()
    } else {
        let p = parts.last();
        answer_text(parts.drop_last()) + if p.thought == Some(true) {
            Seq::<char>::empty()
        } else {
            match p.text {
                Some(t) => t@,
                None => Seq::<char>::empty(),
            }
        }
    }
}

/// What a reply means: its text and usage, or why it is malformed. A blocked
/// prompt has no candidate but says why; a reply cut off by the token cap
/// would not parse downstream, so it is refused here with a clearer reason;
/// an answer of nothing but whitespace is no answer.
pub open spec fn reply_meaning(r: GenerateReply) -> Result<(Seq<char>, (int, int, int)), Seq<char>> {
    match r.first_candidate {
        None => Err(
            "no candidate returned ("@ + match r.block_reason {
                Some(b) => b@,
                None => "no candidates in response"@,
            } + ")"@,
        ),
        Some(c) => if c.finish_reason matches Some(f) && f@ == "MAX_TOKENS"@ {
            Err("response truncated at maxOutputTokens; raise VCR_MAX_OUTPUT_TOKENS"@)
        } else {
            let text = match c.parts {
                Some(ps) => answer_text(ps@),
                None => Seq::<char>::empty(),
            };
            if trim(text).len() == 0 {
                Err("candidate contained no text"@)
            } else {
                Ok((text, reply_usage(r.usage)))
            }
        },
    }
}

/// Extract text and usage from a `generateContent` reply, given the reply as
/// read, or the reader's complaint when the body was not JSON.
pub fn parse_generate_content(reply: Result<GenerateReply, String>) -> (r: Result<(String, Usage), LlmError>)
    requires
        reply matches Ok(g) ==> usage_fits(g.usage),
    ensures
        match reply {
            Err(e) => r matches Err(LlmError::Malformed(m)) && m@ == "response was not JSON: "@ + e@,
            Ok(g) => match reply_meaning(g) {
                Err(m) => r matches Err(LlmError::Malformed(s)) && s@ == m,
                Ok(ok) => r matches Ok(p) && p.0@ == ok.0 && p.1.input_tokens == ok.1.0
                    && p.1.output_tokens == ok.1.1 && p.1.total_tokens == ok.1.2,
            },
        },
{
    let g = match reply {
        Err(e) => {
            let mut m = String::from_str("response was not JSON: ");
            m.append(e.as_str());
            return Err(LlmError::Malformed(m));
        },
        Ok(g) => g,
    };
    let usage = match &g.usage {
        None => Usage { input_tokens: 0, output_tokens: 0, total_tokens: 0 },
        Some(f) => {
            let input = match f.prompt_token_count {
                Some(n) => n,
                None => 0,
            };
            let cand = match f.candidates_token_count {
                Some(n) => n,
                None => 0,
            };
            let thoughts = match f.thoughts_token_count {
                Some(n) => n,
                None => 0,
            };
            let output = cand + thoughts;
            let fallback = input + output;
            let total = match f.total_token_count {
                Some(t) => t,
                None => fallback,
            };
            Usage { input_tokens: input, output_tokens: output, total_tokens: total }
        },
    };
    let c = match &g.first_candidate {
        None => {
            let mut m = String::from_str("no candidate returned (");
            match &g.block_reason {
                Some(b) => m.append(b.as_str()),
                None => m.append("no candidates in response"),
            }
            m.append(")");
            return Err(LlmError::Malformed(m));
        },
        Some(c) => c,
    };
    match &c.finish_reason {
        Some(f) => {
            if crate::text::same_text(f.as_str(), "MAX_TOKENS") {
                return Err(
                    LlmError::Malformed(
                        String::from_str(
                            "response truncated at maxOutputTokens; raise VCR_MAX_OUTPUT_TOKENS",
                        ),
                    ),
                );
            }
        },
        None => {},
    }
    let mut text = String::new();
    match &c.parts {
        Some(ps) => {
            let mut i: usize = 0;
            while i < ps.len()
                invariant
                    i <= ps@.len(),
                    text@ == answer_text(ps@.take(i as int)),
                decreases ps@.len() - i,
            {
                assert(ps@.take(i + 1).drop_last() =~= ps@.take(i as int));
                let p = &ps[i];
                let thought = match p.thought {
                    Some(b) => b,
                    None => false,
                };
                if !thought {
                    match &p.text {
                        Some(t) => text.append(t.as_str()),
                        None => {},
                    }
                }
                assert(text@ =~= answer_text(ps@.take(i + 1)));
                i = i + 1;
            }
            assert(ps@.take(i as int) =~= ps@);
        },
        None => {},
    }
    let t = trim_str(text.as_str());
    if t.as_str().unicode_len() == 0 {
        return Err(LlmError::Malformed(String::from_str("candidate contained no text")));
    }
    Ok((text, usage))
}

// ---------------------------------------------------------------------------
// Retries and error bodies
// ---------------------------------------------------------------------------

/// How long to wait before attempt `attempt + 1`: 500 ms doubled per
/// attempt, capped at 8 s, so a burst of rate limits cannot burn the deadline.
pub fn backoff_ms(attempt: u32) -> (ms: u64)
    requires
        attempt >= 1,
    ensures
        ms == 500 * if attempt - 1 <= 4 {
            vstd::arithmetic::power2::pow2((attempt - 1) as nat)
        } else {
            16
        },
{
    let k: u32 = if attempt - 1 <= 4 {
        attempt - 1
    } else {
        4
    };
    proof {
        vstd::arithmetic::power2::lemma2_to64();
    }
    let ms: u64 = if k == 0 {
        500
    } else if k == 1 {
        1000
    } else if k == 2 {
        2000
    } else if k == 3 {
        4000
    } else {
        8000
    };
    ms
}

/// After attempt `attempt` (counted from 1) failed with `error`: how long to
/// wait before trying again, or `None` to give up and hand the error back.
/// Only a retryable error is retried, and only `max_retries` times.
pub fn retry_delay(error: &LlmError, attempt: u32, max_retries: u32) -> (r: Option<u64>)
    requires
        attempt >= 1,
    ensures
        r is Some <==> (retryable(*error) && attempt <= max_retries),
        r matches Some(ms) ==> ms == 500 * if attempt - 1 <= 4 {
            vstd::arithmetic::power2::pow2((attempt - 1) as nat)
        } else {
            16
        },
{
    if !error.is_retryable() || attempt > max_retries {
        return None;
    }
    Some(backoff_ms(attempt))
}

/// Bytes a character takes in UTF-8.
pub open spec fn utf8_width(c: char) -> nat {
    if (c as u32) < 0x80 {
        1
    } else if (c as u32) < 0x800 {
        2
    } else if (c as u32) < 0x10000 {
        3
    } else {
        4
    }
}

/// Bytes `s` takes in UTF-8.
pub open spec fn utf8_len(s: Seq<char>) -> nat
    decreases s.len(),
{
    if s.len() == 0 {
        0
    } else {
        utf8_len(s.drop_last()) + utf8_width(s.last())
    }
}

/// The longest prefix of `s`, in characters, whose UTF-8 length is at most `n`
/// (searched down from `k`).
pub open spec fn fitting_prefix(s: Seq<char>, n: nat, k: int) -> int
    decreases k,
{
    if k <= 0 {
        0
    } else if utf8_len(s.take(k)) <= n {
        k
    } else {
        fitting_prefix(s, n, k - 1)
    }
}

/// `s` cut to at most `n` bytes at a character boundary, with a note of how
/// many bytes were cut; `s` itself when it fits.
pub open spec fn truncated(s: Seq<char>, n: nat) -> Seq<char> {
    if utf8_len(s) <= n {
        s
    } else {
        let k = fitting_prefix(s, n, s.len() as int);
        s.take(k) + "... ["@ + decimal((utf8_len(s) - utf8_len(s.take(k))) as nat) + " more chars]"@
    }
}

fn char_width(c: char) -> (w: usize)
    ensures
        w == utf8_width(c),
{
    let u = c as u32;
    if u < 0x80 {
        1
    } else if u < 0x800 {
        2
    } else if u < 0x10000 {
        3
    } else {
        4
    }
}

proof fn lemma_utf8_len_front(s: Seq<char>)
    requires
        s.len() > 0,
    ensures
        utf8_len(s) == utf8_width(s[0]) + utf8_len(s.drop_first()),
    decreases s.len(),
{
    if s.len() > 1 {
        lemma_utf8_len_front(s.drop_last());
        assert(s.drop_last().drop_first() =~= s.drop_first().drop_last());
    } else {
        assert(s.drop_last() =~= Seq::<char>::empty());
        assert(s.drop_first() =~= Seq::<char>::empty());
    }
}

/// The length this module counts in is UTF-8's: what `str::len` reports.
pub proof fn lemma_utf8_len_is_encoded_length(s: Seq<char>)
    ensures
        utf8_len(s) == vstd::utf8::encode_utf8(s).len(),
    decreases s.len(),
{
    if s.len() > 0 {
        lemma_utf8_len_front(s);
        lemma_utf8_len_is_encoded_length(s.drop_first());
        vstd::utf8::char_is_scalar(s[0]);
    }
}

proof fn lemma_fitting_prefix(s: Seq<char>, n: nat, k: int, j: int)
    requires
        0 <= j <= k <= s.len(),
        utf8_len(s.take(j)) <= n,
        forall|i: int| j < i <= k ==> utf8_len(#[trigger] s.take(i)) > n,
    ensures
        fitting_prefix(s, n, k) == j,
    decreases k,
{
    if k > j {
        lemma_fitting_prefix(s, n, k - 1, j);
    }
}

proof fn lemma_utf8_len_grows(s: Seq<char>, i: int, j: int)
    requires
        0 <= i <= j <= s.len(),
    ensures
        utf8_len(s.take(i)) <= utf8_len(s.take(j)),
    decreases j - i,
{
    if i < j {
        lemma_utf8_len_grows(s, i, j - 1);
        assert(s.take(j).drop_last() =~= s.take(j - 1));
    }
}

/// Cut an error body for the trajectory: at most `n` bytes, never inside a
/// character, with the number of bytes left out.
pub fn truncate(s: &str, n: usize) -> (r: String)
    requires
        utf8_len(s@) <= usize::MAX,
    ensures
        r@ == truncated(s@, n as nat),
{
    let v = chars_of(s);
    let mut bytes: usize = 0;
    let mut fit: usize = 0;
    let mut fit_bytes: usize = 0;
    let mut over = false;
    let mut i: usize = 0;
    while i < v.len()
        invariant
            i <= v@.len(),
            v@ == s@,
            bytes == utf8_len(v@.take(i as int)),
            utf8_len(v@) <= usize::MAX,
            fit <= i,
            fit_bytes == utf8_len(v@.take(fit as int)),
            fit_bytes <= n,
            !over ==> fit == i,
            over ==> fit < i,
            over ==> forall|k: int| fit < k <= i ==> utf8_len(#[trigger] v@.take(k)) > n,
        decreases v@.len() - i,
    {
        assert(v@.take(i + 1).drop_last() =~= v@.take(i as int));
        let w = char_width(v[i]);
        proof {
            lemma_utf8_len_grows(v@, i + 1, v@.len() as int);
            assert(v@.take(v@.len() as int) =~= v@);
        }
        bytes = bytes + w;
        i = i + 1;
        if !over && bytes <= n {
            fit = i;
            fit_bytes = bytes;
        } else {
            proof {
                if over {
                    lemma_utf8_len_grows(v@, fit + 1, i - 1);
                    lemma_utf8_len_grows(v@, i - 1, i as int);
                    assert(utf8_len(v@.take(fit + 1)) > n);
                }
                assert(utf8_len(v@.take(i as int)) > n);
            }
            over = true;
        }
    }
    assert(v@.take(i as int) =~= v@);
    if !over {
        return crate::text::owned(s);
    }
    proof {
        lemma_fitting_prefix(v@, n as nat, v@.len() as int, fit as int);
    }
    let mut r = String::new();
    push_range(&mut r, &v, 0, fit);
    assert(v@.subrange(0, fit as int) =~= v@.take(fit as int));
    r.append("... [");
    push_decimal(&mut r, (bytes - fit_bytes) as u64);
    r.append(" more chars]");
    r
}

} // verus!
