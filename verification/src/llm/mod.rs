//! Talking to a model: requests, responses, the errors worth telling apart,
//! and reading a JSON value out of what a model wrote.

pub mod mock;
pub mod vertex;

use vstd::prelude::*;
use crate::text::{
    chars_of, debug_quoted, debug_str, has_prefix, string_of, trim, trim_range,
};

verus! {

/// Token accounting for a single request.
#[derive(Debug, Clone, Copy, PartialEq, Eq, Structural)]
pub struct Usage {
    pub input_tokens: u64,
    pub output_tokens: u64,
    pub total_tokens: u64,
}

impl Default for Usage {
    fn default() -> (u: Usage)
        ensures
            u.input_tokens == 0 && u.output_tokens == 0 && u.total_tokens == 0,
    {
        Usage { input_tokens: 0, output_tokens: 0, total_tokens: 0 }
    }
}

impl Usage {
    /// Accumulate another request's tokens.
    pub fn add(&mut self, other: &Usage)
        requires
            old(self).input_tokens + other.input_tokens <= u64::MAX,
            old(self).output_tokens + other.output_tokens <= u64::MAX,
            old(self).total_tokens + other.total_tokens <= u64::MAX,
        ensures
            final(self).input_tokens == old(self).input_tokens + other.input_tokens,
            final(self).output_tokens == old(self).output_tokens + other.output_tokens,
            final(self).total_tokens == old(self).total_tokens + other.total_tokens,
    {
        self.input_tokens = self.input_tokens + other.input_tokens;
        self.output_tokens = self.output_tokens + other.output_tokens;
        self.total_tokens = self.total_tokens + other.total_tokens;
    }
}

/// Which pipeline stage issued a request. Local metadata: it is recorded in
/// the trajectory and drives the offline client, and is never sent to a
/// provider.
#[derive(Debug, Clone, Copy, PartialEq, Eq, Hash, Structural)]
pub enum Stage {
    /// Produce candidate findings from the diff.
    Review,
    /// Choose the next investigation tool call.
    Investigate,
    /// Formulate the falsification question.
    Falsify,
    /// Fresh-context adjudication of claim against evidence.
    Verify,
}

/// A single completion request. Deliberately stateless: every call carries
/// its whole context, so there is no conversation object that could carry
/// earlier reasoning into the fresh-context verifier.
#[derive(Debug, Clone)]
pub struct LlmRequest {
    pub stage: Stage,
    pub system: String,
    pub user: String,
    /// Ask the provider for `application/json` output.
    pub json_mode: bool,
}

#[derive(Debug, Clone)]
pub struct LlmResponse {
    pub text: String,
    pub usage: Usage,
    pub latency_ms: u64,
    /// How many attempts were needed, including the successful one.
    pub attempts: u32,
    pub model: String,
}

/// Errors worth distinguishing in the trajectory.
#[derive(Debug, Clone, PartialEq, Eq)]
pub enum LlmError {
    /// The request timed out after this many seconds.
    Timeout(u64),
    /// Quota exhausted: the one error the provider says how to handle.
    RateLimited { retry_after_secs: Option<u64>, body: String },
    /// The provider answered with an error status.
    Status { status: u16, body: String },
    /// The response could not be parsed.
    Malformed(String),
    /// The connection failed.
    Transport(String),
}

/// Whether retrying the same request could plausibly succeed: every error
/// but a client-side status.
pub open spec fn retryable(e: LlmError) -> bool {
    match e {
        LlmError::Status { status, .. } => status >= 500,
        _ => true,
    }
}

/// How an error reads.
pub open spec fn error_message(e: LlmError) -> Seq<char> {
    match e {
        LlmError::Timeout(secs) => "request timed out after "@ + crate::text::decimal(secs as nat) + "s"@,
        LlmError::RateLimited { retry_after_secs, .. } => "rate limited by the provider"@ + match retry_after_secs {
            Some(secs) => " (retry after "@ + crate::text::decimal(secs as nat) + "s)"@,
            None => Seq::<char>::empty(),
        },
        LlmError::Status { status, body } => "provider returned status "@ + crate::text::decimal(status as nat)
            + ": "@ + body@,
        LlmError::Malformed(m) => "response could not be parsed: "@ + m@,
        LlmError::Transport(m) => "transport error: "@ + m@,
    }
}

impl LlmError {
    /// Whether retrying the same request could plausibly succeed.
    pub fn is_retryable(&self) -> (b: bool)
        ensures
            b == retryable(*self),
    {
        match self {
            LlmError::Timeout(_) => true,
            LlmError::Transport(_) => true,
            LlmError::Malformed(_) => true,
            LlmError::RateLimited { .. } => true,
            LlmError::Status { status, .. } => *status >= 500,
        }
    }

    /// The error as a sentence, for the trajectory and the terminal.
    pub fn message(&self) -> (s: String)
        ensures
            s@ == error_message(*self),
    {
        let mut s = String::new();
        match self {
            LlmError::Timeout(secs) => {
                s.append("request timed out after ");
                crate::text::push_decimal(&mut s, *secs);
                s.append("s");
            },
            LlmError::RateLimited { retry_after_secs, .. } => {
                s.append("rate limited by the provider");
                match retry_after_secs {
                    Some(secs) => {
                        s.append(" (retry after ");
                        crate::text::push_decimal(&mut s, *secs);
                        s.append("s)");
                    },
                    None => {},
                }
            },
            LlmError::Status { status, body } => {
                s.append("provider returned status ");
                crate::text::push_decimal(&mut s, *status as u64);
                s.append(": ");
                s.append(body.as_str());
            },
            LlmError::Malformed(m) => {
                s.append("response could not be parsed: ");
                s.append(m.as_str());
            },
            LlmError::Transport(m) => {
                s.append("transport error: ");
                s.append(m.as_str());
            },
        }
        s
    }

    /// How many seconds the provider asked us to wait, when it said.
    pub fn retry_after(&self) -> (r: Option<u64>)
        ensures
            r == (match *self {
                LlmError::RateLimited { retry_after_secs, .. } => retry_after_secs,
                _ => None,
            }),
    {
        match self {
            LlmError::RateLimited { retry_after_secs, .. } => *retry_after_secs,
            _ => None,
        }
    }
}

// ---------------------------------------------------------------------------
// Finding the JSON in a reply
// ---------------------------------------------------------------------------

#[verifier::external_type_specification]
#[verifier::external_body]
pub struct ExJsonValue(serde_json::Value);

/// Whether `serde_json` accepts `s` as one JSON value.
pub uninterp spec fn is_json(s: Seq<char>) -> bool;

/// The value `serde_json` parses out of `s` when `s` is exactly one JSON
/// value. The parse depends on the text alone.
pub uninterp spec fn parsed_json(s: Seq<char>) -> serde_json::Value;

/// `serde_json::from_str::<serde_json::Value>`: the value `s` holds, when it
/// is exactly one JSON value.
#[verifier::external_body]
fn parse_json(s: &str) -> (r: Option<serde_json::Value>)
    ensures
        r is Some == is_json(s@),
        r matches Some(v) ==> v == parsed_json(s@),
{
    serde_json::from_str::<serde_json::Value>(s).ok()
}

/// The inside of a Markdown code fence: after a leading three backticks and
/// the rest of that line, up to the last three backticks.
pub open spec fn fence_inner(s: Seq<char>) -> Option<Seq<char>> {
    if !has_prefix(s, "```"@) {
        None
    } else {
        let rest = s.skip(3);
        match first_index_of(rest, '\n', 0) {
            None => None,
            Some(nl) => {
                let body = rest.skip(nl + 1);
                match last_fence(body) {
                    None => None,
                    Some(end) => Some(body.take(end)),
                }
            },
        }
    }
}

/// First index of `c` in `s` at or after `i`.
pub open spec fn first_index_of(s: Seq<char>, c: char, i: int) -> Option<int>
    decreases s.len() - i,
{
    if i < 0 || i >= s.len() {
        None
    } else if s[i] == c {
        Some(i)
    } else {
        first_index_of(s, c, i + 1)
    }
}

/// Index where the last three backticks of `s` start.
pub open spec fn last_fence(s: Seq<char>) -> Option<int> {
    last_fence_before(s, s.len() - 3)
}

/// The greatest `i <= k` at which three backticks start in `s`.
pub open spec fn last_fence_before(s: Seq<char>, k: int) -> Option<int>
    decreases k + 1,
{
    if k < 0 {
        None
    } else if k + 3 <= s.len() && s[k] == '`' && s[k + 1] == '`' && s[k + 2] == '`' {
        Some(k)
    } else {
        last_fence_before(s, k - 1)
    }
}

/// Scanner state for a JSON span: nesting depth, inside a string literal,
/// and just after a backslash inside one.
pub open spec fn span_step(st: (int, bool, bool), c: char, open: char, close: char) -> (int, bool, bool) {
    let (depth, in_string, escaped) = st;
    if in_string {
        if escaped {
            (depth, true, false)
        } else if c == '\\' {
            (depth, true, true)
        } else if c == '"' {
            (depth, false, false)
        } else {
            (depth, true, false)
        }
    } else if c == '"' {
        (depth, true, false)
    } else if c == open {
        (depth + 1, false, false)
    } else if c == close {
        (depth - 1, false, false)
    } else {
        (depth, false, false)
    }
}

/// The scanner state after `s[start..i]`.
pub open spec fn span_state(s: Seq<char>, start: int, i: int, open: char, close: char) -> (int, bool, bool)
    decreases i - start,
{
    if i <= start {
        (0, false, false)
    } else {
        span_step(span_state(s, start, i - 1, open, close), s[i - 1], open, close)
    }
}

/// The first `i > start` at which the span that opened at `start` closes
/// again, scanning from `i`.
pub open spec fn span_end(s: Seq<char>, start: int, i: int, open: char, close: char) -> Option<int>
    decreases s.len() - i,
{
    if i < start || i >= s.len() {
        None
    } else if !span_state(s, start, i, open, close).1 && s[i] == close && span_state(
        s,
        start,
        i,
        open,
        close,
    ).0 == 1 {
        Some(i + 1)
    } else {
        span_end(s, start, i + 1, open, close)
    }
}

/// The outermost balanced `{...}` or `[...]` span, whichever kind opens
/// first, ignoring brackets inside string literals.
pub open spec fn json_span(s: Seq<char>) -> Option<Seq<char>> {
    let obj = first_index_of(s, '{', 0);
    let arr = first_index_of(s, '[', 0);
    let (open, close, start) = match (obj, arr) {
        (Some(o), Some(a)) => if a < o {
            ('[', ']', a)
        } else {
            ('{', '}', o)
        },
        (Some(o), None) => ('{', '}', o),
        (None, Some(a)) => ('[', ']', a),
        (None, None) => (' ', ' ', -1),
    };
    if start < 0 {
        None
    } else {
        match span_end(s, start, start, open, close) {
            Some(end) => Some(s.subrange(start, end)),
            None => None,
        }
    }
}

/// Whitespace as `u8::is_ascii_whitespace` counts it.
pub open spec fn is_ascii_ws(c: char) -> bool {
    c == ' ' || c == '\t' || c == '\n' || c == '\x0C' || c == '\r'
}

/// The first character of `s` at or after `i` that is not ASCII whitespace.
pub open spec fn next_solid(s: Seq<char>, i: int) -> Option<char>
    decreases s.len() - i,
{
    if i < 0 || i >= s.len() {
        None
    } else if is_ascii_ws(s[i]) {
        next_solid(s, i + 1)
    } else {
        Some(s[i])
    }
}

/// Whether the scan is inside a string literal, and just after a backslash
/// in one, after `s[0..i]`.
pub open spec fn literal_state(s: Seq<char>, i: int) -> (bool, bool)
    decreases i,
{
    if i <= 0 {
        (false, false)
    } else {
        let (in_string, escaped) = literal_state(s, i - 1);
        let c = s[i - 1];
        if in_string {
            if escaped {
                (true, false)
            } else if c == '\\' {
                (true, true)
            } else if c == '"' {
                (false, false)
            } else {
                (true, false)
            }
        } else if c == '"' {
            (true, false)
        } else {
            (false, false)
        }
    }
}

/// A comma outside a string literal whose next solid character closes an
/// object or an array.
pub open spec fn dangling_comma(s: Seq<char>, i: int) -> bool {
    !literal_state(s, i).0 && s[i] == ',' && (next_solid(s, i + 1) == Some('}') || next_solid(
        s,
        i + 1,
    ) == Some(']'))
}

/// `s[0..n]` without its dangling commas.
pub open spec fn without_dangling_upto(s: Seq<char>, n: int) -> Seq<char>
    decreases n,
{
    if n <= 0 {
        Seq::empty()
    } else if dangling_comma(s, n - 1) {
        without_dangling_upto(s, n - 1)
    } else {
        without_dangling_upto(s, n - 1).push(s[n - 1])
    }
}

/// `s` without the commas that sit directly before a `}` or `]`.
pub open spec fn without_dangling(s: Seq<char>) -> Seq<char> {
    without_dangling_upto(s, s.len() as int)
}

fn is_ascii_ws_exec(c: char) -> (b: bool)
    ensures
        b == is_ascii_ws(c),
{
    c == ' ' || c == '\t' || c == '\n' || c == '\x0C' || c == '\r'
}

fn next_solid_exec(v: &Vec<char>, i: usize) -> (r: Option<char>)
    requires
        i <= v.len(),
    ensures
        r == next_solid(v@, i as int),
{
    let mut j = i;
    while j < v.len() && is_ascii_ws_exec(v[j])
        invariant
            i <= j <= v.len(),
            next_solid(v@, i as int) == next_solid(v@, j as int),
        decreases v.len() - j,
    {
        j = j + 1;
    }
    if j < v.len() {
        Some(v[j])
    } else {
        None
    }
}

/// Remove commas that sit directly before a `}` or `]`, leaving commas
/// inside string literals alone. Repairs the one malformation models
/// actually produce without touching a comma inside a claim or an excerpt.
pub fn strip_trailing_commas(s: &str) -> (r: String)
    ensures
        r@ == without_dangling(s@),
{
    let v = chars_of(s);
    let mut out = String::new();
    let mut in_string = false;
    let mut escaped = false;
    let mut i: usize = 0;
    while i < v.len()
        invariant
            i <= v.len(),
            v@ == s@,
            (in_string, escaped) == literal_state(s@, i as int),
            out@ == without_dangling_upto(s@, i as int),
        decreases v.len() - i,
    {
        let c = v[i];
        let drop = !in_string && c == ',' && match next_solid_exec(&v, i + 1) {
            Some(n) => n == '}' || n == ']',
            None => false,
        };
        if !drop {
            crate::text::push_char(&mut out, c);
        }
        if in_string {
            if escaped {
                escaped = false;
            } else if c == '\\' {
                escaped = true;
            } else if c == '"' {
                in_string = false;
            }
        } else if c == '"' {
            in_string = true;
        }
        i = i + 1;
    }
    out
}

/// The texts a reply is tried as, in order: the trimmed reply, the inside
/// of a code fence (trimmed), the outermost balanced span; then each of
/// those (the fence inside untrimmed) with dangling commas removed.
pub open spec fn json_candidates(text: Seq<char>) -> Seq<Seq<char>> {
    let t = trim(text);
    let fenced: Seq<Seq<char>> = match fence_inner(t) {
        Some(f) => seq![trim(f)],
        None => Seq::empty(),
    };
    let spanned: Seq<Seq<char>> = match json_span(t) {
        Some(sp) => seq![sp],
        None => Seq::empty(),
    };
    let repaired_fence: Seq<Seq<char>> = match fence_inner(t) {
        Some(f) => seq![without_dangling(f)],
        None => Seq::empty(),
    };
    let repaired_span: Seq<Seq<char>> = match json_span(t) {
        Some(sp) => seq![without_dangling(sp)],
        None => Seq::empty(),
    };
    seq![t] + fenced + spanned + seq![without_dangling(t)] + repaired_fence + repaired_span
}

fn first_index_exec(v: &Vec<char>, lo: usize, hi: usize, c: char) -> (r: Option<usize>)
    requires
        lo <= hi <= v.len(),
    ensures
        r matches Some(k) ==> lo <= k < hi && v@[k as int] == c,
        match first_index_of(v@.subrange(lo as int, hi as int), c, 0) {
            Some(k) => r is Some && r->0 == lo + k,
            None => r is None,
        },
{
    let ghost s = v@.subrange(lo as int, hi as int);
    let mut i = lo;
    while i < hi
        invariant
            lo <= i <= hi <= v.len(),
            s == v@.subrange(lo as int, hi as int),
            first_index_of(s, c, 0) == first_index_of(s, c, i - lo),
        decreases hi - i,
    {
        if v[i] == c {
            assert(s[i - lo] == c);
            return Some(i);
        }
        assert(s[i - lo] != c);
        i = i + 1;
    }
    None
}

/// Bounds of `fence_inner` of `v[lo..hi]`.
fn fence_inner_range(v: &Vec<char>, lo: usize, hi: usize) -> (r: Option<(usize, usize)>)
    requires
        lo <= hi <= v.len(),
    ensures
        match fence_inner(v@.subrange(lo as int, hi as int)) {
            Some(f) => r is Some && lo <= (r->0).0 <= (r->0).1 <= hi && v@.subrange(
                (r->0).0 as int,
                (r->0).1 as int,
            ) == f,
            None => r is None,
        },
{
    let ghost s = v@.subrange(lo as int, hi as int);
    let tick = vec!['`', '`', '`'];
    proof {
        reveal_strlit("```");
        assert(tick@ =~= "```"@);
    }
    if !crate::text::starts_with_range(v, lo, hi, &tick) {
        return None;
    }
    let ghost rest = s.skip(3);
    assert(rest =~= v@.subrange(lo + 3, hi as int));
    let nl = match first_index_exec(v, lo + 3, hi, '\n') {
        None => {
            return None;
        },
        Some(k) => k,
    };
    let b0 = nl + 1;
    let ghost body = rest.skip(nl - lo - 3 + 1);
    assert(body =~= v@.subrange(b0 as int, hi as int));
    assert(first_index_of(rest, '\n', 0) == Some(nl - lo - 3));
    assert(fence_inner(s) == (match last_fence(body) {
        Some(end) => Some(body.take(end)),
        None => None,
    }));
    if hi - b0 < 3 {
        assert(last_fence(body) is None);
        return None;
    }
    let mut k: usize = hi - 3;
    loop
        invariant
            b0 <= k + 0,
            k + 3 <= hi <= v.len(),
            lo <= b0,
            s == v@.subrange(lo as int, hi as int),
            body == v@.subrange(b0 as int, hi as int),
            fence_inner(s) == (match last_fence(body) {
                Some(end) => Some(body.take(end)),
                None => None,
            }),
            last_fence(body) == last_fence_before(body, k - b0),
        decreases k - b0,
    {
        if v[k] == '`' && v[k + 1] == '`' && v[k + 2] == '`' {
            assert(body[k - b0] == v@[k as int]);
            assert(body[k - b0 + 1] == v@[k + 1]);
            assert(body[k - b0 + 2] == v@[k + 2]);
            assert(body.take(k - b0) =~= v@.subrange(b0 as int, k as int));
            return Some((b0, k));
        }
        assert(body[k - b0] == v@[k as int]);
        assert(body[k - b0 + 1] == v@[k + 1]);
        assert(body[k - b0 + 2] == v@[k + 2]);
        if k == b0 {
            assert(last_fence_before(body, -1) is None);
            return None;
        }
        k = k - 1;
    }
}

/// Bounds of `json_span` of `v[lo..hi]`.
fn json_span_range(v: &Vec<char>, lo: usize, hi: usize) -> (r: Option<(usize, usize)>)
    requires
        lo <= hi <= v.len(),
    ensures
        match json_span(v@.subrange(lo as int, hi as int)) {
            Some(sp) => r is Some && lo <= (r->0).0 <= (r->0).1 <= hi && v@.subrange(
                (r->0).0 as int,
                (r->0).1 as int,
            ) == sp,
            None => r is None,
        },
{
    let ghost s = v@.subrange(lo as int, hi as int);
    let obj = first_index_exec(v, lo, hi, '{');
    let arr = first_index_exec(v, lo, hi, '[');
    let (open, close, start) = match (obj, arr) {
        (Some(o), Some(a)) => if a < o {
            ('[', ']', a)
        } else {
            ('{', '}', o)
        },
        (Some(o), None) => ('{', '}', o),
        (None, Some(a)) => ('[', ']', a),
        (None, None) => {
            return None;
        },
    };
    let ghost st = start - lo;
    assert(json_span(s) == (match span_end(s, st, st, open, close) {
        Some(end) => Some(s.subrange(st, end)),
        None => None,
    }));
    let mut depth: usize = 0;
    let mut in_string = false;
    let mut escaped = false;
    let mut i = start;
    while i < hi
        invariant
            lo <= start <= i <= hi <= v.len(),
            s == v@.subrange(lo as int, hi as int),
            st == start - lo,
            open != close,
            open == '{' || open == '[',
            close == '}' || close == ']',
            (depth as int, in_string, escaped) == span_state(s, st, i - lo, open, close),
            json_span(s) == (match span_end(s, st, st, open, close) {
                Some(end) => Some(s.subrange(st, end)),
                None => None,
            }),
            i == start ==> v@[i as int] == open,
            0 <= depth <= i - start,
            i > start ==> depth >= 1,
            span_end(s, st, st, open, close) == span_end(s, st, i - lo, open, close),
        decreases hi - i,
    {
        let c = v[i];
        assert(s[i - lo] == c);
        if in_string {
            if escaped {
                escaped = false;
            } else if c == '\\' {
                escaped = true;
            } else if c == '"' {
                in_string = false;
            }
        } else if c == '"' {
            in_string = true;
        } else if c == open {
            depth = depth + 1;
        } else if c == close {
            if depth == 1 {
                assert(s.subrange(st, i - lo + 1) =~= v@.subrange(start as int, i + 1));
                return Some((start, i + 1));
            }
            depth = depth - 1;
        }
        i = i + 1;
    }
    None
}

/// The texts a reply is tried as, built from the reply.
pub fn json_candidate_texts(text: &str) -> (c: Vec<String>)
    ensures
        crate::text::views(c@) == json_candidates(text@),
{
    let v = chars_of(text);
    assert(v@.subrange(0, v@.len() as int) =~= text@);
    let (a, b) = trim_range(&v, 0, v.len());
    let ghost t = trim(text@);
    let trimmed = string_of(&v, a, b);
    let fence = fence_inner_range(&v, a, b);
    let span = json_span_range(&v, a, b);
    let mut c: Vec<String> = Vec::new();
    c.push(string_of(&v, a, b));
    match fence {
        Some((f0, f1)) => {
            let (g0, g1) = trim_range(&v, f0, f1);
            c.push(string_of(&v, g0, g1));
        },
        None => {},
    }
    match span {
        Some((s0, s1)) => c.push(string_of(&v, s0, s1)),
        None => {},
    }
    c.push(strip_trailing_commas(trimmed.as_str()));
    match fence {
        Some((f0, f1)) => {
            let inner = string_of(&v, f0, f1);
            c.push(strip_trailing_commas(inner.as_str()));
        },
        None => {},
    }
    match span {
        Some((s0, s1)) => {
            let sp = string_of(&v, s0, s1);
            c.push(strip_trailing_commas(sp.as_str()));
        },
        None => {},
    }
    assert(crate::text::views(c@) =~= json_candidates(text@));
    c
}

/// `s` cut to its first `n` characters.
pub open spec fn prefix_upto(s: Seq<char>, n: nat) -> Seq<char> {
    if s.len() <= n {
        s
    } else {
        s.take(n as int)
    }
}

/// The error for a reply with no JSON in it: its length in bytes, and how it
/// starts.
pub open spec fn no_json_message(text: &str) -> Seq<char> {
    "no JSON value found in response of "@ + crate::text::decimal(text.len() as nat)
        + " chars; starts with: "@ + debug_str(prefix_upto(trim(text@), 200))
}

/// Pull a JSON value out of a model reply.
///
/// Models routinely wrap JSON in prose or in a code fence even when asked
/// not to, and sometimes leave a comma before a closing bracket. The reply
/// is tried as each of `json_candidates`, in order, and the first text
/// `serde_json` accepts gives the value; when none does, the reply is
/// `Malformed` and the caller retries.
pub fn extract_json(text: &str) -> (r: Result<serde_json::Value, LlmError>)
    ensures
        r is Ok <==> exists|i: int|
            0 <= i < json_candidates(text@).len() && is_json(#[trigger] json_candidates(text@)[i]),
        r matches Ok(v) ==> exists|i: int|
            0 <= i < json_candidates(text@).len() && is_json(#[trigger] json_candidates(text@)[i])
                && (forall|j: int| 0 <= j < i ==> !is_json(#[trigger] json_candidates(text@)[j]))
                && v == parsed_json(json_candidates(text@)[i]),
        r is Err ==> r == Err::<serde_json::Value, LlmError>(
            LlmError::Malformed(r->Err_0->Malformed_0),
        ) && r->Err_0->Malformed_0@ == no_json_message(text),
{
    let cands = json_candidate_texts(text);
    let mut i: usize = 0;
    while i < cands.len()
        invariant
            i <= cands.len(),
            crate::text::views(cands@) == json_candidates(text@),
            forall|j: int| 0 <= j < i ==> !is_json(#[trigger] json_candidates(text@)[j]),
        decreases cands.len() - i,
    {
        assert(json_candidates(text@)[i as int] == cands@[i as int]@);
        match parse_json(cands[i].as_str()) {
            Some(v) => {
                assert(is_json(json_candidates(text@)[i as int]));
                return Ok(v);
            },
            None => {},
        }
        i = i + 1;
    }
    let v = chars_of(text);
    assert(v@.subrange(0, v@.len() as int) =~= text@);
    let (a, b) = trim_range(&v, 0, v.len());
    let end = if b - a <= 200 {
        b
    } else {
        a + 200
    };
    let head = string_of(&v, a, end);
    assert(head@ =~= prefix_upto(trim(text@), 200));
    let mut m = String::from_str("no JSON value found in response of ");
    crate::text::push_decimal(&mut m, text.len() as u64);
    m.append(" chars; starts with: ");
    let q = debug_quoted(head.as_str());
    m.append(q.as_str());
    Err(LlmError::Malformed(m))
}

} // verus!
