//! A small fetch client with a retry policy: one attempt, and the loop that
//! repeats it while the failure is worth another try.

use vstd::prelude::*;
use crate::diff::parse_u32;
use crate::text::{chars_of, debug_quoted, debug_str, has_prefix, string_of, trim, trim_range};
use crate::diff::parse_u32_range;

verus! {

/// Attempts a single `fetch_with_retry` call will make at most.
pub const MAX_ATTEMPTS: usize = 4;

/// Why a fetch failed.
#[derive(Debug, Clone, PartialEq, Eq)]
pub enum FetchError {
    /// The connection or the peer failed before a complete body arrived.
    /// Another attempt may well succeed.
    Transport(String),
    /// A complete body arrived but could not be understood. The same request
    /// will produce the same body, so another attempt cannot help.
    Malformed(String),
    /// The credentials were rejected.
    Unauthorized,
}

/// Whether a failure is worth another attempt.
pub open spec fn retryable(e: FetchError) -> bool {
    e is Transport
}

impl FetchError {
    /// Only transport failures are worth another attempt.
    pub fn is_retryable(&self) -> (b: bool)
        ensures
            b == retryable(*self),
    {
        match self {
            FetchError::Transport(_) => true,
            _ => false,
        }
    }
}

/// Raised by the record parser.
#[derive(Debug, Clone, PartialEq, Eq)]
pub struct ParseError(pub String);

#[derive(Debug, PartialEq, Eq)]
pub struct Record {
    pub id: u32,
}

/// A source of response bodies.
pub trait Transport {
    /// One request attempt. `Err` means no complete body arrived.
    fn get(&mut self) -> Result<String, FetchError>;
}

/// What the record parser makes of a body: the id, or the error message.
/// The wire format is `id=<number>`.
pub open spec fn record_of(body: Seq<char>) -> Result<u32, Seq<char>> {
    if !has_prefix(body, "id="@) {
        Err("no id= prefix in "@ + debug_str(body))
    } else {
        let raw = body.skip(3);
        match parse_u32(trim(raw)) {
            Some(n) => Ok(n),
            None => Err("id "@ + debug_str(raw) + " is not a number"@),
        }
    }
}

/// Parse one record. The wire format is `id=<number>`.
pub fn parse_record(body: &str) -> (r: Result<Record, ParseError>)
    ensures
        match record_of(body@) {
            Ok(n) => r == Ok::<Record, ParseError>(Record { id: n }),
            Err(m) => r is Err && r->Err_0.0@ == m,
        },
{
    let v = chars_of(body);
    let prefix = vec!['i', 'd', '='];
    proof {
        reveal_strlit("id=");
        assert(prefix@ =~= "id="@);
    }
    if !(v.len() >= 3 && v[0] == 'i' && v[1] == 'd' && v[2] == '=') {
        proof {
            if has_prefix(body@, "id="@) {
                assert(body@.take(3)[0] == 'i');
                assert(body@.take(3)[1] == 'd');
                assert(body@.take(3)[2] == '=');
            }
        }
        let mut m = String::from_str("no id= prefix in ");
        let q = debug_quoted(body);
        m.append(q.as_str());
        return Err(ParseError(m));
    }
    assert(body@.take(3) =~= "id="@);
    let (a, b) = trim_range(&v, 3, v.len());
    assert(v@.subrange(3, v@.len() as int) =~= body@.skip(3));
    match parse_u32_range(&v, a, b) {
        Some(id) => Ok(Record { id }),
        None => {
            let raw = string_of(&v, 3, v.len());
            let mut m = String::from_str("id ");
            let q = debug_quoted(raw.as_str());
            m.append(q.as_str());
            m.append(" is not a number");
            Err(ParseError(m))
        },
    }
}

/// The outcome of one attempt, given what the transport handed back: a
/// transport error is passed on, a body is parsed, and a body that does not
/// parse is a `Malformed` error.
pub fn fetch_outcome(got: Result<String, FetchError>) -> (r: Result<Record, FetchError>)
    ensures
        match got {
            Err(e) => r == Err::<Record, FetchError>(e),
            Ok(body) => match record_of(body@) {
                Ok(n) => r == Ok::<Record, FetchError>(Record { id: n }),
                Err(m) => r is Err && r->Err_0 is Malformed && r->Err_0->Malformed_0@ == m,
            },
        },
{
    match got {
        Err(e) => Err(e),
        Ok(body) => match parse_record(body.as_str()) {
            Ok(rec) => Ok(rec),
            Err(e) => Err(FetchError::Malformed(e.0)),
        },
    }
}

/// Fetch a body and parse it. One attempt, no retrying.
///
/// The result is `fetch_outcome` of whatever the transport hands back; the
/// transport is the caller's, so nothing is promised of the reply itself.
pub fn fetch_once<T: Transport>(t: &mut T) -> (r: Result<Record, FetchError>) {
    let got = t.get();
    fetch_outcome(got)
}

/// Whether the loop makes another attempt after `attempts` attempts ended
/// in `outcome`.
pub fn should_retry(outcome: &Result<Record, FetchError>, attempts: usize) -> (b: bool)
    ensures
        b == (outcome matches Err(e) && retryable(*e) && attempts < MAX_ATTEMPTS),
{
    match outcome {
        Ok(_) => false,
        Err(e) => e.is_retryable() && attempts < MAX_ATTEMPTS,
    }
}

/// `outs` is a run of the retry loop: every attempt but the last failed
/// with a retryable error and left attempts to spare, and the last one is
/// where the loop stopped.
pub open spec fn retry_run(outs: Seq<Result<Record, FetchError>>) -> bool {
    &&& 1 <= outs.len() <= MAX_ATTEMPTS
    &&& forall|k: int| 0 <= k < outs.len() - 1 ==> (#[trigger] outs[k] matches Err(e) && retryable(e))
    &&& !(outs.last() matches Err(e) && retryable(e) && outs.len() < MAX_ATTEMPTS)
}

/// Repeat `fetch_once` while the failure is retryable, up to `MAX_ATTEMPTS`
/// times. Returns the outcome and how many attempts were made.
///
/// The attempts form a `retry_run`: each one before the last failed with a
/// retryable error, and the result is the last attempt's outcome. The loop
/// never makes more than `MAX_ATTEMPTS` attempts, and it stops early only on
/// success or on a failure that is not worth retrying. What each attempt
/// returns is the caller's transport's business and is not stated.
pub fn fetch_with_retry<T: Transport>(t: &mut T) -> (r: (Result<Record, FetchError>, usize))
    ensures
        1 <= r.1 <= MAX_ATTEMPTS,
        r.1 < MAX_ATTEMPTS ==> (r.0 is Ok || (r.0 matches Err(e) && !retryable(e))),
        exists|outs: Seq<Result<Record, FetchError>>|
            retry_run(outs) && outs.len() == r.1 && #[trigger] outs.last() == r.0,
{
    let mut attempts: usize = 0;
    let ghost mut outs: Seq<Result<Record, FetchError>> = Seq::empty();
    loop
        invariant
            attempts < MAX_ATTEMPTS,
            outs.len() == attempts,
            forall|k: int| 0 <= k < outs.len() ==> (#[trigger] outs[k] matches Err(e) && retryable(e)),
        decreases MAX_ATTEMPTS - attempts,
    {
        attempts = attempts + 1;
        let outcome = fetch_once(t);
        proof {
            outs = outs.push(outcome);
        }
        if !should_retry(&outcome, attempts) {
            assert(retry_run(outs) && outs.len() == attempts && outs.last() == outcome);
            return (outcome, attempts);
        }
    }
}

} // verus!
