//! Per-tenant request throttling: a token bucket, and the tenant file that
//! configures one.

use vstd::prelude::*;
use crate::diff::{parse_u32, parse_u32_range};
use crate::text::{chars_of, line_ranges, lines, range_eq, split_char, split_ranges, trim, trim_range};

verus! {

/// Admits requests up to a burst, refilling at a fixed rate.
///
/// A `burst` of zero is the "throttling off" sentinel. A limiter built with it
/// admits every request and never looks at the rate.
#[derive(Debug)]
pub struct Limiter {
    rate_per_sec: u32,
    burst: u32,
    tokens: u32,
}

impl Limiter {
    pub closed spec fn rate(&self) -> u32 {
        self.rate_per_sec
    }

    pub closed spec fn burst_size(&self) -> u32 {
        self.burst
    }

    /// Tokens left in the bucket.
    pub closed spec fn tokens_left(&self) -> u32 {
        self.tokens
    }

    /// The bucket never holds more than the burst.
    pub closed spec fn wf(&self) -> bool {
        self.tokens <= self.burst
    }

    pub fn new(rate_per_sec: u32, burst: u32) -> (l: Limiter)
        ensures
            l.wf(),
            l.rate() == rate_per_sec,
            l.burst_size() == burst,
            l.tokens_left() == burst,
    {
        Limiter { rate_per_sec, burst, tokens: burst }
    }

    /// True when this limiter admits everything.
    pub fn is_unlimited(&self) -> (b: bool)
        ensures
            b == (self.burst_size() == 0),
    {
        self.burst == 0
    }

    /// Admit one request, spending a token unless throttling is off.
    pub fn allow(&mut self) -> (admitted: bool)
        requires
            old(self).wf(),
        ensures
            final(self).wf(),
            final(self).rate() == old(self).rate(),
            final(self).burst_size() == old(self).burst_size(),
            old(self).burst_size() == 0 ==> admitted && final(self).tokens_left() == old(
                self,
            ).tokens_left(),
            old(self).burst_size() != 0 ==> admitted == (old(self).tokens_left() > 0),
            old(self).burst_size() != 0 && admitted ==> final(self).tokens_left()
                == old(self).tokens_left() - 1,
            !admitted ==> final(self).tokens_left() == old(self).tokens_left(),
            (admitted, final(self).tokens_left()) == allow_outcome(
                old(self).burst_size(),
                old(self).tokens_left(),
            ),
    {
        if self.is_unlimited() {
            return true;
        }
        if self.tokens == 0 {
            return false;
        }
        self.tokens = self.tokens - 1;
        true
    }

    /// Account for one elapsed second.
    pub fn tick(&mut self)
        requires
            old(self).wf(),
        ensures
            final(self).wf(),
            final(self).rate() == old(self).rate(),
            final(self).burst_size() == old(self).burst_size(),
            old(self).burst_size() == 0 ==> final(self).tokens_left() == old(self).tokens_left(),
            old(self).burst_size() != 0 ==> final(self).tokens_left() == (if old(
                self,
            ).tokens_left() + old(self).rate() < old(self).burst_size() {
                old(self).tokens_left() + old(self).rate()
            } else {
                old(self).burst_size() as int
            }),
    {
        if self.is_unlimited() {
            return;
        }
        let t = self.tokens.saturating_add(self.rate_per_sec);
        self.tokens = if t < self.burst {
            t
        } else {
            self.burst
        };
    }
}

/// What one `allow` decides for a bucket with this burst and these tokens,
/// and the tokens it leaves.
pub open spec fn allow_outcome(burst: u32, tokens: u32) -> (bool, u32) {
    if burst == 0 {
        (true, tokens)
    } else if tokens > 0 {
        (true, (tokens - 1) as u32)
    } else {
        (false, tokens)
    }
}

/// The decisions of `k` successive `allow` calls with no `tick` between them.
pub open spec fn allow_run(burst: u32, tokens: u32, k: nat) -> Seq<bool>
    decreases k,
{
    if k == 0 {
        Seq::empty()
    } else {
        let o = allow_outcome(burst, tokens);
        seq![o.0] + allow_run(burst, o.1, (k - 1) as nat)
    }
}

proof fn lemma_allow_run(burst: u32, tokens: u32, k: nat)
    ensures
        allow_run(burst, tokens, k).len() == k,
        forall|i: int| 0 <= i < k ==> #[trigger] allow_run(burst, tokens, k)[i] == (burst == 0 || i < tokens),
    decreases k,
{
    if k > 0 {
        let o = allow_outcome(burst, tokens);
        lemma_allow_run(burst, o.1, (k - 1) as nat);
        let r = allow_run(burst, tokens, k);
        assert forall|i: int| 0 <= i < k implies #[trigger] r[i] == (burst == 0 || i < tokens) by {
            if i > 0 {
                assert(r[i] == allow_run(burst, o.1, (k - 1) as nat)[i - 1]);
            }
        }
    }
}

/// A fresh limiter, asked `k` times with no tick between: with throttling
/// off every request is admitted; otherwise exactly the first `burst` are,
/// and every later one is refused.
pub proof fn law_burst_then_refuse(burst: u32, k: nat)
    ensures
        allow_run(burst, burst, k).len() == k,
        burst == 0 ==> forall|i: int| 0 <= i < k ==> #[trigger] allow_run(burst, burst, k)[i],
        burst > 0 ==> forall|i: int| 0 <= i < k ==> #[trigger] allow_run(burst, burst, k)[i] == (i < burst),
{
    lemma_allow_run(burst, burst, k);
}

/// The tokens left after `i` of the calls of `law_each_call_of_a_burst`.
proof fn lemma_tokens_after_calls(burst: u32, tokens: Seq<u32>, admitted: Seq<bool>, i: int)
    requires
        tokens.len() == admitted.len() + 1,
        tokens[0] == burst,
        forall|k: int| 0 <= k < admitted.len() ==> (#[trigger] admitted[k], tokens[k + 1]) == allow_outcome(burst, tokens[k]),
        0 <= i <= admitted.len(),
    ensures
        tokens[i] == if burst == 0 {
            burst as int
        } else if i < burst {
            burst - i
        } else {
            0
        },
    decreases i,
{
    if i > 0 {
        lemma_tokens_after_calls(burst, tokens, admitted, i - 1);
        assert((admitted[i - 1], tokens[i]) == allow_outcome(burst, tokens[i - 1]));
    }
}

/// The same law over the calls themselves: `tokens[k]` is what the bucket
/// holds before call `k` and `admitted[k]` what that call returned, each
/// call related to the next exactly as `allow` states. Starting full, with
/// throttling off every call is admitted; otherwise exactly the first
/// `burst` calls are, and every later one is refused.
pub proof fn law_each_call_of_a_burst(burst: u32, tokens: Seq<u32>, admitted: Seq<bool>)
    requires
        tokens.len() == admitted.len() + 1,
        tokens[0] == burst,
        forall|k: int| 0 <= k < admitted.len() ==> (#[trigger] admitted[k], tokens[k + 1]) == allow_outcome(burst, tokens[k]),
    ensures
        forall|k: int| 0 <= k < admitted.len() ==> #[trigger] admitted[k] == (burst == 0 || k < burst),
{
    assert forall|k: int| 0 <= k < admitted.len() implies #[trigger] admitted[k] == (burst == 0 || k < burst) by {
        lemma_tokens_after_calls(burst, tokens, admitted, k);
        assert((admitted[k], tokens[k + 1]) == allow_outcome(burst, tokens[k]));
    }
}

/// Rate used when a tenant file does not name one.
pub const DEFAULT_RATE: u32 = 1;

/// Burst used when a tenant file does not name one.
pub const DEFAULT_BURST: u32 = 5;

#[derive(Debug, PartialEq, Eq)]
pub enum ConfigError {
    /// A key was present but its value did not parse.
    Invalid(&'static str),
}

#[derive(Debug, PartialEq, Eq)]
pub struct Config {
    pub rate_per_sec: u32,
    pub burst: u32,
}

impl Config {
    pub fn into_limiter(self) -> (l: Limiter)
        ensures
            l.wf(),
            l.rate() == self.rate_per_sec,
            l.burst_size() == self.burst,
            l.tokens_left() == self.burst,
    {
        Limiter::new(self.rate_per_sec, self.burst)
    }
}

/// The key and value a line of a tenant file sets, if it sets one: blank
/// lines, `#` comments and lines without `=` set nothing.
pub open spec fn config_entry(line: Seq<char>) -> Option<(Seq<char>, Seq<char>)> {
    let l = trim(line);
    if l.len() == 0 || l[0] == '#' {
        None
    } else {
        let k = split_char(l, '=')[0];
        if k.len() < l.len() {
            Some((trim(k), trim(l.skip(k.len() as int + 1))))
        } else {
            None
        }
    }
}

/// The value the last of the first `n` lines that sets `key` gives it.
pub open spec fn last_value(ls: Seq<Seq<char>>, n: int, key: Seq<char>) -> Option<Seq<char>>
    decreases n,
{
    if n <= 0 {
        None
    } else {
        match config_entry(ls[n - 1]) {
            Some(e) => if e.0 == key {
                Some(e.1)
            } else {
                last_value(ls, n - 1, key)
            },
            None => last_value(ls, n - 1, key),
        }
    }
}

/// One setting of a tenant file: its default when absent, its number when it
/// parses, and `None` when it does not.
pub open spec fn setting(text: Seq<char>, key: Seq<char>, default: u32) -> Option<u32> {
    match last_value(lines(text), lines(text).len() as int, key) {
        None => Some(default),
        Some(v) => parse_u32(v),
    }
}

/// What `parse_config` returns for `text`.
pub open spec fn config_result(text: Seq<char>) -> Result<Config, ConfigError> {
    match setting(text, "rate"@, DEFAULT_RATE) {
        None => Err(ConfigError::Invalid("rate")),
        Some(rate) => match setting(text, "burst"@, DEFAULT_BURST) {
            None => Err(ConfigError::Invalid("burst")),
            Some(burst) => Ok(Config { rate_per_sec: rate, burst }),
        },
    }
}

fn setting_value(v: &Vec<char>, found: Option<(usize, usize)>, default: u32) -> (r: Option<u32>)
    requires
        found matches Some(p) ==> p.0 <= p.1 <= v.len(),
    ensures
        r == (match found {
            None => Some(default),
            Some(p) => parse_u32(v@.subrange(p.0 as int, p.1 as int)),
        }),
{
    match found {
        None => Some(default),
        Some((a, b)) => parse_u32_range(v, a, b),
    }
}

/// Parse a tenant file of `key = value` lines. Blank lines and `#` comments
/// are skipped, unknown keys are ignored, and a key set twice keeps its last
/// value.
pub fn parse_config(text: &str) -> (r: Result<Config, ConfigError>)
    ensures
        r == config_result(text@),
{
    let v = chars_of(text);
    assert(v@.subrange(0, v@.len() as int) =~= text@);
    let ls = line_ranges(&v, 0, v.len());
    let ghost lines_s = lines(text@);
    let rate_key = vec!['r', 'a', 't', 'e'];
    let burst_key = vec!['b', 'u', 'r', 's', 't'];
    proof {
        reveal_strlit("rate");
        reveal_strlit("burst");
        assert(rate_key@ =~= "rate"@);
        assert(burst_key@ =~= "burst"@);
    }
    let mut rate: Option<(usize, usize)> = None;
    let mut burst: Option<(usize, usize)> = None;
    let mut i: usize = 0;
    while i < ls.len()
        invariant
            i <= ls.len() == lines_s.len(),
            v@ == text@,
            lines_s == lines(text@),
            rate_key@ == "rate"@,
            burst_key@ == "burst"@,
            forall|j: int|
                0 <= j < ls.len() ==> 0 <= (#[trigger] ls[j]).0 <= ls[j].1 <= v.len() && v@.subrange(
                    ls[j].0 as int,
                    ls[j].1 as int,
                ) == lines_s[j],
            match rate {
                None => last_value(lines_s, i as int, "rate"@) is None,
                Some(p) => p.0 <= p.1 <= v.len() && last_value(lines_s, i as int, "rate"@) == Some(
                    v@.subrange(p.0 as int, p.1 as int),
                ),
            },
            match burst {
                None => last_value(lines_s, i as int, "burst"@) is None,
                Some(p) => p.0 <= p.1 <= v.len() && last_value(lines_s, i as int, "burst"@)
                    == Some(v@.subrange(p.0 as int, p.1 as int)),
            },
        decreases ls.len() - i,
    {
        let (lo, hi) = ls[i];
        let ghost line = lines_s[i as int];
        let (a, b) = trim_range(&v, lo, hi);
        let ghost l = trim(line);
        if a < b && v[a] != '#' {
            let parts = split_ranges(&v, a, b, '=');
            let (k0, k1) = parts[0];
            let ghost k = split_char(l, '=')[0];
            assert(k.len() == k1 - k0);
            if k1 < b {
                let (ka, kb) = trim_range(&v, k0, k1);
                let (va, vb) = trim_range(&v, k1 + 1, b);
                assert(v@.subrange(k0 as int, k1 as int) == k);
                assert(v@.subrange(k1 + 1, b as int) =~= l.skip(k.len() as int + 1));
                assert(config_entry(line) == Some(
                    (v@.subrange(ka as int, kb as int), v@.subrange(va as int, vb as int)),
                ));
                if range_eq(&v, ka, kb, &rate_key) {
                    rate = Some((va, vb));
                }
                if range_eq(&v, ka, kb, &burst_key) {
                    burst = Some((va, vb));
                }
            } else {
                assert(config_entry(line) is None);
            }
        } else {
            proof {
                if a < b {
                    assert(l[0] == v@[a as int]);
                }
            }
            assert(config_entry(line) is None);
        }
        i = i + 1;
    }
    let rate_per_sec = match setting_value(&v, rate, DEFAULT_RATE) {
        Some(n) => n,
        None => {
            return Err(ConfigError::Invalid("rate"));
        },
    };
    let burst = match setting_value(&v, burst, DEFAULT_BURST) {
        Some(n) => n,
        None => {
            return Err(ConfigError::Invalid("burst"));
        },
    };
    Ok(Config { rate_per_sec, burst })
}


} // verus!
