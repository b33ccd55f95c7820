//! An ingest pipeline, the interval counters it writes into, and the metrics
//! sampler that reads them.

use vstd::prelude::*;
use crate::text::{chars_of, is_blank, is_blank_range};

verus! {

/// Counters describing what the pipeline has seen.
///
/// Reading a counter is destructive: the tally goes back to zero as it is
/// read, so that two consecutive reads describe two disjoint intervals rather
/// than two overlapping running totals.
#[derive(Debug, Default)]
pub struct Counters {
    accepted: u64,
    rejected: u64,
}

impl Counters {
    /// Records accepted since the last read.
    pub closed spec fn accepted_tally(&self) -> u64 {
        self.accepted
    }

    /// Records rejected since the last read.
    pub closed spec fn rejected_tally(&self) -> u64 {
        self.rejected
    }

    pub fn new() -> (c: Counters)
        ensures
            c.accepted_tally() == 0,
            c.rejected_tally() == 0,
    {
        Counters { accepted: 0, rejected: 0 }
    }

    pub fn record_accepted(&mut self)
        requires
            old(self).accepted_tally() < u64::MAX,
        ensures
            final(self).accepted_tally() == old(self).accepted_tally() + 1,
            final(self).rejected_tally() == old(self).rejected_tally(),
            (final(self).accepted_tally() as nat, final(self).rejected_tally() as nat) == tallies_after(
                old(self).accepted_tally() as nat,
                old(self).rejected_tally() as nat,
                seq![true],
            ),
    {
        self.accepted = self.accepted + 1;
        proof {
            let c = seq![true];
            assert(c.drop_last() =~= Seq::<bool>::empty());
            assert(c.last() == true);
            reveal_with_fuel(tallies_after, 2);
        }
    }

    pub fn record_rejected(&mut self)
        requires
            old(self).rejected_tally() < u64::MAX,
        ensures
            final(self).rejected_tally() == old(self).rejected_tally() + 1,
            final(self).accepted_tally() == old(self).accepted_tally(),
            (final(self).accepted_tally() as nat, final(self).rejected_tally() as nat) == tallies_after(
                old(self).accepted_tally() as nat,
                old(self).rejected_tally() as nat,
                seq![false],
            ),
    {
        self.rejected = self.rejected + 1;
        proof {
            let c = seq![false];
            assert(c.drop_last() =~= Seq::<bool>::empty());
            assert(c.last() == false);
            reveal_with_fuel(tallies_after, 2);
        }
    }

    /// Records accepted since the previous read; the tally restarts at zero.
    pub fn accepted(&mut self) -> (n: u64)
        ensures
            n == old(self).accepted_tally(),
            final(self).accepted_tally() == 0,
            final(self).rejected_tally() == old(self).rejected_tally(),
    {
        let n = self.accepted;
        self.accepted = 0;
        n
    }

    /// Records rejected since the previous read; the tally restarts at zero.
    pub fn rejected(&mut self) -> (n: u64)
        ensures
            n == old(self).rejected_tally(),
            final(self).rejected_tally() == 0,
            final(self).accepted_tally() == old(self).accepted_tally(),
    {
        let n = self.rejected;
        self.rejected = 0;
        n
    }
}

/// The tallies after a run of record calls, `true` for an accepted record
/// and `false` for a rejected one.
pub open spec fn tallies_after(accepted: nat, rejected: nat, calls: Seq<bool>) -> (nat, nat)
    decreases calls.len(),
{
    if calls.len() == 0 {
        (accepted, rejected)
    } else {
        let s = tallies_after(accepted, rejected, calls.drop_last());
        if calls.last() {
            (s.0 + 1, s.1)
        } else {
            (s.0, s.1 + 1)
        }
    }
}

/// How many of `calls` are `true`.
pub open spec fn count_true(calls: Seq<bool>) -> nat
    decreases calls.len(),
{
    if calls.len() == 0 {
        0
    } else {
        count_true(calls.drop_last()) + if calls.last() {
            1nat
        } else {
            0nat
        }
    }
}

/// After `k` record calls, of which `a` accepted, the tallies have grown by
/// exactly `a` accepted and `k - a` rejected: every call is counted once,
/// in its own tally.
pub proof fn law_counters_count_every_call(accepted: nat, rejected: nat, calls: Seq<bool>)
    ensures
        tallies_after(accepted, rejected, calls).0 == accepted + count_true(calls),
        tallies_after(accepted, rejected, calls).1 == rejected + calls.len() - count_true(calls),
    decreases calls.len(),
{
    if calls.len() > 0 {
        law_counters_count_every_call(accepted, rejected, calls.drop_last());
        lemma_count_true_bound(calls.drop_last());
    }
}

proof fn lemma_count_true_bound(calls: Seq<bool>)
    ensures
        count_true(calls) <= calls.len(),
    decreases calls.len(),
{
    if calls.len() > 0 {
        lemma_count_true_bound(calls.drop_last());
    }
}

#[derive(Debug, PartialEq, Eq)]
pub struct Gauges {
    pub accepted: u64,
    pub rejected: u64,
}

/// Sample the pipeline counters for the metrics endpoint: the records seen
/// since the previous sample. Both tallies restart.
pub fn sample(counters: &mut Counters) -> (g: Gauges)
    ensures
        g.accepted == old(counters).accepted_tally(),
        g.rejected == old(counters).rejected_tally(),
        final(counters).accepted_tally() == 0,
        final(counters).rejected_tally() == 0,
{
    let accepted = counters.accepted();
    let rejected = counters.rejected();
    Gauges { accepted, rejected }
}

/// What one batch did.
#[derive(Debug, PartialEq, Eq)]
pub struct Summary {
    pub total: usize,
    pub elapsed_ms: u64,
}

/// What one `ingest` does to (taken, time, accepted, rejected).
pub open spec fn ingest_step(s: (nat, nat, nat, nat), record: Seq<char>) -> (nat, nat, nat, nat) {
    if is_blank(record) {
        (s.0 + 1, s.1 + 2, s.2, s.3 + 1)
    } else {
        (s.0 + 1, s.1 + 2, s.2 + 1, s.3)
    }
}

/// (taken, time, accepted, rejected) after ingesting `records` in order.
pub open spec fn ingested(s: (nat, nat, nat, nat), records: Seq<Seq<char>>) -> (nat, nat, nat, nat)
    decreases records.len(),
{
    if records.len() == 0 {
        s
    } else {
        ingest_step(ingested(s, records.drop_last()), records.last())
    }
}

/// How many of `records` are not blank.
pub open spec fn non_blank_count(records: Seq<Seq<char>>) -> nat
    decreases records.len(),
{
    if records.len() == 0 {
        0
    } else {
        non_blank_count(records.drop_last()) + if is_blank(records.last()) {
            0nat
        } else {
            1nat
        }
    }
}

proof fn lemma_non_blank_bound(records: Seq<Seq<char>>)
    ensures
        non_blank_count(records) <= records.len(),
    decreases records.len(),
{
    if records.len() > 0 {
        lemma_non_blank_bound(records.drop_last());
    }
}

/// A batch summary counts the batch: after `k` records the batch has taken
/// `k` more and accounted `2k` ms more, the non-blank ones have been
/// accepted and the blank ones rejected, so the next `finish_batch` reports
/// them all.
pub proof fn law_batch_counts_every_record(s: (nat, nat, nat, nat), records: Seq<Seq<char>>)
    ensures
        ingested(s, records).0 == s.0 + records.len(),
        ingested(s, records).1 == s.1 + 2 * records.len(),
        ingested(s, records).2 == s.2 + non_blank_count(records),
        ingested(s, records).3 == s.3 + records.len() - non_blank_count(records),
    decreases records.len(),
{
    if records.len() > 0 {
        law_batch_counts_every_record(s, records.drop_last());
        lemma_non_blank_bound(records.drop_last());
    }
}

#[derive(Debug)]
pub struct Pipeline {
    counters: Counters,
    total: usize,
    elapsed_ms: u64,
}

impl Pipeline {
    pub closed spec fn tallies(&self) -> Counters {
        self.counters
    }

    /// Records taken in the current batch.
    pub closed spec fn batch_total(&self) -> usize {
        self.total
    }

    /// Time accounted to the current batch.
    pub closed spec fn batch_elapsed(&self) -> u64 {
        self.elapsed_ms
    }

    pub fn new() -> (p: Pipeline)
        ensures
            p.tallies().accepted_tally() == 0,
            p.tallies().rejected_tally() == 0,
            p.batch_total() == 0,
            p.batch_elapsed() == 0,
    {
        Pipeline { counters: Counters::new(), total: 0, elapsed_ms: 0 }
    }

    /// The counters this pipeline writes into.
    pub fn counters(&mut self) -> (c: &mut Counters)
        ensures
            *c == old(self).tallies(),
            final(self).tallies() == *final(c),
            final(self).batch_total() == old(self).batch_total(),
            final(self).batch_elapsed() == old(self).batch_elapsed(),
    {
        &mut self.counters
    }

    /// The batch and tallies as one value: taken, time, accepted, rejected.
    pub open spec fn state(&self) -> (nat, nat, nat, nat) {
        (
            self.batch_total() as nat,
            self.batch_elapsed() as nat,
            self.tallies().accepted_tally() as nat,
            self.tallies().rejected_tally() as nat,
        )
    }

    /// Take one record. Blank records are rejected.
    pub fn ingest(&mut self, record: &str) -> (accepted: bool)
        requires
            old(self).batch_total() < usize::MAX,
            old(self).batch_elapsed() <= u64::MAX - 2,
            old(self).tallies().accepted_tally() < u64::MAX,
            old(self).tallies().rejected_tally() < u64::MAX,
        ensures
            accepted == !is_blank(record@),
            final(self).batch_total() == old(self).batch_total() + 1,
            final(self).batch_elapsed() == old(self).batch_elapsed() + 2,
            accepted ==> final(self).tallies().accepted_tally() == old(self).tallies().accepted_tally()
                + 1 && final(self).tallies().rejected_tally() == old(self).tallies().rejected_tally(),
            !accepted ==> final(self).tallies().rejected_tally() == old(self).tallies().rejected_tally()
                + 1 && final(self).tallies().accepted_tally() == old(self).tallies().accepted_tally(),
            final(self).state() == ingest_step(old(self).state(), record@),
    {
        self.total = self.total + 1;
        self.elapsed_ms = self.elapsed_ms + 2;
        let v = chars_of(record);
        assert(v@.subrange(0, v@.len() as int) =~= record@);
        if is_blank_range(&v, 0, v.len()) {
            self.counters.record_rejected();
            false
        } else {
            self.counters.record_accepted();
            true
        }
    }

    /// Close the current batch and describe it; the next batch starts from
    /// zero.
    pub fn finish_batch(&mut self) -> (s: Summary)
        ensures
            s.total == old(self).batch_total(),
            s.elapsed_ms == old(self).batch_elapsed(),
            final(self).batch_total() == 0,
            final(self).batch_elapsed() == 0,
            final(self).tallies() == old(self).tallies(),
    {
        let summary = Summary { total: self.total, elapsed_ms: self.elapsed_ms };
        self.total = 0;
        self.elapsed_ms = 0;
        summary
    }
}

/// The same law over the calls themselves: `states[i]` is the pipeline's
/// (taken, time, accepted, rejected) before `ingest(records[i])`, each call
/// related to the next exactly as `ingest` states. After `k` calls since the
/// batch started (or since the last `finish_batch`, which leaves it at
/// zero), the batch has taken `k` records in `2k` ms, which is what the next
/// `finish_batch` reports, and the tallies have grown by the non-blank and
/// the blank records.
pub proof fn law_each_ingest_is_counted(states: Seq<(nat, nat, nat, nat)>, records: Seq<Seq<char>>)
    requires
        states.len() == records.len() + 1,
        states[0].0 == 0,
        states[0].1 == 0,
        forall|i: int| 0 <= i < records.len() ==> #[trigger] states[i + 1] == ingest_step(states[i], records[i]),
    ensures
        states.last().0 == records.len(),
        states.last().1 == 2 * records.len(),
        states.last().2 == states[0].2 + non_blank_count(records),
        states.last().3 == states[0].3 + records.len() - non_blank_count(records),
{
    lemma_states_are_ingested(states, records, records.len() as int);
    assert(records.take(records.len() as int) =~= records);
    law_batch_counts_every_record(states[0], records);
}

proof fn lemma_states_are_ingested(states: Seq<(nat, nat, nat, nat)>, records: Seq<Seq<char>>, k: int)
    requires
        states.len() == records.len() + 1,
        forall|i: int| 0 <= i < records.len() ==> #[trigger] states[i + 1] == ingest_step(states[i], records[i]),
        0 <= k <= records.len(),
    ensures
        states[k] == ingested(states[0], records.take(k)),
    decreases k,
{
    if k > 0 {
        lemma_states_are_ingested(states, records, k - 1);
        assert(records.take(k).drop_last() =~= records.take(k - 1));
        let j = k - 1;
        assert(states[j + 1] == ingest_step(states[j], records[j]));
    } else {
        assert(records.take(0) =~= Seq::<Seq<char>>::empty());
    }
}

/// The same law over the calls themselves: `tallies[i]` is (accepted,
/// rejected) before record call `i`, `calls[i]` says which of the two it
/// was, each call related to the next exactly as `record_accepted` and
/// `record_rejected` state. After the calls, a read of the accepted tally
/// returns how many accepted records there were since the tally last
/// restarted, and likewise for rejections.
pub proof fn law_each_record_call_is_counted(tallies: Seq<(nat, nat)>, calls: Seq<bool>)
    requires
        tallies.len() == calls.len() + 1,
        forall|i: int| 0 <= i < calls.len() ==> #[trigger] tallies[i + 1] == tallies_after(
            tallies[i].0,
            tallies[i].1,
            seq![calls[i]],
        ),
    ensures
        tallies.last().0 == tallies[0].0 + count_true(calls),
        tallies.last().1 == tallies[0].1 + calls.len() - count_true(calls),
        (forall|i: int| 0 <= i < calls.len() ==> #[trigger] calls[i]) ==> tallies.last().0 == tallies[0].0
            + calls.len() && tallies.last().1 == tallies[0].1,
{
    lemma_count_true_all(calls);
    lemma_tallies_chain(tallies, calls, calls.len() as int);
    assert(calls.take(calls.len() as int) =~= calls);
    law_counters_count_every_call(tallies[0].0, tallies[0].1, calls);
}

proof fn lemma_tallies_chain(tallies: Seq<(nat, nat)>, calls: Seq<bool>, k: int)
    requires
        tallies.len() == calls.len() + 1,
        forall|i: int| 0 <= i < calls.len() ==> #[trigger] tallies[i + 1] == tallies_after(
            tallies[i].0,
            tallies[i].1,
            seq![calls[i]],
        ),
        0 <= k <= calls.len(),
    ensures
        tallies[k] == tallies_after(tallies[0].0, tallies[0].1, calls.take(k)),
    decreases k,
{
    if k > 0 {
        lemma_tallies_chain(tallies, calls, k - 1);
        assert(calls.take(k).drop_last() =~= calls.take(k - 1));
        let c = seq![calls[k - 1]];
        assert(c.drop_last() =~= Seq::<bool>::empty());
        assert(c.last() == calls[k - 1]);
        reveal_with_fuel(tallies_after, 2);
        let j = k - 1;
        assert(tallies[j + 1] == tallies_after(tallies[j].0, tallies[j].1, seq![calls[j]]));
    } else {
        assert(calls.take(0) =~= Seq::<bool>::empty());
    }
}

proof fn lemma_count_true_all(calls: Seq<bool>)
    ensures
        (forall|i: int| 0 <= i < calls.len() ==> #[trigger] calls[i]) ==> count_true(calls) == calls.len(),
    decreases calls.len(),
{
    if calls.len() > 0 {
        lemma_count_true_all(calls.drop_last());
        if forall|i: int| 0 <= i < calls.len() ==> #[trigger] calls[i] {
            assert forall|i: int| 0 <= i < calls.drop_last().len() implies #[trigger] calls.drop_last()[i] by {
                assert(calls[i]);
            }
            assert(calls[calls.len() - 1]);
        }
    }
}

} // verus!
