//! A small in-memory diagnostic log backed by a bounded ring buffer.
//!
//! Operators configure how many entries they want retained; the buffer decides
//! how many it is willing to allocate.

use vstd::prelude::*;
use vstd::std_specs::slice::into_iter_elts;
use crate::text::owned;

verus! {

/// The largest ring this build will allocate.
///
/// Configuration is free to ask for more than this. The request is clamped so
/// that a mistyped configuration value cannot pin an unbounded amount of
/// memory.
pub const HARD_CAP: usize = 64;

#[derive(Debug, Clone, PartialEq, Eq)]
pub struct Entry {
    pub level: u8,
    pub message: String,
}

/// A ring holding at most [`HARD_CAP`] entries.
///
/// The ring never grows and never refuses a push: once it is full, pushing
/// overwrites the oldest entry it is holding.
#[derive(Debug)]
pub struct RingBuffer {
    slots: Vec<Entry>,
    oldest: usize,
    cap: usize,
}

/// How many entries a log configured for `limit` retains: the limit, but
/// never more than [`HARD_CAP`].
pub open spec fn retained(limit: usize) -> usize {
    if limit < HARD_CAP {
        limit
    } else {
        HARD_CAP
    }
}

/// One push onto a ring of capacity `cap` holding `st.0`, whose oldest slot
/// is `st.1`: appended while there is room, written over the oldest entry
/// once full, the oldest slot then moving on by one.
pub open spec fn ring_push(st: (Seq<Entry>, nat), cap: nat, e: Entry) -> (Seq<Entry>, nat) {
    if st.0.len() < cap {
        (st.0.push(e), st.1)
    } else {
        (st.0.update(st.1 as int, e), (st.1 + 1) % cap)
    }
}

/// The ring after pushing each of `es` in order.
pub open spec fn ring_after(st: (Seq<Entry>, nat), cap: nat, es: Seq<Entry>) -> (Seq<Entry>, nat)
    decreases es.len(),
{
    if es.len() == 0 {
        st
    } else {
        ring_push(ring_after(st, cap, es.drop_last()), cap, es.last())
    }
}

/// A run of pushes onto a ring: it holds as many entries as were pushed, up
/// to its capacity, never more; while the pushes fit, it holds exactly what
/// was pushed, in order; and its oldest slot stays inside the ring.
pub proof fn law_ring_holds_what_fits(st: (Seq<Entry>, nat), cap: nat, es: Seq<Entry>)
    requires
        cap >= 1,
        st.0.len() <= cap,
        st.1 < cap,
    ensures
        ring_after(st, cap, es).0.len() == if st.0.len() + es.len() <= cap {
            st.0.len() + es.len()
        } else {
            cap
        },
        ring_after(st, cap, es).1 < cap,
        st.0.len() + es.len() <= cap ==> ring_after(st, cap, es).0 == st.0 + es,
    decreases es.len(),
{
    if es.len() > 0 {
        law_ring_holds_what_fits(st, cap, es.drop_last());
        if st.0.len() + es.len() <= cap {
            assert(st.0 + es.drop_last() + seq![es.last()] =~= st.0 + es);
            assert((st.0 + es.drop_last()).push(es.last()) =~= st.0 + es);
        }
    }
}

/// `requested` clamped to `1..=HARD_CAP`.
pub open spec fn clamped(requested: usize) -> usize {
    if requested < 1 {
        1
    } else if requested > HARD_CAP {
        HARD_CAP
    } else {
        requested
    }
}

impl RingBuffer {
    /// The slots in storage order.
    pub closed spec fn entries(&self) -> Seq<Entry> {
        self.slots@
    }

    pub closed spec fn cap_spec(&self) -> usize {
        self.cap
    }

    /// Index of the slot the next push overwrites once the ring is full.
    pub closed spec fn oldest_slot(&self) -> usize {
        self.oldest
    }

    pub closed spec fn wf(&self) -> bool {
        &&& 1 <= self.cap <= HARD_CAP
        &&& self.slots@.len() <= self.cap
        &&& self.oldest < self.cap
        &&& self.slots@.len() < self.cap ==> self.oldest == 0
    }

    /// The slots after pushing `e`: appended while there is room, written
    /// over the oldest entry once the ring is full.
    pub open spec fn pushed(self, e: Entry) -> Seq<Entry> {
        if self.entries().len() < self.cap_spec() {
            self.entries().push(e)
        } else {
            self.entries().update(self.oldest_slot() as int, e)
        }
    }

    /// Allocate a ring for `requested` entries, clamped to [`HARD_CAP`].
    pub fn with_capacity(requested: usize) -> (r: RingBuffer)
        ensures
            r.wf(),
            r.cap_spec() == clamped(requested),
            r.entries() == Seq::<Entry>::empty(),
            r.oldest_slot() == 0,
    {
        let cap = if requested < 1 {
            1
        } else if requested > HARD_CAP {
            HARD_CAP
        } else {
            requested
        };
        RingBuffer { slots: Vec::with_capacity(cap), oldest: 0, cap }
    }

    /// How many entries this ring can hold at once.
    pub fn capacity(&self) -> (n: usize)
        ensures
            n == self.cap_spec(),
    {
        self.cap
    }

    pub fn len(&self) -> (n: usize)
        ensures
            n == self.entries().len(),
    {
        self.slots.len()
    }

    pub fn is_empty(&self) -> (b: bool)
        ensures
            b == (self.entries().len() == 0),
    {
        self.slots.len() == 0
    }

    pub fn is_full(&self) -> (b: bool)
        ensures
            b == (self.entries().len() == self.cap_spec()),
    {
        self.slots.len() == self.cap
    }

    /// Append an entry, replacing the oldest one when the ring is full.
    pub fn push(&mut self, entry: Entry)
        requires
            old(self).wf(),
        ensures
            final(self).wf(),
            final(self).cap_spec() == old(self).cap_spec(),
            final(self).entries() == old(self).pushed(entry),
            old(self).entries().len() == old(self).cap_spec() ==> final(self).oldest_slot() == (old(
                self,
            ).oldest_slot() + 1) % (old(self).cap_spec() as int),
            (final(self).entries(), final(self).oldest_slot() as nat) == ring_push(
                (old(self).entries(), old(self).oldest_slot() as nat),
                old(self).cap_spec() as nat,
                entry,
            ),
    {
        if self.slots.len() < self.cap {
            self.slots.push(entry);
        } else {
            let i = self.oldest;
            self.slots.set(i, entry);
            self.oldest = (self.oldest + 1) % self.cap;
        }
    }

    /// The entries in storage order.
    pub fn iter(&self) -> (it: std::slice::Iter<'_, Entry>)
        ensures
            into_iter_elts(it) == self.entries(),
    {
        self.slots.as_slice().iter()
    }
}

/// Operator-supplied logger settings.
#[derive(Debug, Clone)]
pub struct Config {
    /// How many entries the operator asked the log to retain.
    pub max_entries: usize,
}

impl Config {
    pub fn new(max_entries: usize) -> (c: Config)
        ensures
            c.max_entries == max_entries,
    {
        Config { max_entries }
    }
}

#[derive(Debug, PartialEq, Eq)]
pub enum LogError {
    /// The log is already holding every entry it is allowed to hold.
    Full,
}

#[derive(Debug)]
pub struct Logger {
    buffer: RingBuffer,
    config: Config,
    rejected: usize,
}

impl Logger {
    pub closed spec fn held(&self) -> Seq<Entry> {
        self.buffer.entries()
    }

    pub closed spec fn limit(&self) -> usize {
        self.config.max_entries
    }

    pub closed spec fn refused(&self) -> usize {
        self.rejected
    }

    pub closed spec fn ring(&self) -> RingBuffer {
        self.buffer
    }

    pub closed spec fn wf(&self) -> bool {
        &&& self.buffer.wf()
        &&& self.buffer.cap_spec() == clamped(self.config.max_entries)
    }

    pub fn new(config: Config) -> (l: Logger)
        ensures
            l.wf(),
            l.limit() == config.max_entries,
            l.held() == Seq::<Entry>::empty(),
            l.refused() == 0,
    {
        let buffer = RingBuffer::with_capacity(config.max_entries);
        Logger { buffer, config, rejected: 0 }
    }

    /// Record one entry.
    ///
    /// Once the log holds as many entries as it may retain (the configured
    /// limit, but never more than the ring holds), the append is refused with
    /// [`LogError::Full`] and counted; nothing held is ever discarded.
    pub fn append(&mut self, level: u8, message: &str) -> (r: Result<(), LogError>)
        requires
            old(self).wf(),
            old(self).refused() < usize::MAX,
        ensures
            final(self).wf(),
            final(self).limit() == old(self).limit(),
            old(self).held().len() >= retained(old(self).limit()) ==> r == Err::<(), LogError>(LogError::Full)
                && final(self).refused() == old(self).refused() + 1 && final(self).held() == old(
                self,
            ).held(),
            old(self).held().len() < retained(old(self).limit()) ==> r is Ok && final(self).refused() == old(
                self,
            ).refused() && exists|e: Entry|
                e.level == level && e.message@ == message@ && final(self).held() == #[trigger] old(
                    self,
                ).held().push(e),
    {
        if self.buffer.len() >= self.config.max_entries || self.buffer.is_full() {
            self.rejected = self.rejected + 1;
            return Err(LogError::Full);
        }
        let e = Entry { level, message: owned(message) };
        let ghost ge = e;
        self.buffer.push(e);
        assert(self.held() == old(self).held().push(ge));
        Ok(())
    }

    /// How many appends were refused because the log was full.
    pub fn rejected(&self) -> (n: usize)
        ensures
            n == self.refused(),
    {
        self.rejected
    }

    /// How many entries are currently held.
    pub fn stored(&self) -> (n: usize)
        ensures
            n == self.held().len(),
    {
        self.buffer.len()
    }

    /// The messages held, in storage order.
    pub fn messages(&self) -> (v: Vec<String>)
        ensures
            v@.len() == self.held().len(),
            forall|i: int| 0 <= i < v@.len() ==> #[trigger] v@[i]@ == self.held()[i].message@,
    {
        let mut out: Vec<String> = Vec::new();
        let mut i: usize = 0;
        while i < self.buffer.slots.len()
            invariant
                i <= self.buffer.slots.len(),
                out@.len() == i,
                forall|j: int| 0 <= j < i ==> #[trigger] out@[j]@ == self.buffer.slots@[j].message@,
            decreases self.buffer.slots.len() - i,
        {
            let m = self.buffer.slots[i].message.clone();
            out.push(m);
            i = i + 1;
        }
        out
    }
}

/// An accepted append only ever adds an entry: whatever the configured
/// limit, while the log holds fewer than it retains, the ring is not full,
/// so nothing it holds is overwritten.
pub proof fn law_append_never_overwrites(l: Logger, e: Entry)
    requires
        l.wf(),
        l.held().len() < retained(l.limit()),
    ensures
        l.ring().pushed(e) == l.held().push(e),
{
}

/// The slot `j` places after the oldest slot `oldest`, in a ring of `cap`.
pub open spec fn from_oldest(oldest: nat, j: int, cap: nat) -> int {
    if oldest + j < cap {
        oldest + j
    } else {
        oldest + j - cap
    }
}

proof fn lemma_pushes_invariant(states: Seq<(Seq<Entry>, nat)>, cap: nat, xs: Seq<Entry>, k: int)
    requires
        cap >= 1,
        states.len() == xs.len() + 1,
        states[0].0.len() == 0,
        states[0].1 == 0,
        forall|i: int| 0 <= i < xs.len() ==> #[trigger] states[i + 1] == ring_push(states[i], cap, xs[i]),
        0 <= k <= xs.len(),
    ensures
        k <= cap ==> states[k].0 == xs.take(k) && states[k].1 == 0,
        k >= cap ==> {
            &&& states[k].0.len() == cap
            &&& states[k].1 < cap
            &&& forall|j: int| 0 <= j < cap ==> #[trigger] states[k].0[from_oldest(states[k].1, j, cap)] == xs[k - cap + j]
        },
    decreases k,
{
    if k == 0 {
        assert(states[0].0 =~= xs.take(0));
    } else {
        let p = k - 1;
        lemma_pushes_invariant(states, cap, xs, p);
        assert(states[p + 1] == ring_push(states[p], cap, xs[p]));
        let st = states[p];
        let nx = states[k];
        if p < cap {
            assert(nx.0 =~= xs.take(k));
            if k >= cap {
                assert forall|j: int| 0 <= j < cap implies #[trigger] nx.0[from_oldest(nx.1, j, cap)] == xs[k - cap + j] by {
                    assert(from_oldest(nx.1, j, cap) == j);
                }
            }
        } else {
            let o = st.1;
            assert(nx.0 == st.0.update(o as int, xs[p]));
            if o + 1 < cap {
                vstd::arithmetic::div_mod::lemma_small_mod((o + 1) as nat, cap);
                assert(nx.1 == o + 1);
            } else {
                vstd::arithmetic::div_mod::lemma_mod_self_0(cap as int);
                assert(nx.1 == 0);
            }
            assert forall|j: int| 0 <= j < cap implies #[trigger] nx.0[from_oldest(nx.1, j, cap)] == xs[k - cap + j] by {
                if j == cap - 1 {
                    assert(from_oldest(nx.1, j, cap) == o);
                } else {
                    assert(from_oldest(nx.1, j, cap) == from_oldest(o, j + 1, cap));
                    assert(from_oldest(o, j + 1, cap) != o);
                    assert(st.0[from_oldest(st.1, j + 1, cap)] == xs[p - cap + (j + 1)]);
                }
            }
        }
    }
}

/// A run of pushes onto an empty ring, each related to the next exactly as
/// `push` states: while the pushes fit, the ring holds exactly what was
/// pushed, in order; once it has filled, it holds exactly the last `cap`
/// entries pushed, the oldest of them in the oldest slot and the rest
/// following it round the ring. A push into a full ring replaces the oldest
/// entry and never grows it.
pub proof fn law_each_push_keeps_the_latest(states: Seq<(Seq<Entry>, nat)>, cap: nat, xs: Seq<Entry>)
    requires
        cap >= 1,
        states.len() == xs.len() + 1,
        states[0].0.len() == 0,
        states[0].1 == 0,
        forall|i: int| 0 <= i < xs.len() ==> #[trigger] states[i + 1] == ring_push(states[i], cap, xs[i]),
    ensures
        xs.len() <= cap ==> states.last().0 == xs,
        xs.len() >= cap ==> {
            &&& states.last().0.len() == cap
            &&& states.last().1 < cap
            &&& forall|j: int|
                0 <= j < cap ==> #[trigger] states.last().0[from_oldest(states.last().1, j, cap)]
                    == xs[xs.len() - cap + j]
        },
{
    let m = xs.len() as int;
    lemma_pushes_invariant(states, cap, xs, m);
    assert(xs.take(m) =~= xs);
}

} // verus!
