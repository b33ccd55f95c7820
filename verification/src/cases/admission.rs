//! Admission control for a single-threaded job runner: live settings, the
//! control channel that updates them, and the guard in front of job starts.

use vstd::prelude::*;

verus! {

#[verifier::external_type_specification]
#[verifier::external_body]
#[verifier::reject_recursive_types(T)]
pub struct ExCell<T: ?Sized>(std::cell::Cell<T>);

/// `Cell::new`.
#[verifier::external_body]
fn cell_new(v: u32) -> (c: std::cell::Cell<u32>) {
    std::cell::Cell::new(v)
}

/// `Cell::get`: the value most recently stored, by any holder of the cell;
/// which value that is stays unsaid here.
#[verifier::external_body]
fn cell_get(c: &std::cell::Cell<u32>) -> (v: u32) {
    c.get()
}

/// `Cell::set`: stores `v` for every holder of the cell.
#[verifier::external_body]
fn cell_set(c: &std::cell::Cell<u32>, v: u32) {
    c.set(v)
}

/// Operator settings.
///
/// A `Settings` value is a live view rather than a snapshot: the control
/// channel installs new values into it while the process is running, and
/// every component holding a reference observes the new value on its next
/// read.
#[derive(Debug)]
pub struct Settings {
    concurrent_jobs: std::cell::Cell<u32>,
}

impl Settings {
    /// Settings holding `concurrent_jobs`. The value lives in a `Cell` that
    /// every holder may update, so no clause here says what it holds.
    pub fn new(concurrent_jobs: u32) -> (s: Settings) {
        Settings { concurrent_jobs: cell_new(concurrent_jobs) }
    }

    /// How many jobs may be in flight at once, as of right now: whatever was
    /// stored last, by `new` or by any holder through `set_concurrent_jobs`.
    /// That history is not tracked here, so the value is unsaid.
    pub fn concurrent_jobs(&self) -> (n: u32) {
        cell_get(&self.concurrent_jobs)
    }

    /// Install a new value. Every holder of a `&Settings` sees it from here on.
    pub fn set_concurrent_jobs(&self, jobs: u32) {
        cell_set(&self.concurrent_jobs, jobs)
    }
}

/// One instruction from the operator.
#[derive(Debug, Clone, Copy, PartialEq, Eq)]
pub enum Update {
    ConcurrentJobs(u32),
}

/// Apply an update to the process settings.
pub fn apply(settings: &Settings, update: Update) {
    match update {
        Update::ConcurrentJobs(n) => settings.set_concurrent_jobs(n),
    }
}

/// Guard in front of the job runner.
pub struct Limiter<'a> {
    settings: &'a Settings,
    running: u32,
}

impl<'a> Limiter<'a> {
    /// Jobs in flight.
    pub closed spec fn in_flight(&self) -> u32 {
        self.running
    }

    pub fn new(settings: &'a Settings) -> (l: Limiter<'a>)
        ensures
            l.in_flight() == 0,
    {
        Limiter { settings, running: 0 }
    }

    /// Admit one more job against `limit`: there is room while fewer than
    /// `limit` jobs are in flight.
    pub fn start_under(&mut self, limit: u32) -> (started: bool)
        ensures
            started == (old(self).in_flight() < limit),
            started ==> final(self).in_flight() == old(self).in_flight() + 1,
            !started ==> final(self).in_flight() == old(self).in_flight(),
    {
        if self.running >= limit {
            return false;
        }
        self.running = self.running + 1;
        true
    }

    /// Admit one job if there is room for it under the limit the settings
    /// hold right now. Which way it goes depends on that limit, which is
    /// unsaid (see `concurrent_jobs`); `start_under` states the decision for
    /// every limit.
    pub fn try_start(&mut self) -> (started: bool)
        ensures
            started ==> final(self).in_flight() == old(self).in_flight() + 1,
            !started ==> final(self).in_flight() == old(self).in_flight(),
    {
        let limit = self.settings.concurrent_jobs();
        self.start_under(limit)
    }

    /// Report that a job finished and gave its slot back.
    pub fn finish(&mut self)
        ensures
            final(self).in_flight() == (if old(self).in_flight() == 0 {
                0
            } else {
                old(self).in_flight() - 1
            }),
    {
        self.running = self.running.saturating_sub(1);
    }

    /// Jobs currently in flight.
    pub fn running(&self) -> (n: u32)
        ensures
            n == self.in_flight(),
    {
        self.running
    }
}

} // verus!
