//! Bookkeeping of one protocol family's bounded pool of capture sessions.

use vstd::prelude::*;

verus! {

/// The pool of one protocol family: `total` queued targets, started in
/// queue order, at most `threads` of them running at once.
#[derive(Debug)]
pub struct WorkerPool {
    threads: usize,
    total: usize,
    next: usize,
    active: usize,
    completed: usize,
}

impl WorkerPool {
    pub closed spec fn spec_threads(&self) -> nat {
        self.threads as nat
    }

    pub closed spec fn spec_total(&self) -> nat {
        self.total as nat
    }

    /// Targets started so far.
    pub closed spec fn spec_started(&self) -> nat {
        self.next as nat
    }

    /// Sessions running now.
    pub closed spec fn spec_active(&self) -> nat {
        self.active as nat
    }

    /// Completion signals received so far.
    pub closed spec fn spec_completed(&self) -> nat {
        self.completed as nat
    }

    /// Never more than `threads` sessions run; every started session has
    /// either completed or is running; nothing past the queue is started.
    pub open spec fn wf(&self) -> bool {
        &&& self.spec_active() <= self.spec_threads()
        &&& self.spec_completed() + self.spec_active() == self.spec_started()
        &&& self.spec_started() <= self.spec_total()
    }

    /// All targets were started and every session has reported.
    pub open spec fn spec_done(&self) -> bool {
        self.spec_started() == self.spec_total() && self.spec_active() == 0
    }

    /// A pool for `total` queued targets and a budget of `threads`.
    pub fn new(threads: usize, total: usize) -> (r: WorkerPool)
        ensures
            r.wf(),
            r.spec_threads() == threads,
            r.spec_total() == total,
            r.spec_started() == 0,
            r.spec_active() == 0,
            r.spec_completed() == 0,
    {
        WorkerPool { threads, total, next: 0, active: 0, completed: 0 }
    }

    /// Starts the next queued target if a slot is free, returning its index
    /// in the queue.
    pub fn start_next(&mut self) -> (r: Option<usize>)
        requires
            old(self).wf(),
        ensures
            final(self).wf(),
            final(self).spec_threads() == old(self).spec_threads(),
            final(self).spec_total() == old(self).spec_total(),
            final(self).spec_completed() == old(self).spec_completed(),
            old(self).spec_active() < old(self).spec_threads() && old(self).spec_started() < old(
                self,
            ).spec_total() ==> r == Some(old(self).spec_started() as usize)
                && final(self).spec_started() == old(self).spec_started() + 1
                && final(self).spec_active() == old(self).spec_active() + 1,
            !(old(self).spec_active() < old(self).spec_threads() && old(self).spec_started() < old(
                self,
            ).spec_total()) ==> r is None && *final(self) == *old(self),
    {
        if self.active < self.threads && self.next < self.total {
            let i = self.next;
            self.next = self.next + 1;
            self.active = self.active + 1;
            Some(i)
        } else {
            None
        }
    }

    /// Records one completion signal from a running session, whatever its
    /// outcome.
    pub fn complete(&mut self)
        requires
            old(self).wf(),
            old(self).spec_active() > 0,
        ensures
            final(self).wf(),
            final(self).spec_threads() == old(self).spec_threads(),
            final(self).spec_total() == old(self).spec_total(),
            final(self).spec_started() == old(self).spec_started(),
            final(self).spec_active() == old(self).spec_active() - 1,
            final(self).spec_completed() == old(self).spec_completed() + 1,
    {
        self.active = self.active - 1;
        self.completed = self.completed + 1;
    }

    /// Sessions running now.
    pub fn active(&self) -> (r: usize)
        ensures
            r == self.spec_active(),
    {
        self.active
    }

    /// Whether every target was started and has reported.
    pub fn is_done(&self) -> (r: bool)
        requires
            self.wf(),
        ensures
            r == self.spec_done(),
    {
        self.next == self.total && self.active == 0
    }
}

/// In every reachable state at most `threads` sessions run, and when the
/// pool is done the completion signals equal the targets dispatched, all of
/// the queue.
pub proof fn lemma_pool_bounded(p: WorkerPool)
    requires
        p.wf(),
    ensures
        p.spec_active() <= p.spec_threads(),
        p.spec_completed() <= p.spec_started(),
        p.spec_done() ==> p.spec_completed() == p.spec_started() && p.spec_completed()
            == p.spec_total(),
{
}

/// With a budget of at least one, a pool that is not done can always move:
/// a target can be started or a running session will report.
pub proof fn lemma_pool_progress(p: WorkerPool)
    requires
        p.wf(),
        p.spec_threads() > 0,
        !p.spec_done(),
    ensures
        p.spec_active() > 0 || (p.spec_active() < p.spec_threads() && p.spec_started()
            < p.spec_total()),
{
}

/// `started + completed` grows by one at each start and each completion and
/// never passes `2 * total`, which it reaches exactly when the pool is done:
/// with the progress law, a loop that starts when it can and otherwise
/// waits for a completion dispatches every queued target and then stops.
pub proof fn lemma_pool_measure(p: WorkerPool)
    requires
        p.wf(),
    ensures
        p.spec_started() + p.spec_completed() <= 2 * p.spec_total(),
        p.spec_done() <==> p.spec_started() + p.spec_completed() == 2 * p.spec_total(),
{
}

} // verus!
