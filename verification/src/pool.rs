//! A model of the worker pool's shared job queue.
//!
//! The pool itself is a set of long-lived worker threads pulling from one
//! shared queue; the threads and their synchronisation live outside this
//! crate. What is modelled and verified here is the queue discipline they
//! share: jobs are accepted at the back only while the queue is open,
//! handed out from the front one at a time, and every handed-out job is
//! recorded, so acceptance and hand-out can be related exactly.

use vstd::prelude::*;

verus! {

/// The shared job queue of a worker pool.
pub struct JobQueue<T> {
    /// Jobs accepted and not yet handed to a worker, oldest first.
    pub pending: Vec<T>,
    /// Whether the submission side has been closed by shutdown.
    pub closed: bool,
    /// Every job handed to a worker so far, in hand-out order.
    pub handed_out: Ghost<Seq<T>>,
}

impl<T> JobQueue<T> {
    /// All jobs this queue ever accepted, in submission order.
    pub open spec fn accepted(&self) -> Seq<T> {
        self.handed_out@ + self.pending@
    }

    /// An open, empty queue.
    pub fn new() -> (q: Self)
        ensures
            !q.closed,
            q.pending@ == Seq::<T>::empty(),
            q.handed_out@ == Seq::<T>::empty(),
    {
        JobQueue { pending: Vec::new(), closed: false, handed_out: Ghost(Seq::empty()) }
    }

    /// Accepts `job` for later execution, appending exactly one copy of
    /// it, or reports failure — leaving the queue untouched — once the
    /// submission side has been closed.
    pub fn submit(&mut self, job: T) -> (accepted: bool)
        ensures
            accepted == !old(self).closed,
            final(self).closed == old(self).closed,
            final(self).handed_out@ == old(self).handed_out@,
            accepted ==> final(self).pending@ == old(self).pending@.push(job),
            !accepted ==> final(self).pending@ == old(self).pending@,
    {
        if self.closed {
            false
        } else {
            self.pending.push(job);
            true
        }
    }

    /// Hands the oldest pending job to a worker. The job leaves the
    /// pending queue as it is recorded as handed out, so no job can be
    /// handed out a second time, and none disappears: the accepted jobs
    /// are unchanged.
    pub fn next_job(&mut self) -> (job: Option<T>)
        ensures
            final(self).closed == old(self).closed,
            old(self).pending@.len() == 0 ==> job is None && *final(self) == *old(self),
            old(self).pending@.len() > 0 ==> (job matches Some(j) && j == old(self).pending@[0]
                && final(self).pending@ == old(self).pending@.skip(1)
                && final(self).handed_out@ == old(self).handed_out@.push(j)),
            final(self).accepted() == old(self).accepted(),
    {
        if self.pending.len() == 0 {
            None
        } else {
            let j = self.pending.remove(0);
            proof {
                assert(old(self).pending@.remove(0) =~= old(self).pending@.skip(1));
            }
            self.handed_out = Ghost(self.handed_out@.push(j));
            proof {
                assert(old(self).handed_out@.push(j) + old(self).pending@.skip(1) =~= old(
                    self,
                ).handed_out@ + old(self).pending@);
            }
            Some(j)
        }
    }

    /// Closes the submission side. Closing is idempotent and abandons
    /// nothing: pending jobs stay queued for the workers to drain.
    pub fn close(&mut self)
        ensures
            final(self).closed,
            final(self).pending@ == old(self).pending@,
            final(self).handed_out@ == old(self).handed_out@,
    {
        self.closed = true;
    }

    /// Whether the submission side has been closed.
    pub fn is_closed(&self) -> (b: bool)
        ensures
            b == self.closed,
    {
        self.closed
    }

    /// How many accepted jobs still await a worker.
    pub fn pending_len(&self) -> (n: usize)
        ensures
            n == self.pending@.len(),
    {
        self.pending.len()
    }
}

/// Exactly-once delivery: once the queue has drained, the jobs handed to
/// workers are exactly the jobs it accepted — each accepted job was handed
/// out once, in submission order, and nothing else was handed out.
pub proof fn lemma_drained_queue_handed_out_all<T>(q: JobQueue<T>)
    requires
        q.pending@.len() == 0,
    ensures
        q.handed_out@ == q.accepted(),
{
    assert(q.handed_out@ + q.pending@ =~= q.handed_out@);
}

} // verus!
