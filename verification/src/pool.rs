//! A model of the fixed-size worker pool: a FIFO queue of job
//! identities shared by a fixed set of homogeneous workers, with
//! graceful teardown. The model carries the coordination rules the
//! pool obeys — what is accepted, in which order work is handed out,
//! and that nothing queued is ever dropped; the OS threads that act
//! them out live outside the library.

use vstd::prelude::*;

verus! {

/// Why the pool refused an operation.
#[derive(Clone, Copy, Debug, PartialEq, Eq, Structural)]
pub enum PoolError {
    /// A pool of zero workers cannot be built.
    InvalidPoolSize,
    /// The pool has been shut down; submitting more work is refused
    /// at once rather than left hanging.
    ShutDown,
}

/// The pool model: worker count, whether submissions are still
/// accepted, the queued jobs, and the jobs already handed to workers.
pub struct Threadpool {
    size: usize,
    accepting: bool,
    queue: Vec<u64>,
    done: Vec<u64>,
    submitted: Ghost<Seq<u64>>,
}

impl Threadpool {
    /// The fixed number of workers, set at construction.
    pub closed spec fn spec_size(&self) -> nat {
        self.size as nat
    }

    /// Whether the pool still accepts submissions.
    pub closed spec fn is_accepting(&self) -> bool {
        self.accepting
    }

    /// The jobs waiting in the queue, oldest first.
    pub closed spec fn pending(&self) -> Seq<u64> {
        self.queue@
    }

    /// The jobs handed to workers so far, in hand-off order.
    pub closed spec fn executed(&self) -> Seq<u64> {
        self.done@
    }

    /// Every job ever accepted, in submission order.
    pub closed spec fn submitted(&self) -> Seq<u64> {
        self.submitted@
    }

    /// The pool's invariant: no job is lost or duplicated — what was
    /// submitted is exactly what was handed out followed by what
    /// still waits, and the pool is never empty of workers.
    pub closed spec fn wf(&self) -> bool {
        self.submitted@ == self.done@ + self.queue@ && self.size > 0
    }

    /// Builds a pool of `size` workers; a size of zero is refused.
    pub fn new(size: usize) -> (r: Result<Threadpool, PoolError>)
        ensures
            r is Ok <==> size > 0,
            r matches Ok(p) ==> p.wf() && p.spec_size() == size && p.is_accepting()
                && p.pending() == Seq::<u64>::empty() && p.executed() == Seq::<u64>::empty()
                && p.submitted() == Seq::<u64>::empty(),
            r matches Err(e) ==> e == PoolError::InvalidPoolSize,
    {
        if size == 0 {
            return Err(PoolError::InvalidPoolSize);
        }
        let p = Threadpool {
            size,
            accepting: true,
            queue: Vec::new(),
            done: Vec::new(),
            submitted: Ghost(Seq::empty()),
        };
        proof {
            assert(p.submitted@ =~= p.done@ + p.queue@);
        }
        Ok(p)
    }

    /// Submits one job. While the pool accepts, the job joins the end
    /// of the queue and the call returns at once; after shutdown the
    /// call fails fast instead of hanging.
    pub fn execute(&mut self, job: u64) -> (r: Result<(), PoolError>)
        ensures
            old(self).wf() ==> final(self).wf(),
            r is Ok <==> old(self).is_accepting(),
            r matches Err(e) ==> e == PoolError::ShutDown,
            final(self).is_accepting() == old(self).is_accepting(),
            final(self).spec_size() == old(self).spec_size(),
            final(self).executed() == old(self).executed(),
            old(self).is_accepting() ==> final(self).pending() == old(self).pending().push(job)
                && final(self).submitted() == old(self).submitted().push(job),
            !old(self).is_accepting() ==> final(self).pending() == old(self).pending()
                && final(self).submitted() == old(self).submitted(),
    {
        if !self.accepting {
            return Err(PoolError::ShutDown);
        }
        self.queue.push(job);
        proof {
            self.submitted@ = self.submitted@.push(job);
            if old(self).wf() {
                assert(self.submitted@ =~= self.done@ + self.queue@);
            }
        }
        Ok(())
    }

    /// One worker step: takes the oldest queued job, if any.
    pub fn take_job(&mut self) -> (r: Option<u64>)
        ensures
            old(self).wf() ==> final(self).wf(),
            final(self).is_accepting() == old(self).is_accepting(),
            final(self).spec_size() == old(self).spec_size(),
            final(self).submitted() == old(self).submitted(),
            old(self).pending().len() == 0 ==> r is None
                && final(self).pending() == old(self).pending()
                && final(self).executed() == old(self).executed(),
            old(self).pending().len() > 0 ==> r == Some(old(self).pending()[0])
                && final(self).pending() == old(self).pending().drop_first()
                && final(self).executed() == old(self).executed().push(old(self).pending()[0]),
    {
        if self.queue.len() == 0 {
            return None;
        }
        let job = self.queue.remove(0);
        self.done.push(job);
        proof {
            assert(self.queue@ =~= old(self).queue@.drop_first());
            if old(self).wf() {
                assert(self.submitted@ =~= self.done@ + self.queue@);
            }
        }
        Some(job)
    }

    /// Graceful teardown: closes the submission side, then lets the
    /// workers finish whatever is already queued. No queued job is
    /// dropped. A second call finds nothing to do and is harmless.
    pub fn shutdown(&mut self)
        ensures
            old(self).wf() ==> final(self).wf(),
            !final(self).is_accepting(),
            final(self).spec_size() == old(self).spec_size(),
            final(self).submitted() == old(self).submitted(),
            final(self).pending().len() == 0,
            final(self).executed() == old(self).executed() + old(self).pending(),
    {
        self.accepting = false;
        while self.queue.len() > 0
            invariant
                self.accepting == false,
                self.size == old(self).size,
                self.submitted@ == old(self).submitted@,
                old(self).done@ + old(self).queue@ =~= self.done@ + self.queue@,
                old(self).wf() ==> self.wf(),
            decreases self.queue@.len(),
        {
            let job = self.queue.remove(0);
            self.done.push(job);
            proof {
                assert(old(self).done@ + old(self).queue@ =~= self.done@ + self.queue@);
                if old(self).wf() {
                    assert(self.submitted@ =~= self.done@ + self.queue@);
                }
            }
        }
        proof {
            assert(self.queue@ =~= Seq::<u64>::empty());
            assert(self.done@ =~= self.done@ + self.queue@);
            assert(self.done@ =~= old(self).done@ + old(self).queue@);
        }
    }

    /// The number of jobs still waiting.
    pub fn pending_count(&self) -> (n: usize)
        ensures
            n == self.pending().len(),
    {
        self.queue.len()
    }

    /// Whether submissions are still accepted.
    pub fn accepting(&self) -> (b: bool)
        ensures
            b == self.is_accepting(),
    {
        self.accepting
    }

    /// The jobs handed to workers so far, in hand-off order.
    pub fn executed_jobs(&self) -> (v: &Vec<u64>)
        ensures
            v@ == self.executed(),
    {
        &self.done
    }
}

/// Every submitted job is handed out exactly once: when the queue has
/// drained, the hand-off sequence is exactly the submission sequence,
/// whatever order completions were observed in.
pub proof fn lemma_all_jobs_executed(p: &Threadpool)
    requires
        p.wf(),
        p.pending().len() == 0,
    ensures
        p.executed() == p.submitted(),
{
    assert(p.executed() =~= p.executed() + p.pending());
}

} // verus!
