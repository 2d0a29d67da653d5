//! The single scheduling primitive of the runtime shell: an ordered queue of
//! deferred jobs, drained strictly first-in first-out. Promise reaction order
//! is observable by scripts, so the FIFO guarantee is stated and proved here.
use std::collections::VecDeque;
use vstd::prelude::*;

verus! {

/// Where a job came from: an interpreter-internal promise reaction, or the
/// completion of a host asynchronous operation marshalled back onto the loop.
#[derive(Debug, Clone, Copy, PartialEq, Eq, Structural)]
pub enum JobOrigin {
    Microtask,
    Timer,
}

/// One deferred unit of work. The continuation itself lives with the host
/// (keyed by `id`); the queue owns only the scheduling identity and origin,
/// which is all the ordering contract speaks about.
#[derive(Debug, Clone, Copy, PartialEq, Eq, Structural)]
pub struct Job {
    pub id: u64,
    pub origin: JobOrigin,
}

/// An ordered sequence of pending jobs. `enqueue` appends at the tail and
/// never fails; `dequeue` removes from the head; a drain hands the jobs back
/// in exactly their enqueue order.
pub struct JobQueue {
    jobs: VecDeque<Job>,
}

impl View for JobQueue {
    type V = Seq<Job>;

    closed spec fn view(&self) -> Seq<Job> {
        self.jobs@
    }
}

impl JobQueue {
    /// A queue with nothing pending.
    pub fn new() -> (q: JobQueue)
        ensures
            q@ == Seq::<Job>::empty(),
    {
        JobQueue { jobs: VecDeque::new() }
    }

    /// Appends `job` at the tail. Never blocks, never fails, never touches
    /// any job already queued.
    pub fn enqueue(&mut self, job: Job)
        ensures
            final(self)@ == old(self)@.push(job),
    {
        self.jobs.push_back(job);
    }

    /// Removes and returns the head job, or `None` when nothing is pending.
    pub fn dequeue(&mut self) -> (r: Option<Job>)
        ensures
            old(self)@.len() == 0 ==> r is None && final(self)@ == old(self)@,
            old(self)@.len() > 0 ==> r == Some(old(self)@[0]) && final(self)@ == old(self)@.subrange(
                1,
                old(self)@.len() as int,
            ),
    {
        self.jobs.pop_front()
    }

    pub fn len(&self) -> (n: usize)
        ensures
            n == self@.len(),
    {
        self.jobs.len()
    }

    pub fn is_empty(&self) -> (b: bool)
        ensures
            b == (self@.len() == 0),
    {
        self.jobs.len() == 0
    }

    /// Removes every pending job and returns them in exactly their enqueue
    /// order: the head of the queue is the first element of the result.
    pub fn drain(&mut self) -> (r: Vec<Job>)
        ensures
            r@ == old(self)@,
            final(self)@.len() == 0,
    {
        let mut out: Vec<Job> = Vec::new();
        while !self.is_empty()
            invariant
                out@ + self@ == old(self)@,
            decreases self@.len(),
        {
            let next = self.dequeue();
            match next {
                Some(job) => {
                    out.push(job);
                },
                None => {},
            }
        }
        proof {
            assert(out@ =~= old(self)@);
        }
        out
    }
}

/// The queue contents after enqueuing each job of `js` in order, starting
/// from contents `q`: the spec-level fold of `JobQueue::enqueue`.
pub open spec fn enqueue_all(q: Seq<Job>, js: Seq<Job>) -> Seq<Job>
    decreases js.len(),
{
    if js.len() == 0 {
        q
    } else {
        enqueue_all(q.push(js[0]), js.subrange(1, js.len() as int))
    }
}

/// First-in first-out scheduling: enqueuing the jobs `js`, in order, onto a
/// queue holding `q` yields exactly `q` followed by `js`. Since `drain`
/// returns the queue contents unchanged and in order, any jobs scheduled
/// with no data dependency among them are executed in exactly the order
/// they were enqueued — no job is skipped or reordered.
pub proof fn lemma_fifo_order(q: Seq<Job>, js: Seq<Job>)
    ensures
        enqueue_all(q, js) == q + js,
    decreases js.len(),
{
    if js.len() == 0 {
        assert(enqueue_all(q, js) =~= q + js);
    } else {
        lemma_fifo_order(q.push(js[0]), js.subrange(1, js.len() as int));
        assert(q.push(js[0]) + js.subrange(1, js.len() as int) =~= q + js);
    }
}

} // verus!
