use std::collections::VecDeque;
use vstd::prelude::*;
use vstd::string::*;
use crate::worker::{Worker, worker_text};

verus! {

/// What a worker does after asking the pool for work.
pub enum Next<J> {
    /// Run this job, which the worker now owns.
    Run(J),
    /// Nothing is queued but submissions may still come: wait, then ask again.
    Wait,
    /// The pool is closed and its queue drained: leave the loop.
    Stop,
}

/// The abstract state of a pool.
///
/// A job's ticket is its index in `jobs`, the order in which it arrived.
/// `takers[t]` is the worker that took ticket `t`; tickets from
/// `takers.len()` on are still queued.
pub struct PoolModel<J> {
    /// Worker indices, in creation order.
    pub ids: Seq<nat>,
    /// Every job the pool ever accepted, in order of arrival.
    pub jobs: Seq<J>,
    /// The worker that took each ticket handed out so far.
    pub takers: Seq<nat>,
    /// Whether the pool still accepts submissions.
    pub open: bool,
}

impl<J> PoolModel<J> {
    /// Workers are numbered from zero in creation order, no ticket is handed
    /// out before it was accepted, and every taker is one of the workers.
    pub open spec fn wf(self) -> bool {
        &&& self.ids == Seq::new(self.ids.len(), |i: int| i as nat)
        &&& self.takers.len() <= self.jobs.len()
        &&& forall|t: int| 0 <= t < self.takers.len() ==> #[trigger] self.takers[t] < self.ids.len()
    }

    /// The jobs still queued, head first.
    pub open spec fn pending(self) -> Seq<J> {
        self.jobs.subrange(self.takers.len() as int, self.jobs.len() as int)
    }

    /// A submission: an open pool appends the job at the tail.
    pub open spec fn submit(self, job: J) -> Self {
        if self.open {
            PoolModel { jobs: self.jobs.push(job), ..self }
        } else {
            self
        }
    }

    /// The ticket that the next request for work receives, if a job is queued.
    pub open spec fn ticket(self) -> Option<nat> {
        if self.takers.len() < self.jobs.len() {
            Some(self.takers.len())
        } else {
            None
        }
    }

    /// Worker `w` asks for work: it takes the head of the queue, if any.
    pub open spec fn take(self, w: nat) -> Self {
        if self.takers.len() < self.jobs.len() {
            PoolModel { takers: self.takers.push(w), ..self }
        } else {
            self
        }
    }

    /// The pool stops accepting submissions.
    pub open spec fn close(self) -> Self {
        PoolModel { open: false, ..self }
    }

    /// The workers `ws` ask for work one after another: the state that
    /// results, and the ticket each request received.
    pub open spec fn take_each(self, ws: Seq<nat>) -> (Self, Seq<Option<nat>>)
        decreases ws.len(),
    {
        if ws.len() == 0 {
            (self, Seq::empty())
        } else {
            let (m, hs) = self.take_each(ws.drop_last());
            (m.take(ws.last()), hs.push(m.ticket()))
        }
    }
}

/// The text of a list of workers, each as `(id: N)`, in order.
pub open spec fn workers_text(ids: Seq<nat>) -> Seq<char>
    decreases ids.len(),
{
    if ids.len() == 0 {
        Seq::empty()
    } else {
        workers_text(ids.drop_last()) + worker_text(ids.last())
    }
}

/// How a pool with these workers is shown: `workers[] = ` and its workers.
pub open spec fn pool_text(ids: Seq<nat>) -> Seq<char> {
    seq!['w', 'o', 'r', 'k', 'e', 'r', 's', '[', ']', ' ', '=', ' '] + workers_text(ids)
}

/// A fixed set of workers sharing one first-in first-out queue of jobs.
///
/// Each queued job goes to exactly one worker, in order of arrival. The pool
/// keeps no record of what a worker does with a job.
pub struct WorkerPool<J> {
    workers: Vec<Worker>,
    queue: VecDeque<J>,
    open: bool,
    jobs: Ghost<Seq<J>>,
    takers: Ghost<Seq<nat>>,
}

impl<J> View for WorkerPool<J> {
    type V = PoolModel<J>;

    closed spec fn view(&self) -> PoolModel<J> {
        PoolModel {
            ids: self.workers@.map_values(|w: Worker| w.spec_id()),
            jobs: self.jobs@,
            takers: self.takers@,
            open: self.open,
        }
    }
}

impl<J> WorkerPool<J> {
    /// The queue holds exactly the jobs not yet taken.
    pub closed spec fn inv(&self) -> bool {
        self.queue@ == self@.pending()
    }

    pub open spec fn wf(&self) -> bool {
        self@.wf() && self.inv()
    }

    /// Builds a pool of `size` workers, numbered `0..size` in creation
    /// order, with an empty queue that accepts submissions. A pool of no
    /// workers accepts jobs and never hands one out.
    pub fn new(size: usize) -> (p: Self)
        ensures
            p.wf(),
            p@.ids == Seq::new(size as nat, |i: int| i as nat),
            p@.jobs == Seq::<J>::empty(),
            p@.takers == Seq::<nat>::empty(),
            p@.open,
    {
        let mut workers: Vec<Worker> = Vec::with_capacity(size);
        let mut id: usize = 0;
        while id < size
            invariant
                id <= size,
                workers@.len() == id,
                forall|i: int| 0 <= i < id ==> #[trigger] workers@[i].spec_id() == i,
            decreases size - id,
        {
            workers.push(Worker::new(id));
            id += 1;
        }
        let p = WorkerPool {
            workers,
            queue: VecDeque::new(),
            open: true,
            jobs: Ghost(Seq::empty()),
            takers: Ghost(Seq::empty()),
        };
        assert(p@.ids =~= Seq::new(size as nat, |i: int| i as nat));
        assert(p.queue@ =~= p@.pending());
        p
    }
    /// Hands `job` to the queue, at its tail. An open pool accepts every
    /// job, however many are queued; a closed one gives the job back.
    pub fn execute(&mut self, job: J) -> (r: Result<(), J>)
        requires
            old(self).wf(),
        ensures
            final(self).wf(),
            final(self)@ == old(self)@.submit(job),
            old(self)@.open ==> r == Ok::<(), J>(()),
            !old(self)@.open ==> r == Err::<(), J>(job),
    {
        if self.open {
            self.queue.push_back(job);
            self.jobs = Ghost(self.jobs@.push(job));
            assert(self.queue@ =~= self@.pending());
            Ok(())
        } else {
            Err(job)
        }
    }

    /// Worker `worker` asks for work. It gets the head of the queue if one is
    /// queued; otherwise it waits while the pool is open and stops once the
    /// pool is closed. A closed pool still hands out what it had queued.
    pub fn next(&mut self, worker: usize) -> (r: Next<J>)
        requires
            old(self).wf(),
            worker < old(self)@.ids.len(),
        ensures
            final(self).wf(),
            final(self)@ == old(self)@.take(worker as nat),
            old(self)@.pending().len() > 0 ==> r == Next::Run(old(self)@.pending()[0]),
            old(self)@.pending().len() == 0 && old(self)@.open ==> r == Next::<J>::Wait,
            old(self)@.pending().len() == 0 && !old(self)@.open ==> r == Next::<J>::Stop,
    {
        match self.queue.pop_front() {
            Some(job) => {
                self.takers = Ghost(self.takers@.push(worker as nat));
                assert(self.queue@ =~= self@.pending());
                Next::Run(job)
            },
            None => {
                if self.open {
                    Next::Wait
                } else {
                    Next::Stop
                }
            },
        }
    }

    /// Stops accepting submissions. Queued jobs are still handed out.
    pub fn close(&mut self)
        requires
            old(self).wf(),
        ensures
            final(self).wf(),
            final(self)@ == old(self)@.close(),
    {
        self.open = false;
    }

    /// The number of workers.
    pub fn size(&self) -> (r: usize)
        requires
            self.wf(),
        ensures
            r == self@.ids.len(),
    {
        self.workers.len()
    }

    /// The number of jobs queued and not yet taken.
    pub fn pending_len(&self) -> (r: usize)
        requires
            self.wf(),
        ensures
            r == self@.pending().len(),
    {
        self.queue.len()
    }

    /// Whether the pool still accepts submissions.
    pub fn is_open(&self) -> (r: bool)
        ensures
            r == self@.open,
    {
        self.open
    }

    /// How the pool is shown: `workers[] = ` and then each worker as
    /// `(id: N)`, in creation order.
    pub fn render(&self) -> (r: String)
        requires
            self.wf(),
        ensures
            r@ == pool_text(self@.ids),
    {
        proof {
            reveal_strlit("workers[] = ");
        }
        let mut s = String::new();
        s.append("workers[] = ");
        let ghost ids = self@.ids;
        let mut i: usize = 0;
        while i < self.workers.len()
            invariant
                i <= self.workers@.len(),
                ids == self.workers@.map_values(|w: Worker| w.spec_id()),
                s@ == pool_text(ids.subrange(0, i as int)),
            decreases self.workers@.len() - i,
        {
            self.workers[i].write_to(&mut s);
            proof {
                let next = ids.subrange(0, i + 1);
                assert(next.drop_last() =~= ids.subrange(0, i as int));
                assert(s@ =~= pool_text(next));
            }
            i += 1;
        }
        assert(ids.subrange(0, i as int) =~= ids);
        s
    }
}

} // verus!
