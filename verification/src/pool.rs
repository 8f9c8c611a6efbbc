//! A model of the worker pool's dispatch protocol: a fixed set of workers
//! draining one shared job queue. The runtime pool follows these transitions;
//! each is verified to lose no job, duplicate no job, and tear down only once
//! every accepted job has finished.

use vstd::prelude::*;
use vstd::multiset::Multiset;

verus! {

broadcast use vstd::multiset::group_multiset_axioms, vstd::seq_lib::group_to_multiset_ensures;

/// One worker's state: idle, running one job, or exited.
#[derive(Clone, Copy, Debug, PartialEq, Eq, Structural)]
pub enum WorkerState {
    /// Waiting for a job from the queue.
    Idle,
    /// Executing the job with this id.
    Running { job: u64 },
    /// Exited: the queue had closed with nothing pending.
    Terminated,
}

/// The jobs one worker is running: one for a running worker, none otherwise.
pub open spec fn state_jobs(s: WorkerState) -> Multiset<u64> {
    match s {
        WorkerState::Running { job } => Multiset::singleton(job),
        _ => Multiset::empty(),
    }
}

/// All jobs the workers of `ws` are running.
pub open spec fn running_of(ws: Seq<WorkerState>) -> Multiset<u64>
    decreases ws.len(),
{
    if ws.len() == 0 {
        Multiset::empty()
    } else {
        running_of(ws.drop_last()).add(state_jobs(ws.last()))
    }
}

/// How many workers of `ws` are idle.
pub open spec fn count_idle(ws: Seq<WorkerState>) -> nat
    decreases ws.len(),
{
    if ws.len() == 0 {
        0
    } else {
        count_idle(ws.drop_last()) + (if ws.last() is Idle {
            1nat
        } else {
            0nat
        })
    }
}

/// How many workers of `ws` have exited.
pub open spec fn count_terminated(ws: Seq<WorkerState>) -> nat
    decreases ws.len(),
{
    if ws.len() == 0 {
        0
    } else {
        count_terminated(ws.drop_last()) + (if ws.last() is Terminated {
            1nat
        } else {
            0nat
        })
    }
}

/// The pool's dispatch state: a fixed set of workers, the queue of pending
/// job ids, whether new jobs are still accepted, and the finished jobs.
pub struct WorkerPool {
    pub workers: Vec<WorkerState>,
    pub pending: Vec<u64>,
    pub accepting: bool,
    pub completed: Vec<u64>,
}

impl WorkerPool {
    /// The fixed worker count.
    pub open spec fn size(&self) -> nat {
        self.workers@.len()
    }

    /// Every worker has exited.
    pub open spec fn all_terminated(&self) -> bool {
        forall|i: int|
            0 <= i < self.workers@.len() ==> (#[trigger] self.workers@[i]) is Terminated
    }

    /// The jobs accepted and not yet finished: queued or running.
    pub open spec fn in_flight(&self) -> Multiset<u64> {
        self.pending@.to_multiset().add(running_of(self.workers@))
    }

    /// Every job the pool ever accepted: queued, running, or finished.
    /// The transitions keep this exactly in step with the submissions,
    /// so no accepted job is lost and none is duplicated.
    pub open spec fn jobs(&self) -> Multiset<u64> {
        self.in_flight().add(self.completed@.to_multiset())
    }

    /// The pool's invariant: at least one worker; no worker exits while jobs
    /// are still accepted; and once every worker has exited, nothing is
    /// left in the queue.
    pub open spec fn wf(&self) -> bool {
        &&& self.workers@.len() >= 1
        &&& (self.accepting ==> forall|i: int|
            0 <= i < self.workers@.len() ==> !((#[trigger] self.workers@[i]) is Terminated))
        &&& (self.all_terminated() ==> self.pending@.len() == 0)
    }

    /// Builds a pool of `size` idle workers with an empty queue.
    /// A pool of zero workers is a programming error and is ruled out.
    pub fn new(size: usize) -> (p: Self)
        requires
            size >= 1,
        ensures
            p.wf(),
            p.size() == size,
            p.accepting,
            forall|i: int| 0 <= i < size ==> (#[trigger] p.workers@[i]) is Idle,
            p.pending@ == Seq::<u64>::empty(),
            p.completed@ == Seq::<u64>::empty(),
            p.jobs() == Multiset::<u64>::empty(),
    {
        let mut workers: Vec<WorkerState> = Vec::new();
        let mut i: usize = 0;
        while i < size
            invariant
                i <= size,
                workers@.len() == i,
                forall|j: int| 0 <= j < i ==> (#[trigger] workers@[j]) is Idle,
            decreases size - i,
        {
            workers.push(WorkerState::Idle);
            i = i + 1;
        }
        let p = WorkerPool { workers, pending: Vec::new(), accepting: true, completed: Vec::new() };
        proof {
            lemma_running_of_none(p.workers@);
            assert(p.jobs() =~= Multiset::<u64>::empty());
        }
        p
    }

    /// Accepts one job: enqueues it and returns at once. Refused (by
    /// contract) once teardown has begun, so no job is silently dropped.
    pub fn submit(&mut self, job: u64)
        requires
            old(self).wf(),
            old(self).accepting,
        ensures
            final(self).wf(),
            final(self).workers@ == old(self).workers@,
            final(self).accepting,
            final(self).completed@ == old(self).completed@,
            final(self).pending@ == old(self).pending@.push(job),
            final(self).jobs() == old(self).jobs().insert(job),
    {
        self.pending.push(job);
        proof {
            assert(self.jobs() =~= old(self).jobs().insert(job));
        }
    }

    /// An idle worker dequeues the job at the head of the queue and starts
    /// running it. The job moves; it is neither lost nor duplicated.
    pub fn take(&mut self, w: usize) -> (job: u64)
        requires
            old(self).wf(),
            w < old(self).size(),
            old(self).workers@[w as int] is Idle,
            old(self).pending@.len() > 0,
        ensures
            final(self).wf(),
            job == old(self).pending@[0],
            final(self).workers@ == old(self).workers@.update(
                w as int,
                (WorkerState::Running { job }),
            ),
            final(self).pending@ == old(self).pending@.remove(0),
            final(self).accepting == old(self).accepting,
            final(self).completed@ == old(self).completed@,
            final(self).jobs() == old(self).jobs(),
    {
        let job = self.pending.remove(0);
        self.workers[w] = WorkerState::Running { job };
        proof {
            lemma_running_of_update(
                old(self).workers@,
                w as int,
                (WorkerState::Running { job }),
            );
            assert(old(self).pending@.to_multiset().count(job) > 0) by {
                assert(old(self).pending@[0] == job);
                assert(old(self).pending@.contains(job));
            }
            let r1 = running_of(old(self).workers@);
            let r2 = running_of(self.workers@);
            let sj = state_jobs((WorkerState::Running { job }));
            assert forall|x: u64| self.jobs().count(x) == old(self).jobs().count(x) by {
                assert(r2.add(state_jobs(old(self).workers@[w as int])).count(x) == r1.add(
                    sj,
                ).count(x));
                assert(state_jobs(old(self).workers@[w as int]).count(x) == 0);
                assert(self.pending@.to_multiset().count(x) == old(
                    self,
                ).pending@.to_multiset().remove(job).count(x));
                assert(self.jobs().count(x) == self.pending@.to_multiset().count(x) + r2.count(x)
                    + self.completed@.to_multiset().count(x));
                assert(old(self).jobs().count(x) == old(self).pending@.to_multiset().count(x)
                    + r1.count(x) + old(self).completed@.to_multiset().count(x));
            }
            assert(self.jobs() =~= old(self).jobs());
            assert(!(self.workers@[w as int] is Terminated));
        }
        job
    }

    /// A worker finishes its job and returns to idle; the job is recorded
    /// as completed.
    pub fn finish(&mut self, w: usize) -> (job: u64)
        requires
            old(self).wf(),
            w < old(self).size(),
            old(self).workers@[w as int] is Running,
        ensures
            final(self).wf(),
            old(self).workers@[w as int] == (WorkerState::Running { job }),
            final(self).workers@ == old(self).workers@.update(w as int, WorkerState::Idle),
            final(self).pending@ == old(self).pending@,
            final(self).accepting == old(self).accepting,
            final(self).completed@ == old(self).completed@.push(job),
            final(self).jobs() == old(self).jobs(),
    {
        let job = match self.workers[w] {
            WorkerState::Running { job } => job,
            // never taken: the contract admits only a running worker
            _ => 0,
        };
        self.workers[w] = WorkerState::Idle;
        self.completed.push(job);
        proof {
            lemma_running_of_update(old(self).workers@, w as int, WorkerState::Idle);
            let r1 = running_of(old(self).workers@);
            let r2 = running_of(self.workers@);
            let sj = state_jobs(old(self).workers@[w as int]);
            assert forall|x: u64| self.jobs().count(x) == old(self).jobs().count(x) by {
                assert(r2.add(sj).count(x) == r1.add(state_jobs(WorkerState::Idle)).count(x));
                assert(self.completed@.to_multiset().count(x) == old(
                    self,
                ).completed@.to_multiset().insert(job).count(x));
                assert(self.jobs().count(x) == self.pending@.to_multiset().count(x) + r2.count(x)
                    + self.completed@.to_multiset().count(x));
                assert(old(self).jobs().count(x) == old(self).pending@.to_multiset().count(x)
                    + r1.count(x) + old(self).completed@.to_multiset().count(x));
            }
            assert(self.jobs() =~= old(self).jobs());
            assert(!(self.workers@[w as int] is Terminated));
        }
        job
    }

    /// Begins teardown: from here on no job is accepted. The queue and the
    /// workers are untouched; pending and running jobs will still finish.
    pub fn begin_teardown(&mut self)
        requires
            old(self).wf(),
        ensures
            final(self).wf(),
            !final(self).accepting,
            final(self).workers@ == old(self).workers@,
            final(self).pending@ == old(self).pending@,
            final(self).completed@ == old(self).completed@,
            final(self).jobs() == old(self).jobs(),
    {
        self.accepting = false;
    }

    /// An idle worker exits once teardown has begun and the queue is empty.
    pub fn worker_exit(&mut self, w: usize)
        requires
            old(self).wf(),
            !old(self).accepting,
            w < old(self).size(),
            old(self).workers@[w as int] is Idle,
            old(self).pending@.len() == 0,
        ensures
            final(self).wf(),
            final(self).workers@ == old(self).workers@.update(w as int, WorkerState::Terminated),
            final(self).pending@ == old(self).pending@,
            !final(self).accepting,
            final(self).completed@ == old(self).completed@,
            final(self).jobs() == old(self).jobs(),
    {
        self.workers[w] = WorkerState::Terminated;
        proof {
            lemma_running_of_update(old(self).workers@, w as int, WorkerState::Terminated);
            let r1 = running_of(old(self).workers@);
            let r2 = running_of(self.workers@);
            assert forall|x: u64| self.jobs().count(x) == old(self).jobs().count(x) by {
                assert(r2.add(state_jobs(old(self).workers@[w as int])).count(x) == r1.add(
                    state_jobs(WorkerState::Terminated),
                ).count(x));
                assert(self.jobs().count(x) == self.pending@.to_multiset().count(x) + r2.count(x)
                    + self.completed@.to_multiset().count(x));
                assert(old(self).jobs().count(x) == old(self).pending@.to_multiset().count(x)
                    + r1.count(x) + old(self).completed@.to_multiset().count(x));
            }
            assert(self.jobs() =~= old(self).jobs());
        }
    }
}

/// The running jobs of a worker set with no running worker: none.
proof fn lemma_running_of_none(ws: Seq<WorkerState>)
    requires
        forall|i: int| 0 <= i < ws.len() ==> !((#[trigger] ws[i]) is Running),
    ensures
        running_of(ws) == Multiset::<u64>::empty(),
    decreases ws.len(),
{
    if ws.len() > 0 {
        lemma_running_of_none(ws.drop_last());
        assert(running_of(ws) =~= Multiset::<u64>::empty());
    }
}

/// Replacing one worker's state exchanges exactly that worker's jobs.
proof fn lemma_running_of_update(ws: Seq<WorkerState>, i: int, s: WorkerState)
    requires
        0 <= i < ws.len(),
    ensures
        running_of(ws.update(i, s)).add(state_jobs(ws[i])) == running_of(ws).add(state_jobs(s)),
    decreases ws.len(),
{
    let ws2 = ws.update(i, s);
    if i == ws.len() - 1 {
        assert(ws2.drop_last() =~= ws.drop_last());
        assert(ws2.last() == s);
        assert forall|x: u64|
            running_of(ws2).add(state_jobs(ws[i])).count(x) == running_of(ws).add(
                state_jobs(s),
            ).count(x) by {
            assert(running_of(ws2).count(x) == running_of(ws.drop_last()).count(x) + state_jobs(
                s,
            ).count(x));
            assert(running_of(ws).count(x) == running_of(ws.drop_last()).count(x) + state_jobs(
                ws[i],
            ).count(x));
        }
        assert(running_of(ws2).add(state_jobs(ws[i])) =~= running_of(ws).add(state_jobs(s)));
    } else {
        let d = ws.drop_last();
        let d2 = ws2.drop_last();
        assert(d2 =~= d.update(i, s));
        assert(d[i] == ws[i]);
        lemma_running_of_update(d, i, s);
        assert(ws2.last() == ws.last());
        assert forall|x: u64|
            running_of(ws2).add(state_jobs(ws[i])).count(x) == running_of(ws).add(
                state_jobs(s),
            ).count(x) by {
            assert(running_of(d2).add(state_jobs(d[i])).count(x) == running_of(d).add(
                state_jobs(s),
            ).count(x));
            assert(running_of(ws2).count(x) == running_of(d2).count(x) + state_jobs(
                ws.last(),
            ).count(x));
            assert(running_of(ws).count(x) == running_of(d).count(x) + state_jobs(
                ws.last(),
            ).count(x));
        }
        assert(running_of(ws2).add(state_jobs(ws[i])) =~= running_of(ws).add(state_jobs(s)));
    }
}

/// Workers are either idle, running, or exited; the three counts exhaust the set.
proof fn lemma_counts_total(ws: Seq<WorkerState>)
    ensures
        running_of(ws).len() + count_idle(ws) + count_terminated(ws) == ws.len(),
    decreases ws.len(),
{
    if ws.len() > 0 {
        lemma_counts_total(ws.drop_last());
    }
}

/// A positive idle count names an idle worker.
proof fn lemma_idle_exists(ws: Seq<WorkerState>)
    requires
        count_idle(ws) > 0,
    ensures
        exists|i: int| 0 <= i < ws.len() && (#[trigger] ws[i]) is Idle,
    decreases ws.len(),
{
    if ws.last() is Idle {
        assert(ws[ws.len() - 1] is Idle);
    } else {
        lemma_idle_exists(ws.drop_last());
        let i = choose|i: int|
            0 <= i < ws.drop_last().len() && (#[trigger] ws.drop_last()[i]) is Idle;
        assert(ws[i] is Idle);
    }
}

/// No worker of an accepting pool has exited.
proof fn lemma_none_terminated(ws: Seq<WorkerState>)
    requires
        forall|i: int| 0 <= i < ws.len() ==> !((#[trigger] ws[i]) is Terminated),
    ensures
        count_terminated(ws) == 0,
    decreases ws.len(),
{
    if ws.len() > 0 {
        lemma_none_terminated(ws.drop_last());
    }
}

/// Law: while the pool accepts jobs, fewer unfinished jobs than workers
/// leave at least one worker idle; in particular one fewer than the worker
/// count does.
pub proof fn lemma_worker_available(p: WorkerPool)
    requires
        p.wf(),
        p.accepting,
        p.in_flight().len() < p.size(),
    ensures
        exists|i: int| 0 <= i < p.workers@.len() && (#[trigger] p.workers@[i]) is Idle,
{
    lemma_counts_total(p.workers@);
    lemma_none_terminated(p.workers@);
    assert(running_of(p.workers@).len() <= p.in_flight().len());
    lemma_idle_exists(p.workers@);
}

/// Law: teardown ends only when every worker has exited, and then nothing
/// is pending or running: every job the pool ever accepted has finished.
pub proof fn lemma_teardown_complete(p: WorkerPool)
    requires
        p.wf(),
        p.all_terminated(),
    ensures
        p.pending@.len() == 0,
        running_of(p.workers@) == Multiset::<u64>::empty(),
        p.jobs() == p.completed@.to_multiset(),
{
    lemma_running_of_none(p.workers@);
    assert(p.pending@.to_multiset() =~= Multiset::<u64>::empty());
    assert(p.jobs() =~= p.completed@.to_multiset());
}

} // verus!
