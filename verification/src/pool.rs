//! A fixed-size worker pool.
//!
//! The pool owns a dispatch queue (first in, first out) and a fixed set of
//! workers created once at construction. A job is an opaque payload `J`:
//! running it is the host's business, so the pool is a state machine that the
//! host drives with the events it observes:
//!
//! - [`ThreadPool::execute`]: a job was submitted; it joins the back of the
//!   queue and nothing else changes.
//! - [`ThreadPool::dispatch`]: an idle worker won the race for the queue's
//!   consumption side and pulled the next job; the worker turns busy and the
//!   job is handed back to the host to run on that worker.
//! - [`ThreadPool::finish`]: the job a worker was running returned; the worker
//!   turns idle again. A host that wants a faulting job not to shrink the
//!   pool's capacity wraps the run in a recovery boundary of its own and
//!   reports `finish` either way.
//!
//! The pool keeps a ghost ledger of every job ever submitted, handed out and
//! completed. Its well-formedness invariant ties the ledger to the queue and
//! the worker states, which is what the conservation and ordering lemmas at
//! the bottom of this file are proved from: no submitted job is ever lost or
//! duplicated, and a pool with a single worker completes jobs in exactly the
//! order they were submitted.

use vstd::prelude::*;
use vstd::multiset::Multiset;

verus! {

broadcast use {
    vstd::multiset::group_multiset_axioms,
    vstd::seq_lib::group_to_multiset_ensures,
    vstd::seq_lib::lemma_multiset_commutative,
};

/// The lifecycle of one worker: blocked on the shared queue, or running the
/// job it last pulled (remembered here only as a ghost value; the real job
/// runs on the host's thread).
pub enum WorkerState<J> {
    Idle,
    Executing(Ghost<J>),
}

/// One worker: an identifier assigned at construction (workers are
/// 0-indexed) and its current lifecycle state.
pub struct Worker<J> {
    id: usize,
    state: WorkerState<J>,
}

impl<J> Worker<J> {
    fn new(id: usize) -> (worker: Worker<J>)
        ensures
            worker.id == id,
            worker.state is Idle,
    {
        Worker { id, state: WorkerState::Idle }
    }
}

/// The jobs a single worker currently holds: none when idle, exactly one
/// when executing.
spec fn slot_jobs<J>(worker: Worker<J>) -> Multiset<J> {
    match worker.state {
        WorkerState::Idle => Multiset::empty(),
        WorkerState::Executing(job) => Multiset::empty().insert(job@),
    }
}

/// The same, as a sequence; useful where order matters (a pool with a single
/// worker holds at most one job, so the order is trivial but the shape fits
/// sequence concatenation).
spec fn slot_seq<J>(worker: Worker<J>) -> Seq<J> {
    match worker.state {
        WorkerState::Idle => Seq::empty(),
        WorkerState::Executing(job) => seq![job@],
    }
}

/// All jobs currently held by some worker, as a multiset: two workers may
/// well be running equal payloads.
spec fn in_flight_of<J>(workers: Seq<Worker<J>>) -> Multiset<J>
    decreases workers.len(),
{
    if workers.len() == 0 {
        Multiset::empty()
    } else {
        in_flight_of(workers.drop_last()).add(slot_jobs(workers.last()))
    }
}

/// The fixed-size worker pool: the dispatch queue's ingress plus the workers,
/// with a ghost ledger of the pool's whole history.
pub struct ThreadPool<J> {
    workers: Vec<Worker<J>>,
    queue: Vec<J>,
    submitted_log: Ghost<Seq<J>>,
    dispatched_log: Ghost<Seq<J>>,
    completed_log: Ghost<Seq<J>>,
}

impl<J> ThreadPool<J> {
    /// How many workers the pool owns; fixed at construction.
    pub closed spec fn size(self) -> nat {
        self.workers@.len()
    }

    /// The jobs submitted but not yet pulled by any worker, oldest first.
    pub closed spec fn pending(self) -> Seq<J> {
        self.queue@
    }

    /// Every job ever submitted, in submission order.
    pub closed spec fn submitted(self) -> Seq<J> {
        self.submitted_log@
    }

    /// Every job ever pulled by a worker, in the order they were handed out.
    pub closed spec fn dispatched(self) -> Seq<J> {
        self.dispatched_log@
    }

    /// Every job that ran to completion, in completion order.
    pub closed spec fn completed(self) -> Seq<J> {
        self.completed_log@
    }

    /// The jobs currently being executed by some worker.
    pub closed spec fn in_flight(self) -> Multiset<J> {
        in_flight_of(self.workers@)
    }

    /// Whether worker `w` is blocked on the queue.
    pub closed spec fn worker_idle(self, w: int) -> bool
        recommends 0 <= w < self.size(),
    {
        self.workers@[w].state is Idle
    }

    /// The job worker `w` is currently executing; meaningful only while the
    /// worker is busy.
    pub closed spec fn worker_job(self, w: int) -> J
        recommends 0 <= w < self.size(), !self.worker_idle(w),
    {
        self.workers@[w].state->Executing_0@
    }

    /// The pool's invariant: at least one worker, workers numbered by their
    /// position, and the ledger consistent with the queue and the worker
    /// states. Submission order is preserved up to the hand-out point, and
    /// every job handed out is either still in flight or completed.
    pub closed spec fn wf(self) -> bool {
        &&& self.workers@.len() >= 1
        &&& (forall|i: int| 0 <= i < self.workers@.len() ==> (#[trigger] self.workers@[i]).id == i)
        &&& self.submitted_log@ == self.dispatched_log@ + self.queue@
        &&& self.dispatched_log@.to_multiset() == self.completed_log@.to_multiset().add(
            in_flight_of(self.workers@),
        )
        &&& (self.workers@.len() == 1 ==> self.dispatched_log@ == self.completed_log@
            + slot_seq(self.workers@[0]))
    }

    /// Creates the dispatch queue and exactly `size` workers, each idle and
    /// ready to pull. A pool of zero workers is a caller bug, ruled out here;
    /// [`ThreadPool::try_new`] is the checked variant.
    pub fn new(size: usize) -> (pool: ThreadPool<J>)
        requires
            size >= 1,
        ensures
            pool.wf(),
            pool.size() == size,
            pool.pending() == Seq::<J>::empty(),
            pool.submitted() == Seq::<J>::empty(),
            pool.dispatched() == Seq::<J>::empty(),
            pool.completed() == Seq::<J>::empty(),
            pool.in_flight() == Multiset::<J>::empty(),
            forall|i: int| 0 <= i < size ==> pool.worker_idle(i),
    {
        let mut workers: Vec<Worker<J>> = Vec::with_capacity(size);
        let mut id: usize = 0;
        while id < size
            invariant
                id <= size,
                workers@.len() == id,
                forall|i: int| 0 <= i < id ==> (#[trigger] workers@[i]).id == i,
                forall|i: int| 0 <= i < id ==> (#[trigger] workers@[i]).state is Idle,
            decreases size - id,
        {
            workers.push(Worker::new(id));
            id = id + 1;
        }
        proof {
            lemma_in_flight_all_idle(workers@);
            lemma_to_multiset_empty::<J>();
            assert(Seq::<J>::empty() + Seq::<J>::empty() =~= Seq::<J>::empty());
            assert(Multiset::<J>::empty().add(Multiset::<J>::empty()) =~= Multiset::<J>::empty());
        }
        let pool = ThreadPool {
            workers,
            queue: Vec::new(),
            submitted_log: Ghost(Seq::empty()),
            dispatched_log: Ghost(Seq::empty()),
            completed_log: Ghost(Seq::empty()),
        };
        proof {
            if pool.workers@.len() == 1 {
                assert(Seq::<J>::empty() + slot_seq(pool.workers@[0]) =~= Seq::<J>::empty());
            }
        }
        pool
    }

    /// The checked constructor: a pool for every positive worker count, and
    /// nothing at all — no pool, no workers — for a count of zero.
    pub fn try_new(size: usize) -> (pool: Option<ThreadPool<J>>)
        ensures
            pool is Some <==> size >= 1,
            pool matches Some(p) ==> {
                &&& p.wf()
                &&& p.size() == size
                &&& p.pending() == Seq::<J>::empty()
                &&& p.submitted() == Seq::<J>::empty()
                &&& p.dispatched() == Seq::<J>::empty()
                &&& p.completed() == Seq::<J>::empty()
                &&& p.in_flight() == Multiset::<J>::empty()
                &&& (forall|i: int| 0 <= i < size ==> p.worker_idle(i))
            },
    {
        if size == 0 {
            None
        } else {
            Some(Self::new(size))
        }
    }

    /// Submits a job: it joins the back of the queue, the ledger records it,
    /// and nothing else — no worker, no earlier job — is touched. The queue
    /// is unbounded, so submission never blocks and never drops a job,
    /// however far the backlog exceeds the worker count.
    pub fn execute(&mut self, job: J)
        requires
            old(self).wf(),
        ensures
            final(self).wf(),
            final(self).pending() == old(self).pending().push(job),
            final(self).submitted() == old(self).submitted().push(job),
            final(self).dispatched() == old(self).dispatched(),
            final(self).completed() == old(self).completed(),
            final(self).in_flight() == old(self).in_flight(),
            final(self).size() == old(self).size(),
            forall|i: int| 0 <= i < old(self).size() ==> final(self).worker_idle(i)
                == old(self).worker_idle(i)
                && final(self).worker_job(i) == old(self).worker_job(i),
    {
        let ghost j = job;
        self.queue.push(job);
        self.submitted_log = Ghost(self.submitted_log@.push(j));
        proof {
            assert(self.submitted_log@ =~= self.dispatched_log@ + self.queue@);
        }
    }

    /// Worker `w`, idle until now, has pulled the queue's oldest job: the
    /// worker turns busy on exactly that job, the job leaves the queue and is
    /// returned to the host to run. Only worker `w` changes.
    pub fn dispatch(&mut self, w: usize) -> (job: J)
        requires
            old(self).wf(),
            w < old(self).size(),
            old(self).worker_idle(w as int),
            old(self).pending().len() > 0,
        ensures
            final(self).wf(),
            job == old(self).pending()[0],
            final(self).pending() == old(self).pending().drop_first(),
            final(self).dispatched() == old(self).dispatched().push(job),
            final(self).in_flight() == old(self).in_flight().insert(job),
            final(self).submitted() == old(self).submitted(),
            final(self).completed() == old(self).completed(),
            final(self).size() == old(self).size(),
            !final(self).worker_idle(w as int),
            final(self).worker_job(w as int) == job,
            forall|i: int| 0 <= i < old(self).size() && i != w ==> final(self).worker_idle(i)
                == old(self).worker_idle(i)
                && final(self).worker_job(i) == old(self).worker_job(i),
    {
        let job = self.queue.remove(0);
        let ghost j = job;
        let ghost ws0 = self.workers@;
        self.workers[w].state = WorkerState::Executing(Ghost(job));
        self.dispatched_log = Ghost(self.dispatched_log@.push(j));
        proof {
            assert(self.workers@ =~= ws0.update(w as int, self.workers@[w as int]));
            lemma_in_flight_update(ws0, w as int, self.workers@[w as int]);
            assert(in_flight_of(self.workers@) =~= in_flight_of(ws0).insert(j));
            assert(self.submitted_log@ =~= self.dispatched_log@ + self.queue@) by {
                assert(old(self).queue@ =~= seq![j] + self.queue@);
                assert(self.dispatched_log@ + self.queue@ =~= old(self).dispatched_log@ + (
                seq![j] + self.queue@));
            }
            assert(self.dispatched_log@.to_multiset() =~= self.completed_log@.to_multiset().add(
                in_flight_of(self.workers@),
            ));
            if self.workers@.len() == 1 {
                assert(w == 0);
                assert(slot_seq(ws0[0]) =~= Seq::<J>::empty());
                assert(old(self).dispatched_log@ =~= self.completed_log@);
                assert(self.dispatched_log@ =~= self.completed_log@ + slot_seq(
                    self.workers@[0],
                ));
            }
        }
        job
    }

    /// The job worker `w` was running has returned: the worker turns idle
    /// and the ledger records the completion. Only worker `w` changes.
    pub fn finish(&mut self, w: usize)
        requires
            old(self).wf(),
            w < old(self).size(),
            !old(self).worker_idle(w as int),
        ensures
            final(self).wf(),
            final(self).completed() == old(self).completed().push(old(self).worker_job(w as int)),
            final(self).in_flight() == old(self).in_flight().remove(
                old(self).worker_job(w as int),
            ),
            final(self).worker_idle(w as int),
            final(self).pending() == old(self).pending(),
            final(self).submitted() == old(self).submitted(),
            final(self).dispatched() == old(self).dispatched(),
            final(self).size() == old(self).size(),
            forall|i: int| 0 <= i < old(self).size() && i != w ==> final(self).worker_idle(i)
                == old(self).worker_idle(i)
                && final(self).worker_job(i) == old(self).worker_job(i),
    {
        let ghost j = old(self).workers@[w as int].state->Executing_0@;
        let ghost ws0 = self.workers@;
        self.workers[w].state = WorkerState::Idle;
        self.completed_log = Ghost(self.completed_log@.push(j));
        proof {
            assert(self.workers@ =~= ws0.update(w as int, self.workers@[w as int]));
            lemma_in_flight_update(ws0, w as int, self.workers@[w as int]);
            lemma_in_flight_busy(ws0, w as int);
            assert(in_flight_of(self.workers@) =~= in_flight_of(ws0).remove(j));
            assert(self.dispatched_log@.to_multiset() =~= self.completed_log@.to_multiset().add(
                in_flight_of(self.workers@),
            ));
            if self.workers@.len() == 1 {
                assert(w == 0);
                assert(old(self).dispatched_log@ =~= old(self).completed_log@ + seq![j]);
                assert(self.completed_log@ =~= old(self).completed_log@ + seq![j]);
                assert(self.dispatched_log@ =~= self.completed_log@ + slot_seq(
                    self.workers@[0],
                ));
            }
        }
    }

    /// The checked hand-out: pulls for worker `w` exactly when the worker is
    /// idle and a job is pending, and otherwise changes nothing.
    pub fn try_dispatch(&mut self, w: usize) -> (job: Option<J>)
        requires
            old(self).wf(),
            w < old(self).size(),
        ensures
            final(self).wf(),
            job is Some <==> (old(self).worker_idle(w as int) && old(self).pending().len() > 0),
            job matches Some(j) ==> {
                &&& j == old(self).pending()[0]
                &&& final(self).pending() == old(self).pending().drop_first()
                &&& final(self).dispatched() == old(self).dispatched().push(j)
                &&& final(self).in_flight() == old(self).in_flight().insert(j)
                &&& final(self).submitted() == old(self).submitted()
                &&& final(self).completed() == old(self).completed()
                &&& final(self).size() == old(self).size()
                &&& !final(self).worker_idle(w as int)
                &&& final(self).worker_job(w as int) == j
                &&& (forall|i: int| 0 <= i < old(self).size() && i != w
                    ==> final(self).worker_idle(i) == old(self).worker_idle(i)
                        && final(self).worker_job(i) == old(self).worker_job(i))
            },
            job is None ==> *final(self) == *old(self),
    {
        if self.is_idle(w) && self.queue.len() > 0 {
            Some(self.dispatch(w))
        } else {
            None
        }
    }

    /// How many workers the pool owns.
    pub fn worker_count(&self) -> (n: usize)
        ensures
            n == self.size(),
    {
        self.workers.len()
    }

    /// How many submitted jobs no worker has pulled yet.
    pub fn pending_count(&self) -> (n: usize)
        ensures
            n == self.pending().len(),
    {
        self.queue.len()
    }

    /// Whether worker `w` is currently blocked on the queue.
    pub fn is_idle(&self, w: usize) -> (idle: bool)
        requires
            w < self.size(),
        ensures
            idle == self.worker_idle(w as int),
    {
        match &self.workers[w].state {
            WorkerState::Idle => true,
            WorkerState::Executing(_) => false,
        }
    }
}

/// A pool of all-idle workers holds no job in flight.
proof fn lemma_in_flight_all_idle<J>(workers: Seq<Worker<J>>)
    requires
        forall|i: int| 0 <= i < workers.len() ==> (#[trigger] workers[i]).state is Idle,
    ensures
        in_flight_of(workers) == Multiset::<J>::empty(),
    decreases workers.len(),
{
    if workers.len() > 0 {
        lemma_in_flight_all_idle(workers.drop_last());
        assert(workers[workers.len() - 1].state is Idle);
        assert(slot_jobs(workers.last()) =~= Multiset::<J>::empty());
        assert(in_flight_of(workers) =~= Multiset::<J>::empty());
    }
}

/// Replacing one worker exchanges exactly that worker's held jobs in the
/// in-flight multiset, stated element by element.
proof fn lemma_in_flight_update<J>(workers: Seq<Worker<J>>, i: int, worker: Worker<J>)
    requires
        0 <= i < workers.len(),
    ensures
        forall|x: J| #[trigger] in_flight_of(workers.update(i, worker)).count(x) + slot_jobs(
            workers[i],
        ).count(x) == in_flight_of(workers).count(x) + slot_jobs(worker).count(x),
    decreases workers.len(),
{
    let updated = workers.update(i, worker);
    if i == workers.len() - 1 {
        assert(updated.drop_last() =~= workers.drop_last());
        assert(updated.last() == worker);
        assert(workers.last() == workers[i]);
        assert forall|x: J| #[trigger] in_flight_of(updated).count(x) + slot_jobs(
            workers[i],
        ).count(x) == in_flight_of(workers).count(x) + slot_jobs(worker).count(x) by {
            assert(in_flight_of(updated) == in_flight_of(workers.drop_last()).add(
                slot_jobs(worker),
            ));
            assert(in_flight_of(workers) == in_flight_of(workers.drop_last()).add(
                slot_jobs(workers[i]),
            ));
        }
    } else {
        lemma_in_flight_update(workers.drop_last(), i, worker);
        assert(updated.drop_last() =~= workers.drop_last().update(i, worker));
        assert(updated.last() == workers.last());
        assert(workers.drop_last()[i] == workers[i]);
        assert forall|x: J| #[trigger] in_flight_of(updated).count(x) + slot_jobs(
            workers[i],
        ).count(x) == in_flight_of(workers).count(x) + slot_jobs(worker).count(x) by {
            assert(in_flight_of(updated) == in_flight_of(
                workers.drop_last().update(i, worker),
            ).add(slot_jobs(workers.last())));
            assert(in_flight_of(workers) == in_flight_of(workers.drop_last()).add(
                slot_jobs(workers.last()),
            ));
        }
    }
}

/// A busy worker's job is in flight, so at least one job is.
proof fn lemma_in_flight_busy<J>(workers: Seq<Worker<J>>, i: int)
    requires
        0 <= i < workers.len(),
        workers[i].state is Executing,
    ensures
        in_flight_of(workers).count(workers[i].state->Executing_0@) >= 1,
        in_flight_of(workers).len() >= 1,
    decreases workers.len(),
{
    if i == workers.len() - 1 {
        assert(workers.last() == workers[i]);
    } else {
        lemma_in_flight_busy(workers.drop_last(), i);
        assert(workers.drop_last()[i] == workers[i]);
    }
}

/// Two distinct busy workers hold two jobs in flight.
proof fn lemma_in_flight_two_busy<J>(workers: Seq<Worker<J>>, a: int, b: int)
    requires
        0 <= a < b < workers.len(),
        workers[a].state is Executing,
        workers[b].state is Executing,
    ensures
        in_flight_of(workers).len() >= 2,
    decreases workers.len(),
{
    if b == workers.len() - 1 {
        lemma_in_flight_busy(workers.drop_last(), a);
        assert(workers.drop_last()[a] == workers[a]);
        assert(workers.last() == workers[b]);
    } else {
        lemma_in_flight_two_busy(workers.drop_last(), a, b);
        assert(workers.drop_last()[a] == workers[a]);
        assert(workers.drop_last()[b] == workers[b]);
    }
}

/// The empty sequence carries the empty multiset.
proof fn lemma_to_multiset_empty<J>()
    ensures
        Seq::<J>::empty().to_multiset() == Multiset::<J>::empty(),
{
    assert(Seq::<J>::empty().to_multiset().len() == 0);
    vstd::multiset::lemma_multiset_empty_len(Seq::<J>::empty().to_multiset());
}

/// Conservation of jobs: every job ever submitted to a well-formed pool is
/// accounted for exactly — it is still pending, or in some worker's hands,
/// or completed, with multiplicities adding up. In particular no submitted
/// job is lost and none is duplicated, however the submission count relates
/// to the worker count.
pub proof fn lemma_jobs_conserved<J>(pool: ThreadPool<J>)
    requires
        pool.wf(),
    ensures
        pool.submitted().to_multiset() == pool.completed().to_multiset().add(pool.in_flight()).add(
            pool.pending().to_multiset(),
        ),
{
    assert(pool.submitted().to_multiset() =~= pool.completed().to_multiset().add(
        pool.in_flight(),
    ).add(pool.pending().to_multiset()));
}

/// Exactly-once execution: once the queue has drained and every worker has
/// gone back to waiting, the completed jobs are exactly the submitted jobs —
/// each submitted job ran once, no more, no fewer.
pub proof fn lemma_exactly_once<J>(pool: ThreadPool<J>)
    requires
        pool.wf(),
        pool.pending().len() == 0,
        forall|i: int| 0 <= i < pool.size() ==> pool.worker_idle(i),
    ensures
        pool.completed().to_multiset() == pool.submitted().to_multiset(),
{
    assert forall|i: int| 0 <= i < pool.workers@.len() implies (#[trigger] pool.workers@[i]).state
        is Idle by {
        assert(pool.worker_idle(i));
    }
    lemma_in_flight_all_idle(pool.workers@);
    assert(pool.pending() =~= Seq::<J>::empty());
    lemma_to_multiset_empty::<J>();
    assert(pool.submitted() =~= pool.dispatched());
    assert(pool.completed().to_multiset() =~= pool.submitted().to_multiset());
}

/// First in, first out at the hand-out point: jobs leave the queue for
/// workers in exactly the order they were submitted, whatever the worker
/// count — the hand-out ledger is always a prefix of the submission ledger.
/// (Completion order is another matter: workers racing to pull may finish
/// in either order, see [`lemma_single_worker_fifo`] for the one-worker
/// case where the two coincide.)
pub proof fn lemma_dispatch_fifo<J>(pool: ThreadPool<J>)
    requires
        pool.wf(),
    ensures
        pool.dispatched().is_prefix_of(pool.submitted()),
{
    assert(pool.dispatched() =~= pool.submitted().subrange(0, pool.dispatched().len() as int));
}

/// Strict order with a single worker: a pool of one worker completes jobs in
/// exactly the order they were submitted — the completed ledger is always a
/// prefix of the submission ledger, and equals it once the pool is quiet.
pub proof fn lemma_single_worker_fifo<J>(pool: ThreadPool<J>)
    requires
        pool.wf(),
        pool.size() == 1,
    ensures
        pool.completed().is_prefix_of(pool.submitted()),
        pool.pending().len() == 0 && pool.worker_idle(0) ==> pool.completed() == pool.submitted(),
{
    assert(pool.submitted() =~= pool.completed() + (slot_seq(pool.workers@[0]) + pool.pending()));
    assert(pool.completed() =~= pool.submitted().subrange(0, pool.completed().len() as int));
    if pool.pending().len() == 0 && pool.worker_idle(0) {
        assert(pool.completed() =~= pool.submitted());
    }
}

/// Observable concurrency: whenever two distinct workers are busy at the
/// same time, two jobs are in flight at the same time — a pool of two or
/// more workers can run two long jobs with overlapping lifetimes.
pub proof fn lemma_concurrent_execution<J>(pool: ThreadPool<J>, a: int, b: int)
    requires
        pool.wf(),
        0 <= a < pool.size(),
        0 <= b < pool.size(),
        a != b,
        !pool.worker_idle(a),
        !pool.worker_idle(b),
    ensures
        pool.in_flight().len() >= 2,
        pool.in_flight().count(pool.worker_job(a)) >= 1,
        pool.in_flight().count(pool.worker_job(b)) >= 1,
{
    if a < b {
        lemma_in_flight_two_busy(pool.workers@, a, b);
    } else {
        lemma_in_flight_two_busy(pool.workers@, b, a);
    }
    lemma_in_flight_busy(pool.workers@, a);
    lemma_in_flight_busy(pool.workers@, b);
}

} // verus!
