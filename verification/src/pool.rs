//! The job pool: a fixed set of workers pulling tagged messages from one
//! shared FIFO queue. `execute` enqueues a job; shutdown enqueues exactly
//! one poison pill per worker, behind every job, and each worker exits on
//! the first pill it takes. Because pills ride behind the jobs, every job
//! queued ahead of them completes before shutdown returns, and no worker can
//! ever consume a second pill.
//!
//! Workers run concurrently, so the model leaves the interleaving open: a
//! schedule of worker indices picks who takes the next message, and the
//! shutdown law holds for every schedule.

use vstd::prelude::*;

verus! {

/// A message on the pool's shared queue: a unit of work by id, or the
/// poison pill that stops one worker.
#[derive(PartialEq, Eq, Structural, Clone, Copy, Debug)]
pub enum JobMsg {
    New(u64),
    Terminate,
}

/// The pool's state, as the contracts speak of it.
#[verifier::ext_equal]
pub struct PoolView {
    /// The shared queue, front first.
    pub queue: Seq<JobMsg>,
    /// Whether shutdown has queued the pills.
    pub halting: bool,
    /// Which workers still serve the queue.
    pub active: Seq<bool>,
    /// How many pills each worker has consumed.
    pub terms: Seq<nat>,
    /// The ids of the jobs run so far, in completion order.
    pub executed: Seq<u64>,
}

/// A fresh pool: `size` active workers, an empty queue.
pub open spec fn pool_init(size: nat) -> PoolView {
    PoolView {
        queue: Seq::empty(),
        halting: false,
        active: Seq::new(size, |i: int| true),
        terms: Seq::new(size, |i: int| 0nat),
        executed: Seq::empty(),
    }
}

/// One job enqueued behind everything else.
pub open spec fn submit_spec(v: PoolView, id: u64) -> PoolView {
    PoolView {
        queue: v.queue.push(JobMsg::New(id)),
        halting: v.halting,
        active: v.active,
        terms: v.terms,
        executed: v.executed,
    }
}

/// `n` poison pills.
pub open spec fn pills(n: nat) -> Seq<JobMsg> {
    Seq::new(n, |i: int| JobMsg::Terminate)
}

/// Shutdown requested: one pill per worker, behind every queued job.
pub open spec fn halt_spec(v: PoolView) -> PoolView {
    PoolView {
        queue: v.queue + pills(v.active.len()),
        halting: true,
        active: v.active,
        terms: v.terms,
        executed: v.executed,
    }
}

/// Worker `w` takes one message off the queue: it runs a job, or consumes a
/// pill and stops. A stopped worker, or an empty queue, changes nothing.
pub open spec fn worker_step_spec(v: PoolView, w: int) -> PoolView {
    if 0 <= w < v.active.len() && v.active[w] && v.queue.len() > 0 {
        match v.queue[0] {
            JobMsg::New(id) => PoolView {
                queue: v.queue.drop_first(),
                halting: v.halting,
                active: v.active,
                terms: v.terms,
                executed: v.executed.push(id),
            },
            JobMsg::Terminate => PoolView {
                queue: v.queue.drop_first(),
                halting: v.halting,
                active: v.active.update(w, false),
                terms: v.terms.update(w, v.terms[w] + 1),
                executed: v.executed,
            },
        }
    } else {
        v
    }
}

/// The pool after the workers take messages in the order `sched` names them.
pub open spec fn run_steps(v: PoolView, sched: Seq<int>) -> PoolView
    decreases sched.len(),
{
    if sched.len() == 0 {
        v
    } else {
        run_steps(worker_step_spec(v, sched[0]), sched.drop_first())
    }
}

/// Every worker has stopped.
pub open spec fn all_stopped(v: PoolView) -> bool {
    forall|w: int| 0 <= w < v.active.len() ==> !v.active[w]
}

/// How many pills sit in the queue.
pub open spec fn count_terms(q: Seq<JobMsg>) -> nat
    decreases q.len(),
{
    if q.len() == 0 {
        0
    } else {
        (if q[0] is Terminate {
            1nat
        } else {
            0nat
        }) + count_terms(q.drop_first())
    }
}

/// The ids of the jobs in the queue, in order.
pub open spec fn news_ids(q: Seq<JobMsg>) -> Seq<u64>
    decreases q.len(),
{
    if q.len() == 0 {
        Seq::empty()
    } else {
        match q[0] {
            JobMsg::New(id) => seq![id] + news_ids(q.drop_first()),
            JobMsg::Terminate => news_ids(q.drop_first()),
        }
    }
}

/// How many workers have stopped.
pub open spec fn count_stopped(a: Seq<bool>) -> nat
    decreases a.len(),
{
    if a.len() == 0 {
        0
    } else {
        (if a[0] {
            0nat
        } else {
            1nat
        }) + count_stopped(a.drop_first())
    }
}

/// Every pill sits behind every job.
pub open spec fn pills_last(q: Seq<JobMsg>) -> bool {
    forall|i: int, j: int|
        #![trigger q[i], q[j]]
        (0 <= i < j < q.len() && q[i] is Terminate) ==> q[j] is Terminate
}

/// The pool before shutdown: no pill queued, every worker active and
/// pill-free.
pub open spec fn accepting_inv(v: PoolView) -> bool {
    &&& !v.halting
    &&& v.active.len() >= 1
    &&& v.terms.len() == v.active.len()
    &&& count_terms(v.queue) == 0
    &&& forall|w: int| 0 <= w < v.active.len() ==> v.active[w] && v.terms[w] == 0
}

/// The pool after shutdown queued the pills, preserved by every worker
/// step: pills ride behind jobs, pills in the queue and stopped workers
/// account for one pill per worker, a worker's pill count mirrors whether
/// it stopped, and once any pill is consumed no job remains.
pub open spec fn draining_inv(v: PoolView) -> bool {
    &&& v.halting
    &&& v.active.len() >= 1
    &&& v.terms.len() == v.active.len()
    &&& pills_last(v.queue)
    &&& count_terms(v.queue) + count_stopped(v.active) == v.active.len()
    &&& forall|w: int|
        0 <= w < v.active.len() ==> v.terms[w] == (if v.active[w] {
            0nat
        } else {
            1nat
        })
    &&& count_stopped(v.active) > 0 ==> news_ids(v.queue).len() == 0
}

proof fn lemma_count_terms_concat(a: Seq<JobMsg>, b: Seq<JobMsg>)
    ensures
        count_terms(a + b) == count_terms(a) + count_terms(b),
    decreases a.len(),
{
    if a.len() == 0 {
        assert(a + b =~= b);
    } else {
        assert((a + b).drop_first() =~= a.drop_first() + b);
        lemma_count_terms_concat(a.drop_first(), b);
    }
}

proof fn lemma_news_ids_concat(a: Seq<JobMsg>, b: Seq<JobMsg>)
    ensures
        news_ids(a + b) == news_ids(a) + news_ids(b),
    decreases a.len(),
{
    if a.len() == 0 {
        assert(a + b =~= b);
        assert(news_ids(a) + news_ids(b) =~= news_ids(b));
    } else {
        assert((a + b).drop_first() =~= a.drop_first() + b);
        lemma_news_ids_concat(a.drop_first(), b);
        if a[0] is New {
            assert(seq![a[0]->New_0] + (news_ids(a.drop_first()) + news_ids(b)) =~= (seq![a[0]
                ->New_0] + news_ids(a.drop_first())) + news_ids(b));
        }
    }
}

proof fn lemma_pills(n: nat)
    ensures
        count_terms(pills(n)) == n,
        news_ids(pills(n)) == Seq::<u64>::empty(),
    decreases n,
{
    if n > 0 {
        assert(pills(n).drop_first() =~= pills((n - 1) as nat));
        lemma_pills((n - 1) as nat);
    }
}

/// The queue splits into its jobs and its pills.
proof fn lemma_sizes(q: Seq<JobMsg>)
    ensures
        news_ids(q).len() + count_terms(q) == q.len(),
    decreases q.len(),
{
    if q.len() > 0 {
        lemma_sizes(q.drop_first());
    }
}

proof fn lemma_no_terms_all_new(q: Seq<JobMsg>)
    requires
        count_terms(q) == 0,
    ensures
        forall|i: int| 0 <= i < q.len() ==> !(#[trigger] q[i] is Terminate),
    decreases q.len(),
{
    if q.len() > 0 {
        lemma_no_terms_all_new(q.drop_first());
        assert forall|i: int| 0 <= i < q.len() implies !(#[trigger] q[i] is Terminate) by {
            if i > 0 {
                assert(q.drop_first()[i - 1] == q[i]);
            }
        }
    }
}

/// Behind a pill at the front of a pill-sorted queue there is no job left.
proof fn lemma_term_head_no_news(q: Seq<JobMsg>)
    requires
        pills_last(q),
        q.len() > 0,
        q[0] is Terminate,
    ensures
        news_ids(q).len() == 0,
    decreases q.len(),
{
    if q.len() > 1 {
        assert(q.drop_first()[0] == q[1]);
        assert(q[1] is Terminate);
        assert forall|i: int, j: int|
            (0 <= i < j < q.drop_first().len() && #[trigger] q.drop_first()[i] is
            Terminate) implies #[trigger] q.drop_first()[j] is Terminate by {
            assert(q.drop_first()[i] == q[i + 1]);
            assert(q.drop_first()[j] == q[j + 1]);
        }
        lemma_term_head_no_news(q.drop_first());
    } else {
        assert(q.drop_first().len() == 0);
        assert(news_ids(q.drop_first()).len() == 0);
    }
}

proof fn lemma_count_stopped_update(a: Seq<bool>, w: int)
    requires
        0 <= w < a.len(),
        a[w],
    ensures
        count_stopped(a.update(w, false)) == count_stopped(a) + 1,
    decreases a.len(),
{
    if w == 0 {
        assert(a.update(0, false).drop_first() =~= a.drop_first());
    } else {
        assert(a.update(w, false).drop_first() =~= a.drop_first().update(w - 1, false));
        lemma_count_stopped_update(a.drop_first(), w - 1);
    }
}

proof fn lemma_count_stopped_all_stopped(a: Seq<bool>)
    requires
        forall|w: int| 0 <= w < a.len() ==> !(#[trigger] a[w]),
    ensures
        count_stopped(a) == a.len(),
    decreases a.len(),
{
    if a.len() > 0 {
        assert(forall|w: int| 0 <= w < a.drop_first().len() ==> #[trigger] a.drop_first()[w] == a[w
            + 1]);
        lemma_count_stopped_all_stopped(a.drop_first());
    }
}

proof fn lemma_count_stopped_all_active(a: Seq<bool>)
    requires
        forall|w: int| 0 <= w < a.len() ==> #[trigger] a[w],
    ensures
        count_stopped(a) == 0,
    decreases a.len(),
{
    if a.len() > 0 {
        assert(forall|w: int| 0 <= w < a.drop_first().len() ==> #[trigger] a.drop_first()[w] == a[w
            + 1]);
        lemma_count_stopped_all_active(a.drop_first());
    }
}

proof fn lemma_count_stopped_le(a: Seq<bool>)
    ensures
        count_stopped(a) <= a.len(),
    decreases a.len(),
{
    if a.len() > 0 {
        lemma_count_stopped_le(a.drop_first());
    }
}

/// While worker `w` is still active, not every worker counts as stopped.
proof fn lemma_count_stopped_some_active(a: Seq<bool>, w: int)
    requires
        0 <= w < a.len(),
        a[w],
    ensures
        count_stopped(a) < a.len(),
    decreases a.len(),
{
    if w == 0 {
        lemma_count_stopped_le(a.drop_first());
    } else {
        assert(a.drop_first()[w - 1] == a[w]);
        lemma_count_stopped_some_active(a.drop_first(), w - 1);
    }
}

/// One worker step preserves the draining invariant and moves at most one
/// job id from the queue to the executed log, in queue order.
proof fn lemma_step_preserves(v: PoolView, w: int)
    requires
        draining_inv(v),
    ensures
        draining_inv(worker_step_spec(v, w)),
        worker_step_spec(v, w).executed + news_ids(worker_step_spec(v, w).queue) == v.executed
            + news_ids(v.queue),
        worker_step_spec(v, w).active.len() == v.active.len(),
        worker_step_spec(v, w).halting == v.halting,
{
    let v2 = worker_step_spec(v, w);
    if 0 <= w < v.active.len() && v.active[w] && v.queue.len() > 0 {
        let q = v.queue;
        assert forall|i: int, j: int|
            (0 <= i < j < q.drop_first().len() && #[trigger] q.drop_first()[i] is
            Terminate) implies #[trigger] q.drop_first()[j] is Terminate by {
            assert(q.drop_first()[i] == q[i + 1]);
            assert(q.drop_first()[j] == q[j + 1]);
        }
        match q[0] {
            JobMsg::New(id) => {
                assert(news_ids(q) == seq![id] + news_ids(q.drop_first()));
                assert(v.executed.push(id) + news_ids(q.drop_first()) =~= v.executed + (seq![id]
                    + news_ids(q.drop_first())));
                assert(news_ids(q).len() > 0);
            },
            JobMsg::Terminate => {
                lemma_count_stopped_update(v.active, w);
                lemma_term_head_no_news(q);
            },
        }
    }
}

/// Every schedule of worker steps preserves the draining invariant and the
/// queued-then-executed job ids, in order.
proof fn lemma_run_preserves(v: PoolView, sched: Seq<int>)
    requires
        draining_inv(v),
    ensures
        draining_inv(run_steps(v, sched)),
        run_steps(v, sched).executed + news_ids(run_steps(v, sched).queue) == v.executed + news_ids(
            v.queue,
        ),
        run_steps(v, sched).active.len() == v.active.len(),
    decreases sched.len(),
{
    if sched.len() > 0 {
        lemma_step_preserves(v, sched[0]);
        lemma_run_preserves(worker_step_spec(v, sched[0]), sched.drop_first());
    }
}

/// Queuing the pills turns a well-formed accepting pool into a draining
/// one, without touching the queued job ids or the executed log.
pub proof fn lemma_halt_establishes(v: PoolView)
    requires
        accepting_inv(v),
    ensures
        draining_inv(halt_spec(v)),
        news_ids(halt_spec(v).queue) == news_ids(v.queue),
        halt_spec(v).executed == v.executed,
        halt_spec(v).active.len() == v.active.len(),
{
    let m = v.active.len();
    lemma_pills(m);
    lemma_count_terms_concat(v.queue, pills(m));
    lemma_news_ids_concat(v.queue, pills(m));
    lemma_count_stopped_all_active(v.active);
    lemma_no_terms_all_new(v.queue);
    let q2 = halt_spec(v).queue;
    assert forall|i: int, j: int|
        (0 <= i < j < q2.len() && #[trigger] q2[i] is Terminate) implies #[trigger] q2[j] is
    Terminate by {
        assert(!(i < v.queue.len()));
    }
    assert(news_ids(halt_spec(v).queue) =~= news_ids(v.queue));
}

/// Orderly shutdown law: once the pills are queued, one per worker and
/// behind every job, any interleaving of worker steps that stops every
/// worker has emptied the queue, executed exactly the jobs that were queued
/// — each once, in queue order — and handed each worker exactly one pill.
pub proof fn lemma_pool_shutdown(v0: PoolView, sched: Seq<int>)
    requires
        draining_inv(v0),
        all_stopped(run_steps(v0, sched)),
    ensures
        run_steps(v0, sched).queue.len() == 0,
        run_steps(v0, sched).executed == v0.executed + news_ids(v0.queue),
        forall|w: int|
            0 <= w < run_steps(v0, sched).terms.len() ==> run_steps(v0, sched).terms[w] == 1,
{
    lemma_run_preserves(v0, sched);
    let vf = run_steps(v0, sched);
    lemma_count_stopped_all_stopped(vf.active);
    lemma_sizes(vf.queue);
    assert(count_terms(vf.queue) == 0);
    assert(news_ids(vf.queue).len() == 0);
    assert(vf.queue.len() == 0);
    assert(news_ids(vf.queue) =~= Seq::<u64>::empty());
    assert(vf.executed =~= v0.executed + news_ids(v0.queue));
}

/// What one worker step did.
#[derive(PartialEq, Eq, Debug, Clone, Copy)]
pub enum WorkerOutcome {
    /// The worker took job `id`; its work runs now.
    Ran(u64),
    /// The worker took its pill and stopped.
    Stopped,
    /// The worker has already stopped, or the queue is empty.
    Nothing,
}

/// The job pool, step for step the model above: one shared FIFO queue of
/// tagged messages served by a fixed set of workers.
pub struct ThreadPool {
    queue: Vec<JobMsg>,
    halting: bool,
    active: Vec<bool>,
    terms: Vec<u64>,
    executed: Vec<u64>,
}

impl View for ThreadPool {
    type V = PoolView;

    closed spec fn view(&self) -> PoolView {
        PoolView {
            queue: self.queue@,
            halting: self.halting,
            active: self.active@,
            terms: self.terms@.map_values(|t: u64| t as nat),
            executed: self.executed@,
        }
    }
}

impl ThreadPool {
    /// Well-formed in whichever phase it is in.
    pub open spec fn wf(self) -> bool {
        if self@.halting {
            draining_inv(self@)
        } else {
            accepting_inv(self@)
        }
    }

    /// A pool of `size` workers, all serving an empty queue.
    pub fn new(size: usize) -> (p: ThreadPool)
        requires
            1 <= size,
        ensures
            p.wf(),
            p@ == pool_init(size as nat),
    {
        let mut active: Vec<bool> = Vec::new();
        let mut terms: Vec<u64> = Vec::new();
        let mut i: usize = 0;
        while i < size
            invariant
                0 <= i <= size,
                active@.len() == i,
                terms@.len() == i,
                forall|k: int| 0 <= k < i ==> #[trigger] active@[k] == true,
                forall|k: int| 0 <= k < i ==> #[trigger] terms@[k] == 0u64,
            decreases size - i,
        {
            active.push(true);
            terms.push(0);
            i = i + 1;
        }
        let p = ThreadPool {
            queue: Vec::new(),
            halting: false,
            active,
            terms,
            executed: Vec::new(),
        };
        proof {
            assert(p@.active =~= pool_init(size as nat).active);
            assert(p@.terms =~= pool_init(size as nat).terms);
            assert(p@ =~= pool_init(size as nat));
        }
        p
    }

    /// Enqueues one job behind everything queued so far. Returns at once:
    /// it never blocks and never reports whether the job has run.
    pub fn execute(&mut self, id: u64)
        requires
            old(self).wf(),
            !old(self)@.halting,
        ensures
            final(self).wf(),
            !final(self)@.halting,
            final(self)@ == submit_spec(old(self)@, id),
    {
        self.queue.push(JobMsg::New(id));
        proof {
            assert(self@ =~= submit_spec(old(self)@, id));
            assert(old(self)@.queue.push(JobMsg::New(id)) =~= old(self)@.queue + seq![
                JobMsg::New(id),
            ]);
            lemma_count_terms_concat(old(self)@.queue, seq![JobMsg::New(id)]);
            assert(count_terms(seq![JobMsg::New(id)]) == 0) by {
                let single = seq![JobMsg::New(id)];
                assert(single[0] == JobMsg::New(id));
                assert(single.drop_first() =~= Seq::<JobMsg>::empty());
                assert(count_terms(single.drop_first()) == 0);
            }
        }
    }

    /// Queues exactly one pill per worker, behind every job: no worker can
    /// consume a second one, and none stops before the jobs ahead are done.
    pub fn request_shutdown(&mut self)
        requires
            old(self).wf(),
            !old(self)@.halting,
        ensures
            final(self).wf(),
            final(self)@ == halt_spec(old(self)@),
    {
        let m = self.active.len();
        let mut i: usize = 0;
        while i < m
            invariant
                0 <= i <= m,
                self.queue@ == old(self).queue@ + pills(i as nat),
                self.halting == old(self).halting,
                self.active@ == old(self).active@,
                self.terms@ == old(self).terms@,
                self.executed@ == old(self).executed@,
                m == self.active@.len(),
            decreases m - i,
        {
            self.queue.push(JobMsg::Terminate);
            proof {
                assert(old(self).queue@ + pills((i + 1) as nat) =~= (old(self).queue@ + pills(
                    i as nat,
                )).push(JobMsg::Terminate));
            }
            i = i + 1;
        }
        self.halting = true;
        proof {
            assert(self@ =~= halt_spec(old(self)@));
            lemma_halt_establishes(old(self)@);
        }
    }

    /// Worker `w` takes one message: it reports the job to run, stops on its
    /// pill, or finds nothing to take.
    pub fn worker_step(&mut self, w: usize) -> (out: WorkerOutcome)
        requires
            old(self).wf(),
            w < old(self)@.active.len(),
        ensures
            final(self).wf(),
            final(self)@ == worker_step_spec(old(self)@, w as int),
            out is Nothing <==> !(old(self)@.active[w as int] && old(self)@.queue.len() > 0),
            out is Stopped <==> (old(self)@.active[w as int] && old(self)@.queue.len() > 0 && old(
                self,
            )@.queue[0] is Terminate),
            out is Ran <==> (old(self)@.active[w as int] && old(self)@.queue.len() > 0 && old(
                self,
            )@.queue[0] is New),
            out matches WorkerOutcome::Ran(id) ==> old(self)@.queue[0] == JobMsg::New(id),
    {
        if !self.active[w] || self.queue.len() == 0 {
            return WorkerOutcome::Nothing;
        }
        let msg = self.queue.remove(0);
        proof {
            assert(self.queue@ =~= old(self).queue@.drop_first());
        }
        match msg {
            JobMsg::New(id) => {
                self.executed.push(id);
                proof {
                    assert(self@ =~= worker_step_spec(old(self)@, w as int));
                    if old(self)@.halting {
                        lemma_step_preserves(old(self)@, w as int);
                    }
                }
                WorkerOutcome::Ran(id)
            },
            JobMsg::Terminate => {
                proof {
                    if !old(self)@.halting {
                        lemma_no_terms_all_new(old(self)@.queue);
                    }
                    assert(old(self)@.halting);
                }
                self.active.set(w, false);
                let t = self.terms[w];
                self.terms.set(w, t + 1);
                proof {
                    assert(self@.terms =~= old(self)@.terms.update(
                        w as int,
                        old(self)@.terms[w as int] + 1,
                    ));
                    assert(self@ =~= worker_step_spec(old(self)@, w as int));
                    lemma_step_preserves(old(self)@, w as int);
                }
                WorkerOutcome::Stopped
            },
        }
    }

    /// Orderly shutdown: queue the pills, then let each worker drain to its
    /// pill. When this returns, every job queued ahead of the pills has run
    /// — each once, in queue order — every worker has stopped, and each has
    /// consumed exactly one pill.
    pub fn shutdown(&mut self)
        requires
            old(self).wf(),
            !old(self)@.halting,
        ensures
            final(self).wf(),
            all_stopped(final(self)@),
            final(self)@.queue.len() == 0,
            final(self)@.executed == old(self)@.executed + news_ids(old(self)@.queue),
            final(self)@.terms.len() == old(self)@.terms.len(),
            forall|j: int|
                0 <= j < final(self)@.terms.len() ==> #[trigger] final(self)@.terms[j] == 1,
    {
        proof {
            lemma_halt_establishes(old(self)@);
        }
        self.request_shutdown();
        let ghost v0 = self@;
        let m = self.active.len();
        let mut w: usize = 0;
        while w < m
            invariant
                0 <= w <= m,
                draining_inv(self@),
                m == self@.active.len(),
                m >= 1,
                self@.executed + news_ids(self@.queue) == v0.executed + news_ids(v0.queue),
                forall|j: int| 0 <= j < w ==> !(#[trigger] self@.active[j]),
            decreases m - w,
        {
            while self.active[w]
                invariant
                    0 <= w < m,
                    draining_inv(self@),
                    m == self@.active.len(),
                    self@.executed + news_ids(self@.queue) == v0.executed + news_ids(v0.queue),
                    forall|j: int| 0 <= j < w ==> !(#[trigger] self@.active[j]),
                decreases self@.queue.len(),
            {
                proof {
                    lemma_count_stopped_some_active(self@.active, w as int);
                    lemma_sizes(self@.queue);
                }
                let ghost prev = self@;
                let _ = self.worker_step(w);
                proof {
                    lemma_step_preserves(prev, w as int);
                }
            }
            w = w + 1;
        }
        proof {
            lemma_count_stopped_all_stopped(self@.active);
            lemma_sizes(self@.queue);
            assert(news_ids(self@.queue) =~= Seq::<u64>::empty());
            assert(self@.executed =~= v0.executed + news_ids(v0.queue));
            assert(self@.executed =~= old(self)@.executed + news_ids(old(self)@.queue));
        }
    }

    /// The ids of the jobs run so far, in completion order.
    pub fn executed_ids(&self) -> (e: &Vec<u64>)
        ensures
            e@ == self@.executed,
    {
        &self.executed
    }

    /// How many pills worker `w` has consumed.
    pub fn pills_taken(&self, w: usize) -> (t: u64)
        requires
            w < self@.terms.len(),
        ensures
            t as nat == self@.terms[w as int],
    {
        self.terms[w]
    }
}

} // verus!
