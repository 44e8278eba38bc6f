//! What holds of the queue in every state that the operations reach, and
//! the proofs that each operation keeps it.

use vstd::prelude::*;
use crate::instant::Timestamp;
use crate::job::JobResultView;
use crate::job::JobStatus;
use crate::job::JobView;
use crate::job::Priority;
use crate::message::WorkerStatus;
use crate::message::WorkerView;
use crate::model::QueueView;
use crate::model::WORKER_TIMEOUT_NANOS;
use crate::model::is_stale;
use crate::model::materialized;
use crate::model::reloaded;

verus! {

/// How often a job with the given id stands in a queue.
pub open spec fn count_id(queue: Seq<JobView>, id: u128) -> nat
    decreases queue.len(),
{
    if queue.len() == 0 {
        0
    } else {
        count_id(queue.drop_last(), id) + if queue.last().id == id {
            1nat
        } else {
            0nat
        }
    }
}

/// A queue with one more job at its tail holds that job's id once more.
pub proof fn lemma_count_push(queue: Seq<JobView>, job: JobView, id: u128)
    ensures
        count_id(queue.push(job), id) == count_id(queue, id) + if job.id == id {
            1nat
        } else {
            0nat
        },
{
    assert(queue.push(job).drop_last() =~= queue);
}

/// A queue holds the id of its head once more than the rest of it does.
pub proof fn lemma_count_drop_first(queue: Seq<JobView>, id: u128)
    requires
        queue.len() > 0,
    ensures
        count_id(queue, id) == count_id(queue.drop_first(), id) + if queue[0].id == id {
            1nat
        } else {
            0nat
        },
    decreases queue.len(),
{
    if queue.len() == 1 {
        assert(queue.drop_last() =~= Seq::<JobView>::empty());
        assert(queue.drop_first() =~= Seq::<JobView>::empty());
        assert(count_id(Seq::<JobView>::empty(), id) == 0);
    } else {
        lemma_count_drop_first(queue.drop_last(), id);
        assert(queue.drop_last().drop_first() =~= queue.drop_first().drop_last());
        assert(queue.drop_first().last() == queue.last());
        assert(queue.drop_last()[0] == queue[0]);
    }
}

/// Two queues, one after the other, hold an id as often as both together.
pub proof fn lemma_count_concat(a: Seq<JobView>, b: Seq<JobView>, id: u128)
    ensures
        count_id(a + b, id) == count_id(a, id) + count_id(b, id),
    decreases b.len(),
{
    if b.len() == 0 {
        assert(a + b =~= a);
    } else {
        lemma_count_concat(a, b.drop_last(), id);
        assert((a + b).drop_last() =~= a + b.drop_last());
        assert((a + b).last() == b.last());
    }
}

/// A queue holds the id of each of its jobs at least once.
pub proof fn lemma_count_at(queue: Seq<JobView>, i: int)
    requires
        0 <= i < queue.len(),
    ensures
        count_id(queue, queue[i].id) >= 1,
    decreases queue.len(),
{
    if i < queue.len() - 1 {
        lemma_count_at(queue.drop_last(), i);
    }
}

/// A queue holds an id at least twice where two of its jobs carry it.
pub proof fn lemma_count_twice(queue: Seq<JobView>, i: int, j: int)
    requires
        0 <= i < j < queue.len(),
        queue[i].id == queue[j].id,
    ensures
        count_id(queue, queue[i].id) >= 2,
    decreases queue.len(),
{
    if j < queue.len() - 1 {
        lemma_count_twice(queue.drop_last(), i, j);
    } else {
        lemma_count_at(queue.drop_last(), i);
    }
}

/// A queue that holds an id has a job that carries it.
pub proof fn lemma_count_found(queue: Seq<JobView>, id: u128) -> (i: int)
    requires
        count_id(queue, id) >= 1,
    ensures
        0 <= i < queue.len(),
        queue[i].id == id,
    decreases queue.len(),
{
    if queue.last().id == id {
        queue.len() - 1
    } else {
        lemma_count_found(queue.drop_last(), id)
    }
}

impl QueueView {
    /// How often a job with the given id waits, over the three queues.
    pub open spec fn times_waiting(self, id: u128) -> nat {
        count_id(self.pending_high, id) + count_id(self.pending_medium, id) + count_id(
            self.pending_low,
            id,
        )
    }

    /// The job `id` is registered and its record is pending or retrying.
    pub open spec fn is_pending(self, id: u128) -> bool {
        self.jobs.contains_key(id) && self.jobs[id].status.is_pending()
    }

    /// Every record stands under its own id.
    pub open spec fn keyed(self) -> bool {
        &&& forall|id: u128| #[trigger] self.jobs.contains_key(id) ==> self.jobs[id].id == id
        &&& forall|id: u128| #[trigger]
            self.schedules.contains_key(id) ==> self.schedules[id].id == id
    }

    /// The queues and the registry agree: a job whose record is pending or
    /// retrying waits exactly once, and no other id waits at all.
    pub open spec fn consistent(self) -> bool {
        &&& self.keyed()
        &&& forall|id: u128| #[trigger]
            self.times_waiting(id) == if self.is_pending(id) {
                1nat
            } else {
                0nat
            }
    }

    /// No registered job has been retried more often than it may be.
    pub open spec fn retries_bounded(self) -> bool {
        forall|id: u128| #[trigger]
            self.jobs.contains_key(id) ==> self.jobs[id].retry_count <= self.jobs[id].max_retries
    }

    /// Every schedule is a template and every registered job is concrete.
    pub open spec fn kinds_apart(self) -> bool {
        &&& forall|id: u128| #[trigger]
            self.schedules.contains_key(id) ==> self.schedules[id].is_template()
        &&& forall|id: u128| #[trigger] self.jobs.contains_key(id) ==> self.jobs[id].is_concrete()
    }
}

/// Counting over all that waits is counting over the three queues.
pub proof fn lemma_waiting_count(s: QueueView, id: u128)
    ensures
        count_id(s.waiting(), id) == s.times_waiting(id),
{
    lemma_count_concat(s.pending_high, s.pending_medium, id);
    lemma_count_concat(s.pending_high + s.pending_medium, s.pending_low, id);
}

/// In a consistent state no id appears twice across the queues.
pub proof fn law_no_id_waits_twice(s: QueueView, i: int, j: int)
    requires
        s.consistent(),
        0 <= i < j < s.waiting().len(),
    ensures
        s.waiting()[i].id != s.waiting()[j].id,
{
    if s.waiting()[i].id == s.waiting()[j].id {
        lemma_count_twice(s.waiting(), i, j);
        lemma_waiting_count(s, s.waiting()[i].id);
        assert(s.times_waiting(s.waiting()[i].id) >= 2);
    }
}

/// In a consistent state the ids across the queues are exactly the ids of
/// the registered jobs whose status is pending or retrying.
pub proof fn law_waiting_ids_are_pending_ids(s: QueueView, id: u128)
    requires
        s.consistent(),
    ensures
        s.is_pending(id) <==> exists|i: int|
            0 <= i < s.waiting().len() && #[trigger] s.waiting()[i].id == id,
{
    lemma_waiting_count(s, id);
    assert(s.times_waiting(id) == if s.is_pending(id) { 1nat } else { 0nat });
    if s.is_pending(id) {
        let i = lemma_count_found(s.waiting(), id);
        assert(s.waiting()[i].id == id);
    }
    if exists|i: int| 0 <= i < s.waiting().len() && #[trigger] s.waiting()[i].id == id {
        let i = choose|i: int| 0 <= i < s.waiting().len() && #[trigger] s.waiting()[i].id == id;
        lemma_count_at(s.waiting(), i);
    }
}

/// A job that joins a queue waits once more, and nothing else changes.
pub proof fn lemma_enqueue_count(s: QueueView, job: JobView, id: u128)
    ensures
        s.enqueue(job).times_waiting(id) == s.times_waiting(id) + if job.id == id {
            1nat
        } else {
            0nat
        },
{
    match job.priority {
        Priority::HIGH => lemma_count_push(s.pending_high, job, id),
        Priority::MEDIUM => lemma_count_push(s.pending_medium, job, id),
        Priority::LOW => lemma_count_push(s.pending_low, job, id),
    }
}

/// The job that is dispatched next waits once less when it has left.
pub proof fn lemma_without_front_count(s: QueueView, id: u128)
    requires
        s.front() is Some,
    ensures
        s.times_waiting(id) == s.without_front().times_waiting(id) + if s.front()->0.id == id {
            1nat
        } else {
            0nat
        },
{
    if s.pending_high.len() > 0 {
        lemma_count_drop_first(s.pending_high, id);
    } else if s.pending_medium.len() > 0 {
        lemma_count_drop_first(s.pending_medium, id);
    } else {
        lemma_count_drop_first(s.pending_low, id);
    }
}

/// The job that is dispatched next is one that waits.
pub proof fn lemma_front_waits(s: QueueView)
    requires
        s.front() is Some,
    ensures
        s.times_waiting(s.front()->0.id) >= 1,
{
    if s.pending_high.len() > 0 {
        lemma_count_at(s.pending_high, 0);
    } else if s.pending_medium.len() > 0 {
        lemma_count_at(s.pending_medium, 0);
    } else {
        lemma_count_at(s.pending_low, 0);
    }
}

/// Dispatch is strict priority, first in first out within a priority: the
/// job handed out is the first of all that waits, in the order high,
/// medium, low, and the rest waits on in its order.
pub proof fn law_dispatch_takes_the_first(s: QueueView)
    ensures
        s.front() == if s.waiting().len() > 0 {
            Some(s.waiting()[0])
        } else {
            None
        },
        s.without_front().waiting() == if s.waiting().len() > 0 {
            s.waiting().drop_first()
        } else {
            s.waiting()
        },
{
    if s.waiting().len() > 0 {
        assert(s.without_front().waiting() =~= s.waiting().drop_first());
    }
}

/// A job that joins waits behind all of its priority that waited before,
/// and the other priorities are as they were.
pub proof fn law_enqueue_joins_the_tail(s: QueueView, job: JobView, other: Priority)
    ensures
        s.enqueue(job).pending(job.priority) == s.pending(job.priority).push(job),
        other != job.priority ==> s.enqueue(job).pending(other) == s.pending(other),
{
}

/// Submitting a job keeps the queues and the registry in agreement, where
/// the job is pending or retrying and no job of its id waits already.
pub proof fn law_add_job_keeps_consistency(s: QueueView, job: JobView)
    requires
        s.consistent(),
        job.status.is_pending(),
        !s.is_pending(job.id),
    ensures
        s.add_job(job).consistent(),
{
    let t = s.add_job(job);
    let registered = QueueView { jobs: s.jobs.insert(job.id, job), ..s };
    assert forall|id: u128| #[trigger]
        t.times_waiting(id) == if t.is_pending(id) {
            1nat
        } else {
            0nat
        } by {
        lemma_enqueue_count(registered, job, id);
        assert(registered.times_waiting(id) == s.times_waiting(id));
    }
}

/// Submitting a schedule template keeps the queues and the registry in
/// agreement.
pub proof fn law_add_schedule_keeps_consistency(s: QueueView, job: JobView)
    requires
        s.consistent(),
    ensures
        s.add_schedule(job).consistent(),
{
    let t = s.add_schedule(job);
    assert forall|id: u128| #[trigger]
        t.times_waiting(id) == if t.is_pending(id) {
            1nat
        } else {
            0nat
        } by {
        assert(t.times_waiting(id) == s.times_waiting(id));
    }
}

/// Dispatching keeps the queues and the registry in agreement.
pub proof fn law_dispatch_keeps_consistency(s: QueueView, requester: u128)
    requires
        s.consistent(),
    ensures
        s.dispatch(requester).consistent(),
{
    let t = s.dispatch(requester);
    if s.front() is Some {
        let job = s.front()->0;
        lemma_front_waits(s);
        assert(s.is_pending(job.id));
        let popped = s.without_front();
        let running = popped.set_status(job.id, JobStatus::RUNNING);
        assert(t.jobs == running.jobs);
        assert forall|id: u128| #[trigger]
            t.times_waiting(id) == if t.is_pending(id) {
                1nat
            } else {
                0nat
            } by {
            lemma_without_front_count(s, id);
            assert(t.times_waiting(id) == popped.times_waiting(id));
            assert(s.times_waiting(id) == if s.is_pending(id) { 1nat } else { 0nat });
        }
    }
}

/// Giving a job a status keeps the queues and the registry in agreement,
/// where the new status waits exactly if the old one did.
pub proof fn law_set_status_keeps_consistency(s: QueueView, id: u128, status: JobStatus)
    requires
        s.consistent(),
        s.jobs.contains_key(id) ==> status.is_pending() == s.jobs[id].status.is_pending(),
    ensures
        s.set_status(id, status).consistent(),
{
    let t = s.set_status(id, status);
    assert forall|other: u128| #[trigger]
        t.times_waiting(other) == if t.is_pending(other) {
            1nat
        } else {
            0nat
        } by {
        assert(t.times_waiting(other) == s.times_waiting(other));
        assert(s.times_waiting(other) == if s.is_pending(other) { 1nat } else { 0nat });
    }
}

/// Having a job tried again keeps the queues and the registry in
/// agreement, where the job does not wait already.
pub proof fn law_retry_keeps_consistency(s: QueueView, id: u128)
    requires
        s.consistent(),
        !s.is_pending(id),
    ensures
        s.retry(id).consistent(),
{
    let t = s.retry(id);
    if s.jobs.contains_key(id) {
        let job = QueueView::retried(s.jobs[id]);
        let registered = QueueView { jobs: s.jobs.insert(id, job), ..s };
        assert forall|other: u128| #[trigger]
            t.times_waiting(other) == if t.is_pending(other) {
                1nat
            } else {
                0nat
            } by {
            lemma_enqueue_count(registered, job, other);
            assert(registered.times_waiting(other) == s.times_waiting(other));
            assert(s.times_waiting(other) == if s.is_pending(other) { 1nat } else { 0nat });
        }
    }
}

/// A report keeps the queues and the registry in agreement, where the job
/// it speaks of does not wait: it is unknown, running, or at an outcome.
pub proof fn law_report_keeps_consistency(s: QueueView, id: u128, result: JobResultView)
    requires
        s.consistent(),
        !s.is_pending(id),
    ensures
        s.report(id, result).consistent(),
{
    if !s.jobs.contains_key(id) {
    } else if QueueView::wants_retry(s.jobs[id], result) {
        law_retry_keeps_consistency(s, id);
    } else {
        let kept = s.store_result(id, result);
        assert(kept.consistent()) by {
            assert forall|other: u128| #[trigger]
                kept.times_waiting(other) == if kept.is_pending(other) {
                    1nat
                } else {
                    0nat
                } by {
                assert(kept.times_waiting(other) == s.times_waiting(other));
                assert(s.times_waiting(other) == if s.is_pending(other) { 1nat } else { 0nat });
            }
        }
        law_set_status_keeps_consistency(kept, id, QueueView::outcome(result));
    }
}

/// Registering a worker, and hearing of one, leave jobs and queues alone.
pub proof fn law_workers_keep_consistency(s: QueueView, info: WorkerView, at: Timestamp)
    requires
        s.consistent(),
    ensures
        s.register(info, at).consistent(),
        s.heartbeat(info.worker_id, at).consistent(),
{
    let t = s.register(info, at);
    let u = s.heartbeat(info.worker_id, at);
    assert forall|id: u128| #[trigger]
        t.times_waiting(id) == if t.is_pending(id) {
            1nat
        } else {
            0nat
        } by {
        assert(t.times_waiting(id) == s.times_waiting(id));
        assert(s.times_waiting(id) == if s.is_pending(id) { 1nat } else { 0nat });
    }
    assert forall|id: u128| #[trigger]
        u.times_waiting(id) == if u.is_pending(id) {
            1nat
        } else {
            0nat
        } by {
        assert(u.times_waiting(id) == s.times_waiting(id));
        assert(s.times_waiting(id) == if s.is_pending(id) { 1nat } else { 0nat });
    }
}

impl QueueView {
    /// The liveness rule takes no job back from the worker that waits
    /// already.
    pub open spec fn reclaims_idle(self, worker_id: u128, now: Timestamp) -> bool {
        self.workers.contains_key(worker_id) && is_stale(self.workers[worker_id], now) ==> (
        match self.reclaimed(worker_id) {
            Some(job_id) => !self.is_pending(job_id),
            None => true,
        })
    }

    /// The liveness rule, applied along `order`, at no step takes a job
    /// back that waits already at that step.
    pub open spec fn sweep_reclaims_idle(self, order: Seq<u128>, now: Timestamp) -> bool
        decreases order.len(),
    {
        if order.len() == 0 {
            true
        } else {
            &&& self.sweep_reclaims_idle(order.drop_last(), now)
            &&& self.sweep(order.drop_last(), now).reclaims_idle(order.last(), now)
        }
    }

    /// The template, if it fires, makes its job under an id that no waiting
    /// job has.
    pub open spec fn fires_fresh(self, id: u128, new_id: u128, now: Timestamp) -> bool {
        self.fires(id, now) ==> !self.is_pending(new_id)
    }

    /// The schedule rule, applied along `order`, at no step makes a job
    /// under an id that a waiting job has at that step.
    pub open spec fn fire_all_fresh(self, order: Seq<u128>, ids: Seq<u128>, now: Timestamp) -> bool
        decreases order.len(),
    {
        if order.len() == 0 || ids.len() == 0 {
            true
        } else {
            &&& self.fire_all_fresh(order.drop_last(), ids.drop_last(), now)
            &&& self.fire_all(order.drop_last(), ids.drop_last(), now).fires_fresh(
                order.last(),
                ids.last(),
                now,
            )
        }
    }
}

/// The liveness rule for one worker keeps the queues and the registry in
/// agreement, where the job it takes back does not wait already.
pub proof fn law_reap_keeps_consistency(s: QueueView, worker_id: u128, now: Timestamp)
    requires
        s.consistent(),
        s.reclaims_idle(worker_id, now),
    ensures
        s.reap(worker_id, now).consistent(),
{
    let t = s.reap(worker_id, now);
    if s.workers.contains_key(worker_id) && is_stale(s.workers[worker_id], now) {
        let dead = QueueView {
            workers: s.workers.insert(
                worker_id,
                WorkerView {
                    status: WorkerStatus::DEAD,
                    current_job_id: None,
                    ..s.workers[worker_id]
                },
            ),
            ..s
        };
        match s.reclaimed(worker_id) {
            Some(job_id) => {
                let queued = dead.enqueue(s.jobs[job_id]);
                assert(t == queued.set_status(job_id, JobStatus::PENDING));
                assert forall|id: u128| #[trigger]
                    t.times_waiting(id) == if t.is_pending(id) {
                        1nat
                    } else {
                        0nat
                    } by {
                    lemma_enqueue_count(dead, s.jobs[job_id], id);
                    assert(dead.times_waiting(id) == s.times_waiting(id));
                    assert(t.times_waiting(id) == queued.times_waiting(id));
                    assert(s.times_waiting(id) == if s.is_pending(id) { 1nat } else { 0nat });
                }
            },
            None => {
                assert forall|id: u128| #[trigger]
                    t.times_waiting(id) == if t.is_pending(id) {
                        1nat
                    } else {
                        0nat
                    } by {
                    assert(t.times_waiting(id) == s.times_waiting(id));
                    assert(s.times_waiting(id) == if s.is_pending(id) { 1nat } else { 0nat });
                }
            },
        }
    }
}

/// The liveness sweep keeps the queues and the registry in agreement,
/// where no job that it takes back waits already when it is taken back.
pub proof fn law_sweep_keeps_consistency(s: QueueView, order: Seq<u128>, now: Timestamp)
    requires
        s.consistent(),
        s.sweep_reclaims_idle(order, now),
    ensures
        s.sweep(order, now).consistent(),
    decreases order.len(),
{
    if order.len() > 0 {
        law_sweep_keeps_consistency(s, order.drop_last(), now);
        law_reap_keeps_consistency(s.sweep(order.drop_last(), now), order.last(), now);
    }
}

impl QueueView {
    /// The job that the liveness rule takes back from a worker: the one that
    /// a stale worker is noted as working on, if it is registered.
    pub open spec fn takes_back(self, worker_id: u128, now: Timestamp) -> Option<u128> {
        if self.workers.contains_key(worker_id) && is_stale(self.workers[worker_id], now) {
            self.reclaimed(worker_id)
        } else {
            None
        }
    }

    /// The liveness sweep along `order` takes every job back once, and none
    /// that waits: the order names no worker twice, no job that is taken
    /// back is pending or retrying, and no two workers have the same job
    /// taken back.
    pub open spec fn reclaims_apart(self, order: Seq<u128>, now: Timestamp) -> bool {
        &&& order.no_duplicates()
        &&& forall|i: int|
            0 <= i < order.len() ==> (#[trigger] self.takes_back(order[i], now) matches Some(job_id)
                ==> !self.is_pending(job_id))
        &&& forall|i: int, k: int|
            0 <= i < k < order.len() && self.takes_back(order[i], now) is Some ==> #[trigger] self.takes_back(
                order[i],
                now,
            ) != #[trigger] self.takes_back(order[k], now)
    }
}

/// The state in the middle of a liveness sweep: the registered jobs are
/// those of before, and one is pending or retrying exactly if it was, or
/// was taken back from a worker already swept.
proof fn lemma_sweep_state(s: QueueView, order: Seq<u128>, now: Timestamp)
    requires
        order.no_duplicates(),
    ensures
        s.sweep(order, now).jobs.dom() == s.jobs.dom(),
        forall|job_id: u128| #[trigger]
            s.sweep(order, now).is_pending(job_id) <==> s.is_pending(job_id) || exists|i: int|
                0 <= i < order.len() && #[trigger] s.takes_back(order[i], now) == Some(job_id),
    decreases order.len(),
{
    if order.len() > 0 {
        let rest = order.drop_last();
        let last = order.last();
        lemma_sweep_state(s, rest, now);
        lemma_sweep_workers(s, rest, now);
        let t = s.sweep(rest, now);
        let u = s.sweep(order, now);
        assert(u == t.reap(last, now));
        assert(!rest.contains(last)) by {
            if rest.contains(last) {
                let i = choose|i: int| 0 <= i < rest.len() && rest[i] == last;
                assert(order[i] == order[order.len() - 1]);
            }
        }
        assert(t.workers.contains_key(last) == s.workers.contains_key(last)) by {
            assert(t.workers.dom().contains(last) == s.workers.dom().contains(last));
        }
        if s.workers.contains_key(last) {
            assert(t.workers[last] == s.workers[last]);
        }
        assert(t.takes_back(last, now) == s.takes_back(last, now)) by {
            if s.workers.contains_key(last) {
                match s.workers[last].current_job_id {
                    Some(job_id) => {
                        assert(t.jobs.dom().contains(job_id) == s.jobs.dom().contains(job_id));
                    },
                    None => {},
                }
            }
        }
        assert(u.jobs.dom() =~= t.jobs.dom());
        assert forall|job_id: u128| #[trigger]
            u.is_pending(job_id) <==> s.is_pending(job_id) || exists|i: int|
                0 <= i < order.len() && #[trigger] s.takes_back(order[i], now) == Some(
                    job_id,
                ) by {
            let taken = s.takes_back(last, now);
            assert(u.is_pending(job_id) <==> t.is_pending(job_id) || taken == Some(job_id)) by {
                if taken == Some(job_id) {
                    assert(t.jobs.contains_key(job_id));
                }
            }
            if exists|i: int|
                0 <= i < order.len() && #[trigger] s.takes_back(order[i], now) == Some(job_id) {
                let i = choose|i: int|
                    0 <= i < order.len() && #[trigger] s.takes_back(order[i], now) == Some(job_id);
                if i < rest.len() {
                    assert(rest[i] == order[i]);
                    assert(s.takes_back(rest[i], now) == Some(job_id));
                } else {
                    assert(order[i] == last);
                }
            }
            if exists|i: int|
                0 <= i < rest.len() && #[trigger] s.takes_back(rest[i], now) == Some(job_id) {
                let i = choose|i: int|
                    0 <= i < rest.len() && #[trigger] s.takes_back(rest[i], now) == Some(job_id);
                assert(order[i] == rest[i]);
                assert(s.takes_back(order[i], now) == Some(job_id));
            }
            if taken == Some(job_id) {
                assert(order[order.len() - 1] == last);
                assert(s.takes_back(order[order.len() - 1], now) == Some(job_id));
            }
        }
    }
}

/// A liveness sweep that takes every job back once, and none that waits,
/// at no step takes a job back that waits already at that step.
pub proof fn lemma_reclaims_apart_suffices(s: QueueView, order: Seq<u128>, now: Timestamp)
    requires
        s.reclaims_apart(order, now),
    ensures
        s.sweep_reclaims_idle(order, now),
    decreases order.len(),
{
    if order.len() > 0 {
        let rest = order.drop_last();
        let last = order.last();
        assert(s.reclaims_apart(rest, now)) by {
            assert forall|i: int| 0 <= i < rest.len() implies (#[trigger] s.takes_back(
                rest[i],
                now,
            ) matches Some(job_id) ==> !s.is_pending(job_id)) by {
                assert(rest[i] == order[i]);
                assert(s.takes_back(order[i], now) == s.takes_back(rest[i], now));
            }
            assert forall|i: int, k: int|
                0 <= i < k < rest.len() && s.takes_back(rest[i], now) is Some implies #[trigger] s.takes_back(
                rest[i],
                now,
            ) != #[trigger] s.takes_back(rest[k], now) by {
                assert(rest[i] == order[i] && rest[k] == order[k]);
                assert(s.takes_back(order[i], now) != s.takes_back(order[k], now));
            }
        }
        lemma_reclaims_apart_suffices(s, rest, now);
        lemma_sweep_state(s, rest, now);
        lemma_sweep_workers(s, rest, now);
        let t = s.sweep(rest, now);
        assert(!rest.contains(last)) by {
            if rest.contains(last) {
                let i = choose|i: int| 0 <= i < rest.len() && rest[i] == last;
                assert(order[i] == order[order.len() - 1]);
            }
        }
        assert(t.workers.contains_key(last) == s.workers.contains_key(last)) by {
            assert(t.workers.dom().contains(last) == s.workers.dom().contains(last));
        }
        if t.workers.contains_key(last) && is_stale(t.workers[last], now) {
            assert(t.workers[last] == s.workers[last]);
            match t.reclaimed(last) {
                Some(job_id) => {
                    assert(t.jobs.dom().contains(job_id) == s.jobs.dom().contains(job_id));
                    assert(order[order.len() - 1] == last);
                    assert(s.takes_back(order[order.len() - 1], now) == Some(job_id));
                    assert(!s.is_pending(job_id));
                    if exists|i: int|
                        0 <= i < rest.len() && #[trigger] s.takes_back(rest[i], now) == Some(
                            job_id,
                        ) {
                        let i = choose|i: int|
                            0 <= i < rest.len() && #[trigger] s.takes_back(rest[i], now) == Some(
                                job_id,
                            );
                        assert(rest[i] == order[i]);
                        assert(s.takes_back(order[i], now) != s.takes_back(
                            order[order.len() - 1],
                            now,
                        ));
                    }
                    assert(!t.is_pending(job_id));
                },
                None => {},
            }
        }
    }
}

/// The liveness sweep keeps the queues and the registry in agreement,
/// where it takes every job back once, and none that waits.
pub proof fn law_sweep_apart_keeps_consistency(s: QueueView, order: Seq<u128>, now: Timestamp)
    requires
        s.consistent(),
        s.reclaims_apart(order, now),
    ensures
        s.sweep(order, now).consistent(),
{
    lemma_reclaims_apart_suffices(s, order, now);
    law_sweep_keeps_consistency(s, order, now);
}

/// The schedule rule for one template keeps the queues and the registry in
/// agreement, where the job it makes has an id that no waiting job has.
pub proof fn law_fire_keeps_consistency(s: QueueView, id: u128, new_id: u128, now: Timestamp)
    requires
        s.consistent(),
        s.fires_fresh(id, new_id, now),
    ensures
        s.fire(id, new_id, now).consistent(),
{
    let fired = if s.fires(id, now) {
        s.add_job(materialized(s.schedules[id], new_id, now))
    } else {
        s
    };
    if s.fires(id, now) {
        law_add_job_keeps_consistency(s, materialized(s.schedules[id], new_id, now));
    }
    let t = s.fire(id, new_id, now);
    assert forall|other: u128| #[trigger]
        t.times_waiting(other) == if t.is_pending(other) {
            1nat
        } else {
            0nat
        } by {
        assert(t.times_waiting(other) == fired.times_waiting(other));
        assert(fired.times_waiting(other) == if fired.is_pending(other) { 1nat } else { 0nat });
    }
}

/// The schedule sweep keeps the queues and the registry in agreement,
/// where every job it makes has an id that no waiting job has.
pub proof fn law_fire_all_keeps_consistency(
    s: QueueView,
    order: Seq<u128>,
    ids: Seq<u128>,
    now: Timestamp,
)
    requires
        s.consistent(),
        s.fire_all_fresh(order, ids, now),
    ensures
        s.fire_all(order, ids, now).consistent(),
    decreases order.len(),
{
    if order.len() > 0 && ids.len() > 0 {
        law_fire_all_keeps_consistency(s, order.drop_last(), ids.drop_last(), now);
        law_fire_keeps_consistency(
            s.fire_all(order.drop_last(), ids.drop_last(), now),
            order.last(),
            ids.last(),
            now,
        );
    }
}

impl QueueView {
    /// The jobs that the store hands over at start-up can be queued
    /// consistently: each job that is no template is pending, running or
    /// retrying, and no two of them share an id.
    pub open spec fn loads_cleanly(pending: Seq<JobView>) -> bool {
        &&& forall|i: int|
            0 <= i < pending.len() && (#[trigger] pending[i]).is_recurring != Some(true)
                ==> reloaded(pending[i]).status.is_pending()
        &&& forall|i: int, j: int|
            0 <= i < j < pending.len() && (#[trigger] pending[i]).is_recurring != Some(true) && (
            #[trigger] pending[j]).is_recurring != Some(true) ==> pending[i].id != pending[j].id
    }
}

/// At start-up a job is registered exactly if the store handed it over as
/// a job that is no template.
proof fn lemma_restore_registers(pending: Seq<JobView>, id: u128)
    ensures
        QueueView::restore(pending).jobs.contains_key(id) <==> exists|i: int|
            0 <= i < pending.len() && (#[trigger] pending[i]).is_recurring != Some(true)
                && pending[i].id == id,
    decreases pending.len(),
{
    if pending.len() > 0 {
        let rest = pending.drop_last();
        lemma_restore_registers(rest, id);
        let last = pending.last();
        if QueueView::restore(pending).jobs.contains_key(id) {
            if QueueView::restore(rest).jobs.contains_key(id) {
                let i = choose|i: int|
                    0 <= i < rest.len() && (#[trigger] rest[i]).is_recurring != Some(true)
                        && rest[i].id == id;
                assert(pending[i] == rest[i]);
            } else {
                assert(pending[pending.len() - 1] == last);
            }
        }
        if exists|i: int|
            0 <= i < pending.len() && (#[trigger] pending[i]).is_recurring != Some(true)
                && pending[i].id == id {
            let i = choose|i: int|
                0 <= i < pending.len() && (#[trigger] pending[i]).is_recurring != Some(true)
                    && pending[i].id == id;
            if i < rest.len() {
                assert(rest[i] == pending[i]);
            }
        }
    }
}

/// The queue at start-up is consistent, where the jobs that the store
/// handed over can be queued consistently.
pub proof fn law_restore_is_consistent(pending: Seq<JobView>)
    requires
        QueueView::loads_cleanly(pending),
    ensures
        QueueView::restore(pending).consistent(),
    decreases pending.len(),
{
    if pending.len() == 0 {
        let e = QueueView::empty();
        assert forall|id: u128| #[trigger] e.times_waiting(id) == 0nat by {}
    } else {
        let rest = pending.drop_last();
        let last = pending.last();
        assert(QueueView::loads_cleanly(rest)) by {
            assert forall|i: int|
                0 <= i < rest.len() && (#[trigger] rest[i]).is_recurring != Some(
                    true,
                ) implies reloaded(rest[i]).status.is_pending() by {
                assert(rest[i] == pending[i]);
            }
            assert forall|i: int, j: int|
                0 <= i < j < rest.len() && (#[trigger] rest[i]).is_recurring != Some(true) && (
                #[trigger] rest[j]).is_recurring != Some(true) implies rest[i].id != rest[j].id by {
                assert(rest[i] == pending[i]);
                assert(rest[j] == pending[j]);
            }
        }
        law_restore_is_consistent(rest);
        let before = QueueView::restore(rest);
        if last.is_recurring == Some(true) {
            law_add_schedule_keeps_consistency(before, last);
        } else {
            assert(pending[pending.len() - 1] == last);
            lemma_restore_registers(rest, last.id);
            if before.jobs.contains_key(last.id) {
                let i = choose|i: int|
                    0 <= i < rest.len() && (#[trigger] rest[i]).is_recurring != Some(true)
                        && rest[i].id == last.id;
                assert(rest[i] == pending[i]);
                assert(false);
            }
            law_add_job_keeps_consistency(before, reloaded(last));
        }
    }
}

/// Every operation that submits nothing keeps the number of retries
/// within its limit: dispatching, reporting, a new status, a kept result,
/// the liveness rule and the schedule rule.
pub proof fn law_retries_stay_bounded(
    s: QueueView,
    id: u128,
    other: u128,
    status: JobStatus,
    result: JobResultView,
    now: Timestamp,
)
    requires
        s.retries_bounded(),
    ensures
        s.dispatch(id).retries_bounded(),
        s.report(id, result).retries_bounded(),
        s.set_status(id, status).retries_bounded(),
        s.store_result(id, result).retries_bounded(),
        s.reap(id, now).retries_bounded(),
        s.fire(id, other, now).retries_bounded(),
{
    assert(s.dispatch(id).retries_bounded()) by {
        let t = s.dispatch(id);
        assert forall|k: u128| #[trigger] t.jobs.contains_key(k) implies t.jobs[k].retry_count
            <= t.jobs[k].max_retries by {
            assert(s.jobs.contains_key(k));
        }
    }
    assert(s.report(id, result).retries_bounded()) by {
        let t = s.report(id, result);
        assert forall|k: u128| #[trigger] t.jobs.contains_key(k) implies t.jobs[k].retry_count
            <= t.jobs[k].max_retries by {
            assert(s.jobs.contains_key(k));
        }
    }
    assert(s.set_status(id, status).retries_bounded()) by {
        let t = s.set_status(id, status);
        assert forall|k: u128| #[trigger] t.jobs.contains_key(k) implies t.jobs[k].retry_count
            <= t.jobs[k].max_retries by {
            assert(s.jobs.contains_key(k));
        }
    }
    assert(s.reap(id, now).retries_bounded()) by {
        let t = s.reap(id, now);
        assert forall|k: u128| #[trigger] t.jobs.contains_key(k) implies t.jobs[k].retry_count
            <= t.jobs[k].max_retries by {
            assert(s.jobs.contains_key(k));
        }
    }
    assert(s.fire(id, other, now).retries_bounded()) by {
        let t = s.fire(id, other, now);
        assert forall|k: u128| #[trigger] t.jobs.contains_key(k) implies t.jobs[k].retry_count
            <= t.jobs[k].max_retries by {
            if k != other || !s.fires(id, now) {
                assert(s.jobs.contains_key(k));
            }
        }
    }
}

/// Submitting keeps the number of retries within its limit: a template
/// always, a job where it is within its own limit.
pub proof fn law_submit_keeps_retries_bounded(s: QueueView, job: JobView)
    requires
        s.retries_bounded(),
    ensures
        s.add_schedule(job).retries_bounded(),
        job.retry_count <= job.max_retries ==> s.add_job(job).retries_bounded(),
{
    if job.retry_count <= job.max_retries {
        let t = s.add_job(job);
        assert forall|k: u128| #[trigger] t.jobs.contains_key(k) implies t.jobs[k].retry_count
            <= t.jobs[k].max_retries by {
            if k != job.id {
                assert(s.jobs.contains_key(k));
            }
        }
    }
}

/// A retry keeps the number of retries within its limit, where the job has
/// a retry left.
pub proof fn law_retry_keeps_retries_bounded(s: QueueView, id: u128)
    requires
        s.retries_bounded(),
        s.jobs.contains_key(id) ==> s.jobs[id].retry_count < s.jobs[id].max_retries,
    ensures
        s.retry(id).retries_bounded(),
{
    let t = s.retry(id);
    assert forall|k: u128| #[trigger] t.jobs.contains_key(k) implies t.jobs[k].retry_count
        <= t.jobs[k].max_retries by {
        assert(s.jobs.contains_key(k));
    }
}

/// The two sweeps keep the number of retries within its limit.
pub proof fn law_sweeps_keep_retries_bounded(
    s: QueueView,
    order: Seq<u128>,
    ids: Seq<u128>,
    now: Timestamp,
)
    requires
        s.retries_bounded(),
    ensures
        s.sweep(order, now).retries_bounded(),
        s.fire_all(order, ids, now).retries_bounded(),
    decreases order.len(),
{
    let result = JobResultView { exitcode: 0, stdout: Seq::empty(), stderr: Seq::empty() };
    if order.len() > 0 {
        law_sweeps_keep_retries_bounded(s, order.drop_last(), ids.drop_last(), now);
        law_retries_stay_bounded(
            s.sweep(order.drop_last(), now),
            order.last(),
            0,
            JobStatus::PENDING,
            result,
            now,
        );
        if ids.len() > 0 {
            law_retries_stay_bounded(
                s.fire_all(order.drop_last(), ids.drop_last(), now),
                order.last(),
                ids.last(),
                JobStatus::PENDING,
                result,
                now,
            );
        }
    }
}

/// The queue at start-up keeps the number of retries within its limit,
/// where every job that the store handed over does.
pub proof fn law_restore_keeps_retries_bounded(pending: Seq<JobView>)
    requires
        forall|i: int|
            0 <= i < pending.len() ==> (#[trigger] pending[i]).retry_count
                <= pending[i].max_retries,
    ensures
        QueueView::restore(pending).retries_bounded(),
    decreases pending.len(),
{
    if pending.len() > 0 {
        let rest = pending.drop_last();
        assert forall|i: int| 0 <= i < rest.len() implies (#[trigger] rest[i]).retry_count
            <= rest[i].max_retries by {
            assert(rest[i] == pending[i]);
        }
        law_restore_keeps_retries_bounded(rest);
        assert(pending[pending.len() - 1] == pending.last());
        law_submit_keeps_retries_bounded(QueueView::restore(rest), pending.last());
        law_submit_keeps_retries_bounded(QueueView::restore(rest), reloaded(pending.last()));
    }
}

/// Every operation that submits nothing keeps templates and concrete jobs
/// apart: dispatching, reporting, a retry, a new status, a kept result, the
/// liveness rule and the schedule rule. A job that the schedule rule makes
/// is a concrete job made from its template.
pub proof fn law_kinds_stay_apart(
    s: QueueView,
    id: u128,
    other: u128,
    status: JobStatus,
    result: JobResultView,
    now: Timestamp,
)
    requires
        s.kinds_apart(),
    ensures
        s.dispatch(id).kinds_apart(),
        s.report(id, result).kinds_apart(),
        s.retry(id).kinds_apart(),
        s.set_status(id, status).kinds_apart(),
        s.store_result(id, result).kinds_apart(),
        s.reap(id, now).kinds_apart(),
        s.fire(id, other, now).kinds_apart(),
        s.fires(id, now) ==> s.fire(id, other, now).jobs[other].is_materialized_from(
            s.schedules[id].id,
        ),
{
    assert(s.dispatch(id).kinds_apart()) by {
        let t = s.dispatch(id);
        assert forall|k: u128| #[trigger] t.jobs.contains_key(k) implies t.jobs[k].is_concrete() by {
            assert(s.jobs.contains_key(k));
        }
    }
    assert(s.retry(id).kinds_apart()) by {
        let t = s.retry(id);
        assert forall|k: u128| #[trigger] t.jobs.contains_key(k) implies t.jobs[k].is_concrete() by {
            assert(s.jobs.contains_key(k));
        }
    }
    assert(s.set_status(id, status).kinds_apart()) by {
        let t = s.set_status(id, status);
        assert forall|k: u128| #[trigger] t.jobs.contains_key(k) implies t.jobs[k].is_concrete() by {
            assert(s.jobs.contains_key(k));
        }
    }
    assert(s.report(id, result).kinds_apart()) by {
        let t = s.report(id, result);
        assert forall|k: u128| #[trigger] t.jobs.contains_key(k) implies t.jobs[k].is_concrete() by {
            assert(s.jobs.contains_key(k));
        }
    }
    assert(s.reap(id, now).kinds_apart()) by {
        let t = s.reap(id, now);
        assert forall|k: u128| #[trigger] t.jobs.contains_key(k) implies t.jobs[k].is_concrete() by {
            assert(s.jobs.contains_key(k));
        }
    }
    assert(s.fire(id, other, now).kinds_apart()) by {
        let t = s.fire(id, other, now);
        assert forall|k: u128| #[trigger] t.jobs.contains_key(k) implies t.jobs[k].is_concrete() by {
            if k != other || !s.fires(id, now) {
                assert(s.jobs.contains_key(k));
            }
        }
        assert forall|k: u128| #[trigger] t.schedules.contains_key(k) implies t.schedules[k].is_template() by {
            assert(s.schedules.contains_key(k));
        }
    }
}

/// Submitting keeps templates and concrete jobs apart, where a template is
/// submitted as a template and a concrete job as a job.
pub proof fn law_submit_keeps_kinds_apart(s: QueueView, job: JobView)
    requires
        s.kinds_apart(),
    ensures
        job.is_template() ==> s.add_schedule(job).kinds_apart(),
        job.is_concrete() ==> s.add_job(job).kinds_apart(),
{
    if job.is_template() {
        let t = s.add_schedule(job);
        assert forall|k: u128| #[trigger] t.schedules.contains_key(k) implies t.schedules[k].is_template() by {
            if k != job.id {
                assert(s.schedules.contains_key(k));
            }
        }
    }
    if job.is_concrete() {
        let t = s.add_job(job);
        assert forall|k: u128| #[trigger] t.jobs.contains_key(k) implies t.jobs[k].is_concrete() by {
            if k != job.id {
                assert(s.jobs.contains_key(k));
            }
        }
    }
}

/// The two sweeps keep templates and concrete jobs apart.
pub proof fn law_sweeps_keep_kinds_apart(
    s: QueueView,
    order: Seq<u128>,
    ids: Seq<u128>,
    now: Timestamp,
)
    requires
        s.kinds_apart(),
    ensures
        s.sweep(order, now).kinds_apart(),
        s.fire_all(order, ids, now).kinds_apart(),
    decreases order.len(),
{
    let result = JobResultView { exitcode: 0, stdout: Seq::empty(), stderr: Seq::empty() };
    if order.len() > 0 {
        law_sweeps_keep_kinds_apart(s, order.drop_last(), ids.drop_last(), now);
        law_kinds_stay_apart(
            s.sweep(order.drop_last(), now),
            order.last(),
            0,
            JobStatus::PENDING,
            result,
            now,
        );
        if ids.len() > 0 {
            law_kinds_stay_apart(
                s.fire_all(order.drop_last(), ids.drop_last(), now),
                order.last(),
                ids.last(),
                JobStatus::PENDING,
                result,
                now,
            );
        }
    }
}

/// The queue at start-up keeps templates and concrete jobs apart, where
/// every job that the store handed over as recurring is a template and
/// every other one is concrete.
pub proof fn law_restore_keeps_kinds_apart(pending: Seq<JobView>)
    requires
        forall|i: int|
            0 <= i < pending.len() ==> (#[trigger] pending[i]).is_template()
                || pending[i].is_concrete(),
    ensures
        QueueView::restore(pending).kinds_apart(),
    decreases pending.len(),
{
    if pending.len() > 0 {
        let rest = pending.drop_last();
        assert forall|i: int| 0 <= i < rest.len() implies (#[trigger] rest[i]).is_template()
            || rest[i].is_concrete() by {
            assert(rest[i] == pending[i]);
        }
        law_restore_keeps_kinds_apart(rest);
        assert(pending[pending.len() - 1] == pending.last());
        law_submit_keeps_kinds_apart(QueueView::restore(rest), pending.last());
        law_submit_keeps_kinds_apart(QueueView::restore(rest), reloaded(pending.last()));
    }
}

impl JobStatus {
    /// The steps that a job's status takes: a pending job runs; a running
    /// job completes, fails or is to be retried; a job to be retried runs.
    /// A status may also stay as it is.
    pub open spec fn may_become(self, next: JobStatus) -> bool {
        ||| self == next
        ||| self == JobStatus::PENDING && next == JobStatus::RUNNING
        ||| self == JobStatus::RUNNING && (next == JobStatus::COMPLETED || next
            == JobStatus::FAILED || next == JobStatus::RETRYING)
        ||| self == JobStatus::RETRYING && next == JobStatus::RUNNING
    }
}

impl QueueView {
    /// Every job of this state is still registered in `next`, in a status
    /// that its status here may become.
    pub open spec fn steps_to(self, next: QueueView) -> bool {
        forall|id: u128| #[trigger]
            self.jobs.contains_key(id) ==> next.jobs.contains_key(id)
                && self.jobs[id].status.may_become(next.jobs[id].status)
    }
}

/// Dispatching from a consistent state moves no status but along its
/// steps: the job handed out was pending or to be retried, and runs.
pub proof fn law_dispatch_steps(s: QueueView, requester: u128)
    requires
        s.consistent(),
    ensures
        s.steps_to(s.dispatch(requester)),
{
    if s.front() is Some {
        lemma_front_waits(s);
        assert(s.is_pending(s.front()->0.id));
    }
}

/// A report on a job that runs, or on one that is not registered, moves no
/// status but along its steps; so does a retry of a job that runs.
pub proof fn law_report_steps(s: QueueView, id: u128, result: JobResultView)
    requires
        s.jobs.contains_key(id) ==> s.jobs[id].status == JobStatus::RUNNING,
    ensures
        s.steps_to(s.report(id, result)),
        s.steps_to(s.retry(id)),
{
}

/// Submitting under an id that is not registered moves no status.
pub proof fn law_submit_steps(s: QueueView, job: JobView)
    requires
        !s.jobs.contains_key(job.id),
    ensures
        s.steps_to(s.add_job(job)),
        s.steps_to(s.add_schedule(job)),
{
}

/// The schedule rule moves no status, where the job it makes comes under
/// an id that is not registered.
pub proof fn law_fire_steps(s: QueueView, id: u128, new_id: u128, now: Timestamp)
    requires
        s.fires(id, now) ==> !s.jobs.contains_key(new_id),
    ensures
        s.steps_to(s.fire(id, new_id, now)),
{
}

/// The liveness rule moves no status but along its steps, where it takes no
/// job back, or one whose record is pending already.
pub proof fn law_reap_steps(s: QueueView, worker_id: u128, now: Timestamp)
    requires
        s.workers.contains_key(worker_id) && is_stale(s.workers[worker_id], now) ==> (
        match s.reclaimed(worker_id) {
            Some(job_id) => s.jobs[job_id].status == JobStatus::PENDING,
            None => true,
        }),
    ensures
        s.steps_to(s.reap(worker_id, now)),
{
}

/// The record of a worker after the liveness rule was applied to it.
pub open spec fn reaped(worker: WorkerView, now: Timestamp) -> WorkerView {
    if is_stale(worker, now) {
        WorkerView { status: WorkerStatus::DEAD, current_job_id: None, ..worker }
    } else {
        worker
    }
}

/// After the liveness rule was applied along `order`, the workers are those
/// of before; each one named in `order` is as the rule leaves it, and every
/// other one is as it was.
pub proof fn lemma_sweep_workers(s: QueueView, order: Seq<u128>, now: Timestamp)
    ensures
        s.sweep(order, now).workers.dom() == s.workers.dom(),
        forall|w: u128| #[trigger]
            s.workers.contains_key(w) ==> s.sweep(order, now).workers[w] == if order.contains(w) {
                reaped(s.workers[w], now)
            } else {
                s.workers[w]
            },
    decreases order.len(),
{
    if order.len() > 0 {
        let rest = order.drop_last();
        let last = order.last();
        lemma_sweep_workers(s, rest, now);
        let before = s.sweep(rest, now);
        let after = s.sweep(order, now);
        assert(after == before.reap(last, now));
        assert(after.workers.dom() =~= before.workers.dom());
        assert forall|w: u128| #[trigger] s.workers.contains_key(w) implies after.workers[w]
            == if order.contains(w) {
            reaped(s.workers[w], now)
        } else {
            s.workers[w]
        } by {
            assert(order[order.len() - 1] == last);
            if w != last {
                if order.contains(w) {
                    let i = choose|i: int| 0 <= i < order.len() && order[i] == w;
                    assert(rest[i] == w);
                }
                if rest.contains(w) {
                    let i = choose|i: int| 0 <= i < rest.len() && rest[i] == w;
                    assert(order[i] == w);
                }
            }
        }
    }
}

/// After the liveness sweep over all workers, no worker that counts as
/// alive was last seen more than 60 seconds before `now`; and no dead
/// worker is noted as working on a job, where none was before.
pub proof fn law_sweep_leaves_no_stale_worker(s: QueueView, order: Seq<u128>, now: Timestamp)
    requires
        QueueView::walks(order, s.workers),
    ensures
        forall|w: u128| #[trigger]
            s.sweep(order, now).workers.contains_key(w) && s.sweep(order, now).workers[w].status
                == WorkerStatus::ALIVE ==> now.nanos_since(s.sweep(order, now).workers[w].last_seen)
                <= WORKER_TIMEOUT_NANOS,
        (forall|w: u128| #[trigger]
            s.workers.contains_key(w) && s.workers[w].status == WorkerStatus::DEAD
                ==> s.workers[w].current_job_id is None) ==> (forall|w: u128| #[trigger]
            s.sweep(order, now).workers.contains_key(w) && s.sweep(order, now).workers[w].status
                == WorkerStatus::DEAD ==> s.sweep(order, now).workers[w].current_job_id is None),
{
    lemma_sweep_workers(s, order, now);
    let t = s.sweep(order, now);
    assert forall|w: u128| #[trigger] t.workers.contains_key(w) implies order.contains(w) by {
        assert(s.workers.dom().contains(w));
        assert(order.to_set().contains(w));
    }
    assert forall|w: u128| #[trigger] t.workers.contains_key(w) implies s.workers.contains_key(w)
        && t.workers[w] == reaped(s.workers[w], now) by {
        assert(s.workers.dom().contains(w));
    }
}

/// What a selection holds: the jobs under the keys of the order that pass
/// the filter.
pub proof fn lemma_select_holds(
    m: Map<u128, JobView>,
    order: Seq<u128>,
    filter: Option<JobStatus>,
    job: JobView,
)
    ensures
        QueueView::select(m, order, filter).contains(job) <==> exists|i: int|
            0 <= i < order.len() && m.contains_key(#[trigger] order[i]) && m[order[i]] == job
                && QueueView::passes(job, filter),
    decreases order.len(),
{
    if order.len() > 0 {
        let rest = order.drop_last();
        let key = order.last();
        lemma_select_holds(m, rest, filter, job);
        let before = QueueView::select(m, rest, filter);
        let after = QueueView::select(m, order, filter);
        if after.contains(job) {
            if before.contains(job) {
                let i = choose|i: int|
                    0 <= i < rest.len() && m.contains_key(#[trigger] rest[i]) && m[rest[i]] == job
                        && QueueView::passes(job, filter);
                assert(order[i] == rest[i]);
            } else {
                let k = choose|k: int| 0 <= k < after.len() && after[k] == job;
                assert(m.contains_key(key) && QueueView::passes(m[key], filter));
                assert(after == before.push(m[key]));
                if k < before.len() {
                    assert(before[k] == job);
                }
                assert(order[order.len() - 1] == key);
            }
        }
        if exists|i: int|
            0 <= i < order.len() && m.contains_key(#[trigger] order[i]) && m[order[i]] == job
                && QueueView::passes(job, filter) {
            let i = choose|i: int|
                0 <= i < order.len() && m.contains_key(#[trigger] order[i]) && m[order[i]] == job
                    && QueueView::passes(job, filter);
            if i < rest.len() {
                assert(rest[i] == order[i]);
                let k = choose|k: int| 0 <= k < before.len() && before[k] == job;
                if m.contains_key(key) && QueueView::passes(m[key], filter) {
                    assert(after[k] == before[k]);
                }
            } else {
                assert(after == before.push(job));
                assert(after[after.len() - 1] == job);
            }
        }
    }
}

/// What a listing holds, whatever the order in which the registries were
/// walked: the jobs and templates that pass the filter.
pub proof fn lemma_listing_holds(
    s: QueueView,
    job_order: Seq<u128>,
    schedule_order: Seq<u128>,
    filter: Option<JobStatus>,
    job: JobView,
)
    requires
        QueueView::walks(job_order, s.jobs),
        QueueView::walks(schedule_order, s.schedules),
    ensures
        s.listing(job_order, schedule_order, filter).contains(job) <==> QueueView::passes(
            job,
            filter,
        ) && ((exists|id: u128| #[trigger] s.jobs.contains_key(id) && s.jobs[id] == job) || (
        exists|id: u128| #[trigger] s.schedules.contains_key(id) && s.schedules[id] == job)),
{
    let a = QueueView::select(s.jobs, job_order, filter);
    let b = QueueView::select(s.schedules, schedule_order, filter);
    lemma_select_holds(s.jobs, job_order, filter, job);
    lemma_select_holds(s.schedules, schedule_order, filter, job);
    if (a + b).contains(job) {
        let k = choose|k: int| 0 <= k < (a + b).len() && (a + b)[k] == job;
        if k < a.len() {
            assert(a[k] == job);
            let i = choose|i: int|
                0 <= i < job_order.len() && s.jobs.contains_key(#[trigger] job_order[i])
                    && s.jobs[job_order[i]] == job && QueueView::passes(job, filter);
            assert(s.jobs.contains_key(job_order[i]));
        } else {
            assert(b[k - a.len()] == job);
            let i = choose|i: int|
                0 <= i < schedule_order.len() && s.schedules.contains_key(
                    #[trigger] schedule_order[i],
                ) && s.schedules[schedule_order[i]] == job && QueueView::passes(job, filter);
            assert(s.schedules.contains_key(schedule_order[i]));
        }
    }
    if QueueView::passes(job, filter) {
        if exists|id: u128| #[trigger] s.jobs.contains_key(id) && s.jobs[id] == job {
            let id = choose|id: u128| #[trigger] s.jobs.contains_key(id) && s.jobs[id] == job;
            assert(s.jobs.dom().contains(id));
            assert(job_order.to_set().contains(id));
            let i = choose|i: int| 0 <= i < job_order.len() && job_order[i] == id;
            assert(s.jobs.contains_key(job_order[i]));
            let k = choose|k: int| 0 <= k < a.len() && a[k] == job;
            assert((a + b)[k] == job);
        } else if exists|id: u128| #[trigger]
            s.schedules.contains_key(id) && s.schedules[id] == job {
            let id = choose|id: u128| #[trigger]
                s.schedules.contains_key(id) && s.schedules[id] == job;
            assert(s.schedules.dom().contains(id));
            assert(schedule_order.to_set().contains(id));
            let i = choose|i: int| 0 <= i < schedule_order.len() && schedule_order[i] == id;
            assert(s.schedules.contains_key(schedule_order[i]));
            let k = choose|k: int| 0 <= k < b.len() && b[k] == job;
            assert((a + b)[a.len() + k] == job);
        }
    }
}

/// A listing by status holds exactly those jobs of the full listing that
/// are in the status, whatever the orders in which the two were made: it is
/// a part of the full listing, and what the full listing holds beyond it is
/// in another status.
pub proof fn law_listing_by_status(
    s: QueueView,
    job_order: Seq<u128>,
    schedule_order: Seq<u128>,
    full_job_order: Seq<u128>,
    full_schedule_order: Seq<u128>,
    status: JobStatus,
    job: JobView,
)
    requires
        QueueView::walks(job_order, s.jobs),
        QueueView::walks(schedule_order, s.schedules),
        QueueView::walks(full_job_order, s.jobs),
        QueueView::walks(full_schedule_order, s.schedules),
    ensures
        s.listing(job_order, schedule_order, Some(status)).contains(job) <==> s.listing(
            full_job_order,
            full_schedule_order,
            None,
        ).contains(job) && job.status == status,
{
    lemma_listing_holds(s, job_order, schedule_order, Some(status), job);
    lemma_listing_holds(s, full_job_order, full_schedule_order, None, job);
}

} // verus!
