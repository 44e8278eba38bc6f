//! The durable store as a mathematical value: what its table of jobs holds
//! after each write, and the proof that the writes which the operations ask
//! for keep it in step with the queue.

use vstd::prelude::*;
use crate::instant::Timestamp;
use crate::invariants::lemma_front_waits;
use crate::job::JobResultView;
use crate::job::JobStatus;
use crate::job::JobView;
use crate::model::QueueView;
use crate::model::is_stale;
use crate::model::materialized;
use crate::model::reloaded;
use crate::recovery::distinct_ids;
use crate::recovery::is_unfinished;
use crate::recovery::lemma_pending_in_order_lists;
use crate::recovery::pending_in_order;
use crate::invariants::law_restore_is_consistent;
use crate::store::StoreOpView;
use crate::store::assembled;
use crate::store::next_run_column;
use crate::store::no_schedule;
use crate::store::recurring_column;
use crate::store::schedule_column;

verus! {

/// A job as it is read back from the row that was written for it at the
/// time `now`, where each text in the row is read back as the value that
/// was written.
pub open spec fn at_rest(job: JobView, now: Timestamp) -> JobView {
    assembled(
        Some(job.id),
        job.command,
        Some(job.args),
        Some(job.status),
        Some(job.timestamp),
        job.retry_count,
        job.max_retries,
        Some(job.priority),
        schedule_column(job),
        recurring_column(job),
        Some(next_run_column(job, now)),
        job.parent_schedule_id,
    )->Ok_0
}

/// The job has no schedule at rest: it has none, or the text that stands
/// for none.
pub open spec fn is_plain(job: JobView) -> bool {
    job.schedule is None || job.schedule == Some(no_schedule())
}

/// `stored` is the job as it lies at rest. Id, command, arguments, status,
/// time of submission, retries, limit and priority are those of the job. A
/// job without a schedule lies without next run and parent, and as not
/// recurring. Any other job lies with its schedule and parent, as recurring
/// exactly if it is, and with a next run: its own, where it has one.
pub open spec fn rests_as(job: JobView, stored: JobView) -> bool {
    &&& stored.id == job.id
    &&& stored.command == job.command
    &&& stored.args == job.args
    &&& stored.status == job.status
    &&& stored.timestamp == job.timestamp
    &&& stored.retry_count == job.retry_count
    &&& stored.max_retries == job.max_retries
    &&& stored.priority == job.priority
    &&& stored.is_recurring == Some(!is_plain(job) && job.is_recurring == Some(true))
    &&& if is_plain(job) {
        &&& stored.schedule is None
        &&& stored.next_run is None
        &&& stored.parent_schedule_id is None
    } else {
        &&& stored.schedule == job.schedule
        &&& stored.parent_schedule_id == job.parent_schedule_id
        &&& stored.next_run is Some
        &&& job.next_run is Some ==> stored.next_run == job.next_run
    }
}

/// What is read back of a job lies as the job does.
pub proof fn lemma_at_rest(job: JobView, now: Timestamp)
    ensures
        rests_as(job, at_rest(job, now)),
{
}

/// The table of jobs after one write at the time `now`. A job is added
/// under its id, unless the id is taken. A status, a number of retries and
/// a next run are set in the row of the id, if there is one; a row without
/// a schedule is read back without a next run whatever was set. A result
/// leaves the table of jobs alone.
pub open spec fn applied(table: Map<u128, JobView>, op: StoreOpView, now: Timestamp) -> Map<
    u128,
    JobView,
> {
    match op {
        StoreOpView::InsertJob { job } => if table.contains_key(job.id) {
            table
        } else {
            table.insert(job.id, at_rest(job, now))
        },
        StoreOpView::InsertResult { job_id, result } => table,
        StoreOpView::UpdateStatus { job_id, status } => if table.contains_key(job_id) {
            table.insert(job_id, table[job_id].with_status(status))
        } else {
            table
        },
        StoreOpView::UpdateRetryCount { job_id, count } => if table.contains_key(job_id) {
            table.insert(job_id, JobView { retry_count: count, ..table[job_id] })
        } else {
            table
        },
        StoreOpView::UpdateNextRun { schedule_id, next_run } => if table.contains_key(schedule_id)
            && table[schedule_id].schedule is Some {
            table.insert(schedule_id, JobView { next_run: Some(next_run), ..table[schedule_id] })
        } else {
            table
        },
    }
}

/// The table of jobs after a list of writes, made in order at the time
/// `now`.
pub open spec fn applied_all(table: Map<u128, JobView>, ops: Seq<StoreOpView>, now: Timestamp) -> Map<
    u128,
    JobView,
>
    decreases ops.len(),
{
    if ops.len() == 0 {
        table
    } else {
        applied(applied_all(table, ops.drop_last(), now), ops.last(), now)
    }
}

/// Writes made one list after the other are the writes of both lists.
pub proof fn lemma_applied_concat(
    table: Map<u128, JobView>,
    a: Seq<StoreOpView>,
    b: Seq<StoreOpView>,
    now: Timestamp,
)
    ensures
        applied_all(table, a + b, now) == applied_all(applied_all(table, a, now), b, now),
    decreases b.len(),
{
    if b.len() == 0 {
        assert(a + b =~= a);
    } else {
        lemma_applied_concat(table, a, b.drop_last(), now);
        assert((a + b).drop_last() =~= a + b.drop_last());
        assert((a + b).last() == b.last());
    }
}

/// One write is a list of one.
pub proof fn lemma_applied_one(table: Map<u128, JobView>, op: StoreOpView, now: Timestamp)
    ensures
        applied_all(table, seq![op], now) == applied(table, op, now),
{
    assert(seq![op].drop_last() =~= Seq::<StoreOpView>::empty());
    assert(applied_all(table, Seq::<StoreOpView>::empty(), now) == table);
}

/// Two writes are a list of two.
pub proof fn lemma_applied_two(
    table: Map<u128, JobView>,
    first: StoreOpView,
    second: StoreOpView,
    now: Timestamp,
)
    ensures
        applied_all(table, seq![first, second], now) == applied(
            applied(table, first, now),
            second,
            now,
        ),
{
    assert(seq![first, second].drop_last() =~= seq![first]);
    lemma_applied_one(table, first, now);
}

impl QueueView {
    /// No id is that of a job and of a template at once.
    pub open spec fn ids_apart(self) -> bool {
        forall|id: u128| !(#[trigger] self.jobs.contains_key(id) && self.schedules.contains_key(id))
    }

    /// The table is in step with the queue: it has a row for every job and
    /// every template and no other, and each lies there as it is.
    pub open spec fn kept_in(self, table: Map<u128, JobView>) -> bool {
        &&& self.ids_apart()
        &&& forall|id: u128| #[trigger]
            table.contains_key(id) <==> self.jobs.contains_key(id) || self.schedules.contains_key(
                id,
            )
        &&& forall|id: u128| #[trigger]
            self.jobs.contains_key(id) ==> rests_as(self.jobs[id], table[id])
        &&& forall|id: u128| #[trigger]
            self.schedules.contains_key(id) ==> rests_as(self.schedules[id], table[id])
    }
}

/// A submission under an id that is not taken leaves the table in step
/// with the queue, once its row is written.
pub proof fn law_store_follows_submit(
    s: QueueView,
    table: Map<u128, JobView>,
    job: JobView,
    now: Timestamp,
)
    requires
        s.kept_in(table),
        !table.contains_key(job.id),
    ensures
        s.add_job(job).kept_in(applied_all(table, seq![StoreOpView::InsertJob { job }], now)),
        s.add_schedule(job).kept_in(applied_all(table, seq![StoreOpView::InsertJob { job }], now)),
{
    lemma_applied_one(table, StoreOpView::InsertJob { job }, now);
    lemma_at_rest(job, now);
    let after = applied(table, StoreOpView::InsertJob { job }, now);
    let t = s.add_job(job);
    let u = s.add_schedule(job);
    assert(!s.jobs.contains_key(job.id) && !s.schedules.contains_key(job.id));
    assert forall|id: u128| #[trigger] t.jobs.contains_key(id) implies rests_as(
        t.jobs[id],
        after[id],
    ) by {
        if id != job.id {
            assert(s.jobs.contains_key(id));
        }
    }
    assert forall|id: u128| #[trigger] t.schedules.contains_key(id) implies rests_as(
        t.schedules[id],
        after[id],
    ) by {
        assert(s.schedules.contains_key(id));
    }
    assert forall|id: u128| #[trigger] u.jobs.contains_key(id) implies rests_as(
        u.jobs[id],
        after[id],
    ) by {
        assert(s.jobs.contains_key(id));
    }
    assert forall|id: u128| #[trigger] u.schedules.contains_key(id) implies rests_as(
        u.schedules[id],
        after[id],
    ) by {
        if id != job.id {
            assert(s.schedules.contains_key(id));
        }
    }
}

/// A new status for a registered job leaves the table in step with the
/// queue, once it is written.
pub proof fn lemma_store_follows_status(
    s: QueueView,
    table: Map<u128, JobView>,
    id: u128,
    status: JobStatus,
    now: Timestamp,
)
    requires
        s.kept_in(table),
        s.jobs.contains_key(id),
    ensures
        s.set_status(id, status).kept_in(
            applied(table, StoreOpView::UpdateStatus { job_id: id, status }, now),
        ),
{
    let after = applied(table, StoreOpView::UpdateStatus { job_id: id, status }, now);
    let t = s.set_status(id, status);
    assert(table.contains_key(id));
    assert forall|k: u128| #[trigger] t.jobs.contains_key(k) implies rests_as(
        t.jobs[k],
        after[k],
    ) by {
        assert(s.jobs.contains_key(k));
    }
    assert forall|k: u128| #[trigger] t.schedules.contains_key(k) implies rests_as(
        t.schedules[k],
        after[k],
    ) by {
        assert(s.schedules.contains_key(k));
        assert(!s.jobs.contains_key(k));
    }
}

/// What changes neither jobs nor templates leaves the table in step with
/// the queue.
pub proof fn lemma_store_follows_frame(s: QueueView, t: QueueView, table: Map<u128, JobView>)
    requires
        s.kept_in(table),
        t.jobs == s.jobs,
        t.schedules == s.schedules,
    ensures
        t.kept_in(table),
{
    assert forall|k: u128| #[trigger] t.jobs.contains_key(k) implies rests_as(
        t.jobs[k],
        table[k],
    ) by {
        assert(s.jobs.contains_key(k));
    }
    assert forall|k: u128| #[trigger] t.schedules.contains_key(k) implies rests_as(
        t.schedules[k],
        table[k],
    ) by {
        assert(s.schedules.contains_key(k));
    }
    assert forall|id: u128| #[trigger]
        table.contains_key(id) <==> t.jobs.contains_key(id) || t.schedules.contains_key(id) by {
        assert(s.jobs.contains_key(id) == t.jobs.contains_key(id));
    }
    assert forall|id: u128|
        !(#[trigger] t.jobs.contains_key(id) && t.schedules.contains_key(id)) by {
        assert(s.jobs.contains_key(id) == t.jobs.contains_key(id));
    }
}

/// Giving a job a status leaves the table in step with the queue, once the
/// writes are made.
pub proof fn law_store_follows_status(
    s: QueueView,
    table: Map<u128, JobView>,
    id: u128,
    status: JobStatus,
    now: Timestamp,
)
    requires
        s.kept_in(table),
    ensures
        s.set_status(id, status).kept_in(applied_all(table, s.set_status_writes(id, status), now)),
{
    if s.jobs.contains_key(id) {
        lemma_applied_one(table, StoreOpView::UpdateStatus { job_id: id, status }, now);
        lemma_store_follows_status(s, table, id, status, now);
    }
}

/// Dispatching from a consistent state leaves the table in step with the
/// queue, once the writes are made.
pub proof fn law_store_follows_dispatch(
    s: QueueView,
    table: Map<u128, JobView>,
    requester: u128,
    now: Timestamp,
)
    requires
        s.kept_in(table),
        s.consistent(),
    ensures
        s.dispatch(requester).kept_in(applied_all(table, s.dispatch_writes(), now)),
{
    match s.front() {
        Some(job) => {
            lemma_front_waits(s);
            assert(s.is_pending(job.id));
            let popped = s.without_front();
            lemma_store_follows_frame(s, popped, table);
            lemma_store_follows_status(popped, table, job.id, JobStatus::RUNNING, now);
            let write = StoreOpView::UpdateStatus { job_id: job.id, status: JobStatus::RUNNING };
            lemma_applied_one(table, write, now);
            lemma_store_follows_frame(
                popped.set_status(job.id, JobStatus::RUNNING),
                s.dispatch(requester),
                applied(table, write, now),
            );
        },
        None => {},
    }
}

/// A retry leaves the table in step with the queue, once the writes are
/// made.
pub proof fn law_store_follows_retry(
    s: QueueView,
    table: Map<u128, JobView>,
    id: u128,
    now: Timestamp,
)
    requires
        s.kept_in(table),
    ensures
        s.retry(id).kept_in(applied_all(table, s.retry_writes(id), now)),
{
    if s.jobs.contains_key(id) {
        let job = QueueView::retried(s.jobs[id]);
        let first = StoreOpView::UpdateStatus { job_id: id, status: JobStatus::RETRYING };
        let second = StoreOpView::UpdateRetryCount { job_id: id, count: job.retry_count };
        lemma_applied_two(table, first, second, now);
        let after = applied(applied(table, first, now), second, now);
        let t = s.retry(id);
        assert(table.contains_key(id));
        assert forall|k: u128| #[trigger] t.jobs.contains_key(k) implies rests_as(
            t.jobs[k],
            after[k],
        ) by {
            assert(s.jobs.contains_key(k));
        }
        assert forall|k: u128| #[trigger] t.schedules.contains_key(k) implies rests_as(
            t.schedules[k],
            after[k],
        ) by {
            assert(s.schedules.contains_key(k));
            assert(!s.jobs.contains_key(k));
        }
    }
}

/// A report leaves the table in step with the queue, once the writes are
/// made.
pub proof fn law_store_follows_report(
    s: QueueView,
    table: Map<u128, JobView>,
    id: u128,
    result: JobResultView,
    now: Timestamp,
)
    requires
        s.kept_in(table),
    ensures
        s.report(id, result).kept_in(applied_all(table, s.report_writes(id, result), now)),
{
    if !s.jobs.contains_key(id) {
    } else if QueueView::wants_retry(s.jobs[id], result) {
        law_store_follows_retry(s, table, id, now);
    } else {
        let status = QueueView::outcome(result);
        let first = StoreOpView::InsertResult { job_id: id, result };
        let second = StoreOpView::UpdateStatus { job_id: id, status };
        lemma_applied_two(table, first, second, now);
        let kept = s.store_result(id, result);
        lemma_store_follows_frame(s, kept, table);
        lemma_store_follows_status(kept, table, id, status, now);
    }
}

/// The liveness rule for one worker leaves the table in step with the
/// queue, once the writes are made.
pub proof fn law_store_follows_reap(
    s: QueueView,
    table: Map<u128, JobView>,
    worker_id: u128,
    now: Timestamp,
)
    requires
        s.kept_in(table),
    ensures
        s.reap(worker_id, now).kept_in(applied_all(table, s.reap_writes(worker_id, now), now)),
{
    let t = s.reap(worker_id, now);
    if s.workers.contains_key(worker_id) && is_stale(s.workers[worker_id], now) {
        match s.reclaimed(worker_id) {
            Some(job_id) => {
                let write = StoreOpView::UpdateStatus { job_id, status: JobStatus::PENDING };
                lemma_applied_one(table, write, now);
                lemma_store_follows_status(s, table, job_id, JobStatus::PENDING, now);
                lemma_store_follows_frame(
                    s.set_status(job_id, JobStatus::PENDING),
                    t,
                    applied(table, write, now),
                );
            },
            None => {
                lemma_store_follows_frame(s, t, table);
            },
        }
    }
}

/// The liveness sweep leaves the table in step with the queue, once the
/// writes are made.
pub proof fn law_store_follows_sweep(
    s: QueueView,
    table: Map<u128, JobView>,
    order: Seq<u128>,
    now: Timestamp,
)
    requires
        s.kept_in(table),
    ensures
        s.sweep(order, now).kept_in(applied_all(table, s.sweep_writes(order, now), now)),
    decreases order.len(),
{
    if order.len() > 0 {
        let rest = order.drop_last();
        law_store_follows_sweep(s, table, rest, now);
        let before = applied_all(table, s.sweep_writes(rest, now), now);
        law_store_follows_reap(s.sweep(rest, now), before, order.last(), now);
        lemma_applied_concat(
            table,
            s.sweep_writes(rest, now),
            s.sweep(rest, now).reap_writes(order.last(), now),
            now,
        );
    }
}

impl QueueView {
    /// The id is that of no job and of no template.
    pub open spec fn is_unused(self, id: u128) -> bool {
        !self.jobs.contains_key(id) && !self.schedules.contains_key(id)
    }

    /// The schedule rule, applied along `order`, makes each job under an id
    /// that is not in use when the job is made.
    pub open spec fn fire_all_unused(self, order: Seq<u128>, ids: Seq<u128>, now: Timestamp) -> bool
        decreases order.len(),
    {
        if order.len() == 0 || ids.len() == 0 {
            true
        } else {
            let before = self.fire_all(order.drop_last(), ids.drop_last(), now);
            &&& self.fire_all_unused(order.drop_last(), ids.drop_last(), now)
            &&& before.fires(order.last(), now) ==> before.is_unused(ids.last())
        }
    }
}

/// The schedule rule for one template leaves the table in step with the
/// queue, once the writes are made, where the job it makes comes under an
/// id that is not in use.
pub proof fn law_store_follows_fire(
    s: QueueView,
    table: Map<u128, JobView>,
    id: u128,
    new_id: u128,
    now: Timestamp,
)
    requires
        s.kept_in(table),
        s.fires(id, now) ==> s.is_unused(new_id),
    ensures
        s.fire(id, new_id, now).kept_in(applied_all(table, s.fire_writes(id, new_id, now), now)),
{
    let made = materialized(s.schedules[id], new_id, now);
    let insert = if s.fires(id, now) {
        seq![StoreOpView::InsertJob { job: made }]
    } else {
        Seq::<StoreOpView>::empty()
    };
    let fired = if s.fires(id, now) {
        s.add_job(made)
    } else {
        s
    };
    let inserted = applied_all(table, insert, now);
    assert(fired.kept_in(inserted)) by {
        if s.fires(id, now) {
            law_store_follows_submit(s, table, made, now);
        }
    }
    match s.advance(id, now) {
        Some(next) => {
            let write = StoreOpView::UpdateNextRun { schedule_id: id, next_run: next };
            assert(insert.push(write) =~= insert + seq![write]);
            lemma_applied_concat(table, insert, seq![write], now);
            lemma_applied_one(inserted, write, now);
            let after = applied(inserted, write, now);
            let t = s.fire(id, new_id, now);
            assert(s.schedules.contains_key(id));
            assert(fired.schedules.contains_key(id));
            assert(inserted.contains_key(id));
            assert(rests_as(fired.schedules[id], inserted[id]));
            assert forall|k: u128| #[trigger] t.jobs.contains_key(k) implies rests_as(
                t.jobs[k],
                after[k],
            ) by {
                assert(fired.jobs.contains_key(k));
                assert(!fired.schedules.contains_key(k));
            }
            assert forall|k: u128| #[trigger] t.schedules.contains_key(k) implies rests_as(
                t.schedules[k],
                after[k],
            ) by {
                assert(fired.schedules.contains_key(k));
            }
            assert forall|k: u128| #[trigger]
                after.contains_key(k) <==> t.jobs.contains_key(k) || t.schedules.contains_key(
                    k,
                ) by {
                assert(inserted.contains_key(k) <==> fired.jobs.contains_key(k)
                    || fired.schedules.contains_key(k));
            }
            assert forall|k: u128|
                !(#[trigger] t.jobs.contains_key(k) && t.schedules.contains_key(k)) by {
                assert(!(fired.jobs.contains_key(k) && fired.schedules.contains_key(k)));
            }
        },
        None => {},
    }
}

/// The schedule sweep leaves the table in step with the queue, once the
/// writes are made, where every job it makes comes under an id that is not
/// in use.
pub proof fn law_store_follows_fire_all(
    s: QueueView,
    table: Map<u128, JobView>,
    order: Seq<u128>,
    ids: Seq<u128>,
    now: Timestamp,
)
    requires
        s.kept_in(table),
        s.fire_all_unused(order, ids, now),
    ensures
        s.fire_all(order, ids, now).kept_in(
            applied_all(table, s.fire_all_writes(order, ids, now), now),
        ),
    decreases order.len(),
{
    if order.len() > 0 && ids.len() > 0 {
        let rest = order.drop_last();
        let rest_ids = ids.drop_last();
        law_store_follows_fire_all(s, table, rest, rest_ids, now);
        let before = applied_all(table, s.fire_all_writes(rest, rest_ids, now), now);
        law_store_follows_fire(s.fire_all(rest, rest_ids, now), before, order.last(), ids.last(), now);
        lemma_applied_concat(
            table,
            s.fire_all_writes(rest, rest_ids, now),
            s.fire_all(rest, rest_ids, now).fire_writes(order.last(), ids.last(), now),
            now,
        );
    }
}

/// What start-up makes of a list of jobs without an id twice: each
/// template is kept as it is, every other job is registered as reloaded,
/// each under its id, and nothing else is.
pub proof fn lemma_restore_content(list: Seq<JobView>)
    requires
        distinct_ids(list),
    ensures
        forall|i: int|
            0 <= i < list.len() ==> if (#[trigger] list[i]).is_recurring == Some(true) {
                QueueView::restore(list).schedules.contains_key(list[i].id) && QueueView::restore(
                    list,
                ).schedules[list[i].id] == list[i]
            } else {
                QueueView::restore(list).jobs.contains_key(list[i].id) && QueueView::restore(
                    list,
                ).jobs[list[i].id] == reloaded(list[i])
            },
        forall|id: u128| #[trigger]
            QueueView::restore(list).jobs.contains_key(id) ==> exists|i: int|
                0 <= i < list.len() && (#[trigger] list[i]).id == id && list[i].is_recurring
                    != Some(true),
        forall|id: u128| #[trigger]
            QueueView::restore(list).schedules.contains_key(id) ==> exists|i: int|
                0 <= i < list.len() && (#[trigger] list[i]).id == id && list[i].is_recurring
                    == Some(true),
    decreases list.len(),
{
    if list.len() > 0 {
        let rest = list.drop_last();
        let last = list.last();
        assert(distinct_ids(rest)) by {
            assert forall|i: int, j: int| 0 <= i < j < rest.len() implies (#[trigger] rest[i]).id
                != (#[trigger] rest[j]).id by {
                assert(list[i] == rest[i] && list[j] == rest[j]);
            }
        }
        lemma_restore_content(rest);
        let before = QueueView::restore(rest);
        let after = QueueView::restore(list);
        assert(after == before.load(last));
        assert(list[list.len() - 1] == last);
        assert forall|i: int| 0 <= i < list.len() implies if (#[trigger] list[i]).is_recurring
            == Some(true) {
            after.schedules.contains_key(list[i].id) && after.schedules[list[i].id] == list[i]
        } else {
            after.jobs.contains_key(list[i].id) && after.jobs[list[i].id] == reloaded(list[i])
        } by {
            if i < rest.len() {
                assert(rest[i] == list[i]);
                assert(list[i].id != list[list.len() - 1].id);
            }
        }
        assert forall|id: u128| #[trigger] after.jobs.contains_key(id) implies exists|i: int|
            0 <= i < list.len() && (#[trigger] list[i]).id == id && list[i].is_recurring != Some(
                true,
            ) by {
            if before.jobs.contains_key(id) {
                let i = choose|i: int|
                    0 <= i < rest.len() && (#[trigger] rest[i]).id == id && rest[i].is_recurring
                        != Some(true);
                assert(list[i] == rest[i]);
            } else {
                assert(list[list.len() - 1].id == id);
            }
        }
        assert forall|id: u128| #[trigger] after.schedules.contains_key(id) implies exists|i: int|
            0 <= i < list.len() && (#[trigger] list[i]).id == id && list[i].is_recurring == Some(
                true,
            ) by {
            if before.schedules.contains_key(id) {
                let i = choose|i: int|
                    0 <= i < rest.len() && (#[trigger] rest[i]).id == id && rest[i].is_recurring
                        == Some(true);
                assert(list[i] == rest[i]);
            } else {
                assert(list[list.len() - 1].id == id);
            }
        }
    }
}

/// The rows list the table: each row of the table once, and nothing else.
pub open spec fn lists_table(rows: Seq<JobView>, table: Map<u128, JobView>) -> bool {
    &&& distinct_ids(rows)
    &&& forall|i: int|
        0 <= i < rows.len() ==> table.contains_key((#[trigger] rows[i]).id) && table[rows[i].id]
            == rows[i]
    &&& forall|id: u128| #[trigger] table.contains_key(id) ==> rows.contains(table[id])
}

/// Stopping and starting again. Where the table is in step with the queue
/// when the coordinator stops, the queue that start-up makes of the rows
/// of the table is consistent and holds exactly the jobs and templates that
/// were pending or running: each concrete job registered as it lies at
/// rest, one that was running as pending again, and each template with a
/// schedule kept as it lies at rest.
pub proof fn law_reload(s: QueueView, table: Map<u128, JobView>, rows: Seq<JobView>)
    requires
        s.keyed(),
        s.kept_in(table),
        lists_table(rows, table),
    ensures
        QueueView::restore(pending_in_order(rows)).consistent(),
        forall|id: u128|
            !(#[trigger] QueueView::restore(pending_in_order(rows)).is_unused(id)) <==> (
            s.jobs.contains_key(id) && is_unfinished(s.jobs[id])) || (s.schedules.contains_key(id)
                && is_unfinished(s.schedules[id])),
        forall|id: u128| #[trigger]
            s.jobs.contains_key(id) && is_unfinished(s.jobs[id]) && s.jobs[id].is_concrete()
                ==> QueueView::restore(pending_in_order(rows)).jobs.contains_key(id) && rests_as(
                reloaded(s.jobs[id]),
                QueueView::restore(pending_in_order(rows)).jobs[id],
            ),
        forall|id: u128| #[trigger]
            s.schedules.contains_key(id) && is_unfinished(s.schedules[id])
                && s.schedules[id].is_template() && !is_plain(s.schedules[id])
                ==> QueueView::restore(pending_in_order(rows)).schedules.contains_key(id)
                && rests_as(
                s.schedules[id],
                QueueView::restore(pending_in_order(rows)).schedules[id],
            ),
{
    let list = pending_in_order(rows);
    let r = QueueView::restore(list);
    lemma_pending_in_order_lists(rows);
    lemma_restore_content(list);
    assert(QueueView::loads_cleanly(list)) by {
        assert forall|i: int|
            0 <= i < list.len() && (#[trigger] list[i]).is_recurring != Some(
                true,
            ) implies reloaded(list[i]).status.is_pending() by {
            assert(list.contains(list[i]));
        }
    }
    law_restore_is_consistent(list);
    // What the table holds under an id is what the queue holds under it.
    assert forall|id: u128| #[trigger] table.contains_key(id) implies table[id].id == id by {
        if s.jobs.contains_key(id) {
            assert(rests_as(s.jobs[id], table[id]));
        } else {
            assert(s.schedules.contains_key(id));
            assert(rests_as(s.schedules[id], table[id]));
        }
    }
    // A row of the table that was pending or running is taken up again.
    assert forall|id: u128| #[trigger] table.contains_key(id) && is_unfinished(
        table[id],
    ) implies exists|i: int| 0 <= i < list.len() && list[i] == table[id] by {
        assert(rows.contains(table[id]));
        assert(list.contains(table[id]));
    }
    // What is taken up again is a row of the table.
    assert forall|i: int| 0 <= i < list.len() implies table.contains_key(
        (#[trigger] list[i]).id,
    ) && table[list[i].id] == list[i] && is_unfinished(list[i]) by {
        assert(list.contains(list[i]));
        assert(rows.contains(list[i]));
        let k = choose|k: int| 0 <= k < rows.len() && rows[k] == list[i];
        assert(table.contains_key(rows[k].id));
    }
    assert forall|id: u128| !(#[trigger] r.is_unused(id)) <==> (s.jobs.contains_key(id)
        && is_unfinished(s.jobs[id])) || (s.schedules.contains_key(id) && is_unfinished(
        s.schedules[id],
    )) by {
        if !r.is_unused(id) {
            if r.jobs.contains_key(id) {
                let i = choose|i: int|
                    0 <= i < list.len() && (#[trigger] list[i]).id == id && list[i].is_recurring
                        != Some(true);
                assert(table.contains_key(list[i].id) && table[list[i].id] == list[i]);
            } else {
                let i = choose|i: int|
                    0 <= i < list.len() && (#[trigger] list[i]).id == id && list[i].is_recurring
                        == Some(true);
                assert(table.contains_key(list[i].id) && table[list[i].id] == list[i]);
            }
            assert(table.contains_key(id) && is_unfinished(table[id]));
            if s.jobs.contains_key(id) {
                assert(rests_as(s.jobs[id], table[id]));
            } else {
                assert(s.schedules.contains_key(id));
                assert(rests_as(s.schedules[id], table[id]));
            }
        }
        if (s.jobs.contains_key(id) && is_unfinished(s.jobs[id])) || (s.schedules.contains_key(id)
            && is_unfinished(s.schedules[id])) {
            assert(table.contains_key(id));
            if s.jobs.contains_key(id) {
                assert(rests_as(s.jobs[id], table[id]));
            } else {
                assert(rests_as(s.schedules[id], table[id]));
            }
            assert(is_unfinished(table[id]));
            let i = choose|i: int| 0 <= i < list.len() && list[i] == table[id];
            assert(list[i].id == id);
        }
    }
    assert forall|id: u128| #[trigger]
        s.jobs.contains_key(id) && is_unfinished(s.jobs[id])
            && s.jobs[id].is_concrete() implies r.jobs.contains_key(id) && rests_as(
        reloaded(s.jobs[id]),
        r.jobs[id],
    ) by {
        assert(table.contains_key(id));
        assert(rests_as(s.jobs[id], table[id]));
        let i = choose|i: int| 0 <= i < list.len() && list[i] == table[id];
        assert(list[i].id == id);
        assert(list[i].is_recurring != Some(true));
    }
    assert forall|id: u128| #[trigger]
        s.schedules.contains_key(id) && is_unfinished(s.schedules[id])
            && s.schedules[id].is_template() && !is_plain(
            s.schedules[id],
        ) implies r.schedules.contains_key(id) && rests_as(s.schedules[id], r.schedules[id]) by {
        assert(table.contains_key(id));
        assert(!s.jobs.contains_key(id));
        assert(rests_as(s.schedules[id], table[id]));
        let i = choose|i: int| 0 <= i < list.len() && list[i] == table[id];
        assert(list[i].id == id);
        assert(list[i].is_recurring == Some(true));
    }
}

} // verus!
