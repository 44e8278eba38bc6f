//! The coordinator's state as a mathematical value, and each operation as a
//! function from state to state.

use vstd::prelude::*;
use crate::instant::Timestamp;
use crate::job::JobResultView;
use crate::job::JobStatus;
use crate::job::JobView;
use crate::job::Priority;
use crate::message::JobStatusView;
use crate::message::WorkerStatus;
use crate::message::WorkerView;
use crate::schedule::next_run;
use crate::store::StoreOpView;

verus! {

/// A worker that has not been heard of for longer than this is taken to be
/// dead: 60 seconds, in nanoseconds.
pub const WORKER_TIMEOUT_NANOS: i128 = 60_000_000_000;

/// A schedule fires when its next run lies no further than this from the
/// present, before or after: 30 seconds, in nanoseconds.
pub const FIRING_WINDOW_NANOS: i128 = 30_000_000_000;

/// The worker counts as alive and was last heard of more than 60 seconds
/// before `now`.
pub open spec fn is_stale(worker: WorkerView, now: Timestamp) -> bool {
    worker.status == WorkerStatus::ALIVE && now.nanos_since(worker.last_seen)
        > WORKER_TIMEOUT_NANOS
}

/// The run at `at` lies in the closed window of 30 seconds around `now`.
pub open spec fn is_due(at: Timestamp, now: Timestamp) -> bool {
    -FIRING_WINDOW_NANOS <= at.nanos_since(now) <= FIRING_WINDOW_NANOS
}

/// A job as it is taken from the store at start-up: one that was running
/// waits again.
pub open spec fn reloaded(job: JobView) -> JobView {
    if job.status == JobStatus::RUNNING {
        job.with_status(JobStatus::PENDING)
    } else {
        job
    }
}

/// The concrete job that the template makes when it fires at `now`.
pub open spec fn materialized(template: JobView, new_id: u128, now: Timestamp) -> JobView {
    JobView {
        id: new_id,
        command: template.command,
        args: template.args,
        status: JobStatus::PENDING,
        timestamp: now,
        retry_count: 0,
        max_retries: template.max_retries,
        priority: template.priority,
        schedule: None,
        next_run: None,
        is_recurring: None,
        parent_schedule_id: Some(template.id),
    }
}

/// The state of the coordinator's queue.
pub struct QueueView {
    /// Every concrete job ever submitted, by id.
    pub jobs: Map<u128, JobView>,
    /// Every schedule template, by id.
    pub schedules: Map<u128, JobView>,
    /// The last result of each job that reached an outcome, by job id.
    pub results: Map<u128, JobResultView>,
    /// The jobs that wait, first in first out, one queue for each priority.
    pub pending_high: Seq<JobView>,
    pub pending_medium: Seq<JobView>,
    pub pending_low: Seq<JobView>,
    /// Every worker that registered, by id.
    pub workers: Map<u128, WorkerView>,
}

impl QueueView {
    /// The state in which nothing is known.
    pub open spec fn empty() -> QueueView {
        QueueView {
            jobs: Map::empty(),
            schedules: Map::empty(),
            results: Map::empty(),
            pending_high: Seq::empty(),
            pending_medium: Seq::empty(),
            pending_low: Seq::empty(),
            workers: Map::empty(),
        }
    }

    /// The queue of one priority.
    pub open spec fn pending(self, priority: Priority) -> Seq<JobView> {
        match priority {
            Priority::HIGH => self.pending_high,
            Priority::MEDIUM => self.pending_medium,
            Priority::LOW => self.pending_low,
        }
    }

    /// All that waits, in the order of dispatch: the high queue, then the
    /// medium one, then the low one.
    pub open spec fn waiting(self) -> Seq<JobView> {
        self.pending_high + self.pending_medium + self.pending_low
    }

    /// The job joins the tail of the queue of its priority.
    pub open spec fn enqueue(self, job: JobView) -> QueueView {
        match job.priority {
            Priority::HIGH => QueueView { pending_high: self.pending_high.push(job), ..self },
            Priority::MEDIUM => QueueView {
                pending_medium: self.pending_medium.push(job),
                ..self
            },
            Priority::LOW => QueueView { pending_low: self.pending_low.push(job), ..self },
        }
    }

    /// A concrete job is submitted: it is registered and waits.
    pub open spec fn add_job(self, job: JobView) -> QueueView {
        QueueView { jobs: self.jobs.insert(job.id, job), ..self }.enqueue(job)
    }

    /// A schedule template is submitted: it is kept, and does not wait.
    pub open spec fn add_schedule(self, job: JobView) -> QueueView {
        QueueView { schedules: self.schedules.insert(job.id, job), ..self }
    }

    /// The job that is dispatched next, if any waits.
    pub open spec fn front(self) -> Option<JobView> {
        if self.pending_high.len() > 0 {
            Some(self.pending_high[0])
        } else if self.pending_medium.len() > 0 {
            Some(self.pending_medium[0])
        } else if self.pending_low.len() > 0 {
            Some(self.pending_low[0])
        } else {
            None
        }
    }

    /// The state without the job that is dispatched next.
    pub open spec fn without_front(self) -> QueueView {
        if self.pending_high.len() > 0 {
            QueueView { pending_high: self.pending_high.drop_first(), ..self }
        } else if self.pending_medium.len() > 0 {
            QueueView { pending_medium: self.pending_medium.drop_first(), ..self }
        } else if self.pending_low.len() > 0 {
            QueueView { pending_low: self.pending_low.drop_first(), ..self }
        } else {
            self
        }
    }

    /// The registered job `id` takes the given status; an unknown id changes
    /// nothing.
    pub open spec fn set_status(self, id: u128, status: JobStatus) -> QueueView {
        if self.jobs.contains_key(id) {
            QueueView { jobs: self.jobs.insert(id, self.jobs[id].with_status(status)), ..self }
        } else {
            self
        }
    }

    /// The writes that go with [`Self::set_status`].
    pub open spec fn set_status_writes(self, id: u128, status: JobStatus) -> Seq<StoreOpView> {
        if self.jobs.contains_key(id) {
            seq![StoreOpView::UpdateStatus { job_id: id, status }]
        } else {
            Seq::empty()
        }
    }

    /// The worker, if it is known, is noted as working on the job.
    pub open spec fn assign(self, worker_id: u128, job_id: u128) -> QueueView {
        if self.workers.contains_key(worker_id) {
            QueueView {
                workers: self.workers.insert(
                    worker_id,
                    WorkerView { current_job_id: Some(job_id), ..self.workers[worker_id] },
                ),
                ..self
            }
        } else {
            self
        }
    }

    /// A worker asks for work: the next job leaves its queue, its record
    /// runs, and the worker is noted as working on it.
    pub open spec fn dispatch(self, requester: u128) -> QueueView {
        match self.front() {
            Some(job) => self.without_front().set_status(job.id, JobStatus::RUNNING).assign(
                requester,
                job.id,
            ),
            None => self,
        }
    }

    /// The writes that go with [`Self::dispatch`].
    pub open spec fn dispatch_writes(self) -> Seq<StoreOpView> {
        match self.front() {
            Some(job) => seq![
                StoreOpView::UpdateStatus { job_id: job.id, status: JobStatus::RUNNING },
            ],
            None => Seq::empty(),
        }
    }

    /// The job or schedule template with the given id: a job first.
    pub open spec fn lookup(self, id: u128) -> Option<JobView> {
        if self.jobs.contains_key(id) {
            Some(self.jobs[id])
        } else if self.schedules.contains_key(id) {
            Some(self.schedules[id])
        } else {
            None
        }
    }

    /// The result kept for a job, if one is.
    pub open spec fn result_of(self, id: u128) -> Option<JobResultView> {
        if self.results.contains_key(id) {
            Some(self.results[id])
        } else {
            None
        }
    }

    /// What is known of the given id: the job and its result.
    pub open spec fn status_of(self, id: u128) -> Option<JobStatusView> {
        match self.lookup(id) {
            Some(job) => Some(JobStatusView { job, result: self.result_of(id) }),
            None => None,
        }
    }

    /// The record of a job after one more retry.
    pub open spec fn retried(job: JobView) -> JobView {
        JobView {
            status: JobStatus::RETRYING,
            retry_count: (job.retry_count + 1) as u32,
            ..job
        }
    }

    /// The registered job `id` is tried again: one retry more, and it waits
    /// at the tail of its queue. An unknown id changes nothing.
    pub open spec fn retry(self, id: u128) -> QueueView {
        if self.jobs.contains_key(id) {
            let job = Self::retried(self.jobs[id]);
            QueueView { jobs: self.jobs.insert(id, job), ..self }.enqueue(job)
        } else {
            self
        }
    }

    /// The writes that go with [`Self::retry`].
    pub open spec fn retry_writes(self, id: u128) -> Seq<StoreOpView> {
        if self.jobs.contains_key(id) {
            seq![
                StoreOpView::UpdateStatus { job_id: id, status: JobStatus::RETRYING },
                StoreOpView::UpdateRetryCount {
                    job_id: id,
                    count: Self::retried(self.jobs[id]).retry_count,
                },
            ]
        } else {
            Seq::empty()
        }
    }

    /// The result is kept for the job, in place of an earlier one.
    pub open spec fn store_result(self, id: u128, result: JobResultView) -> QueueView {
        QueueView { results: self.results.insert(id, result), ..self }
    }

    /// The status that a final result gives a job.
    pub open spec fn outcome(result: JobResultView) -> JobStatus {
        if result.exitcode == 0 {
            JobStatus::COMPLETED
        } else {
            JobStatus::FAILED
        }
    }

    /// Whether a report of this result has the job tried again.
    pub open spec fn wants_retry(job: JobView, result: JobResultView) -> bool {
        result.exitcode != 0 && job.retry_count < job.max_retries
    }

    /// A worker reports the result of job `id`. A report for a job that is
    /// not registered is ignored. A failure with retries left has the job
    /// tried again, and keeps no result. Any other report is final: the
    /// result is kept and the job completes or fails. The status of the job
    /// does not matter.
    pub open spec fn report(self, id: u128, result: JobResultView) -> QueueView {
        if !self.jobs.contains_key(id) {
            self
        } else if Self::wants_retry(self.jobs[id], result) {
            self.retry(id)
        } else {
            self.store_result(id, result).set_status(id, Self::outcome(result))
        }
    }

    /// The writes that go with [`Self::report`].
    pub open spec fn report_writes(self, id: u128, result: JobResultView) -> Seq<StoreOpView> {
        if !self.jobs.contains_key(id) {
            Seq::empty()
        } else if Self::wants_retry(self.jobs[id], result) {
            self.retry_writes(id)
        } else {
            seq![
                StoreOpView::InsertResult { job_id: id, result },
                StoreOpView::UpdateStatus { job_id: id, status: Self::outcome(result) },
            ]
        }
    }

    /// A worker registers at the time `now`: its record stands in place of
    /// an earlier one with its id, as alive and seen now.
    pub open spec fn register(self, info: WorkerView, now: Timestamp) -> QueueView {
        QueueView {
            workers: self.workers.insert(
                info.worker_id,
                WorkerView { last_seen: now, status: WorkerStatus::ALIVE, ..info },
            ),
            ..self
        }
    }

    /// A known worker was heard of at `at`: it is alive. An unknown worker
    /// changes nothing.
    pub open spec fn heartbeat(self, worker_id: u128, at: Timestamp) -> QueueView {
        if self.workers.contains_key(worker_id) {
            QueueView {
                workers: self.workers.insert(
                    worker_id,
                    WorkerView {
                        last_seen: at,
                        status: WorkerStatus::ALIVE,
                        ..self.workers[worker_id]
                    },
                ),
                ..self
            }
        } else {
            self
        }
    }

    /// The job that is taken back when the worker is declared dead: the one
    /// it was noted as working on, if that job is registered.
    pub open spec fn reclaimed(self, worker_id: u128) -> Option<u128> {
        match self.workers[worker_id].current_job_id {
            Some(job_id) => if self.jobs.contains_key(job_id) {
                Some(job_id)
            } else {
                None
            },
            None => None,
        }
    }

    /// The liveness rule for one worker. A stale worker is dead and works on
    /// nothing; the job it was working on, if registered, joins the tail of
    /// its queue as its record stood, and the record waits again. Any other
    /// worker, or an unknown one, changes nothing.
    pub open spec fn reap(self, worker_id: u128, now: Timestamp) -> QueueView {
        if self.workers.contains_key(worker_id) && is_stale(self.workers[worker_id], now) {
            let dead = QueueView {
                workers: self.workers.insert(
                    worker_id,
                    WorkerView {
                        status: WorkerStatus::DEAD,
                        current_job_id: None,
                        ..self.workers[worker_id]
                    },
                ),
                ..self
            };
            match self.reclaimed(worker_id) {
                Some(job_id) => dead.enqueue(self.jobs[job_id]).set_status(
                    job_id,
                    JobStatus::PENDING,
                ),
                None => dead,
            }
        } else {
            self
        }
    }

    /// The writes that go with [`Self::reap`].
    pub open spec fn reap_writes(self, worker_id: u128, now: Timestamp) -> Seq<StoreOpView> {
        if self.workers.contains_key(worker_id) && is_stale(self.workers[worker_id], now) {
            match self.reclaimed(worker_id) {
                Some(job_id) => seq![
                    StoreOpView::UpdateStatus { job_id, status: JobStatus::PENDING },
                ],
                None => Seq::empty(),
            }
        } else {
            Seq::empty()
        }
    }

    /// The liveness rule for the workers in `order`, one after the other.
    pub open spec fn sweep(self, order: Seq<u128>, now: Timestamp) -> QueueView
        decreases order.len(),
    {
        if order.len() == 0 {
            self
        } else {
            self.sweep(order.drop_last(), now).reap(order.last(), now)
        }
    }

    /// The writes that go with [`Self::sweep`].
    pub open spec fn sweep_writes(self, order: Seq<u128>, now: Timestamp) -> Seq<StoreOpView>
        decreases order.len(),
    {
        if order.len() == 0 {
            Seq::empty()
        } else {
            self.sweep_writes(order.drop_last(), now) + self.sweep(order.drop_last(), now).reap_writes(
                order.last(),
                now,
            )
        }
    }

    /// Whether the template `id` fires at `now`: it has a next run, and that
    /// lies in the window around `now`.
    pub open spec fn fires(self, id: u128, now: Timestamp) -> bool {
        &&& self.schedules.contains_key(id)
        &&& self.schedules[id].next_run is Some
        &&& is_due(self.schedules[id].next_run->0, now)
    }

    /// The run to which the template `id` advances at `now`, if it does: it
    /// has a next run, is recurring, and its expression fires again.
    pub open spec fn advance(self, id: u128, now: Timestamp) -> Option<Timestamp> {
        if self.schedules.contains_key(id) && self.schedules[id].next_run is Some
            && self.schedules[id].is_recurring == Some(true) && self.schedules[id].schedule
            is Some {
            next_run(self.schedules[id].schedule->0, now)
        } else {
            None
        }
    }

    /// The schedule rule for one template. Where it fires, the job it makes
    /// is submitted under `new_id`. Where it advances, its next run is the
    /// next firing after `now`, whether or not it fired.
    pub open spec fn fire(self, id: u128, new_id: u128, now: Timestamp) -> QueueView {
        let fired = if self.fires(id, now) {
            self.add_job(materialized(self.schedules[id], new_id, now))
        } else {
            self
        };
        match self.advance(id, now) {
            Some(next) => QueueView {
                schedules: fired.schedules.insert(
                    id,
                    JobView { next_run: Some(next), ..self.schedules[id] },
                ),
                ..fired
            },
            None => fired,
        }
    }

    /// The writes that go with [`Self::fire`].
    pub open spec fn fire_writes(self, id: u128, new_id: u128, now: Timestamp) -> Seq<
        StoreOpView,
    > {
        let insert = if self.fires(id, now) {
            seq![StoreOpView::InsertJob { job: materialized(self.schedules[id], new_id, now) }]
        } else {
            Seq::empty()
        };
        match self.advance(id, now) {
            Some(next) => insert.push(StoreOpView::UpdateNextRun { schedule_id: id, next_run: next }),
            None => insert,
        }
    }

    /// The schedule rule for the templates in `order`, one after the other,
    /// the job of the `i`-th made under `ids[i]`.
    pub open spec fn fire_all(self, order: Seq<u128>, ids: Seq<u128>, now: Timestamp) -> QueueView
        recommends
            order.len() == ids.len(),
        decreases order.len(),
    {
        if order.len() == 0 || ids.len() == 0 {
            self
        } else {
            self.fire_all(order.drop_last(), ids.drop_last(), now).fire(
                order.last(),
                ids.last(),
                now,
            )
        }
    }

    /// The writes that go with [`Self::fire_all`].
    pub open spec fn fire_all_writes(
        self,
        order: Seq<u128>,
        ids: Seq<u128>,
        now: Timestamp,
    ) -> Seq<StoreOpView>
        recommends
            order.len() == ids.len(),
        decreases order.len(),
    {
        if order.len() == 0 || ids.len() == 0 {
            Seq::empty()
        } else {
            self.fire_all_writes(order.drop_last(), ids.drop_last(), now) + self.fire_all(
                order.drop_last(),
                ids.drop_last(),
                now,
            ).fire_writes(order.last(), ids.last(), now)
        }
    }

    /// Whether a job passes the filter of a listing: any job passes none,
    /// and a status lets the jobs in that status pass.
    pub open spec fn passes(job: JobView, filter: Option<JobStatus>) -> bool {
        filter is None || filter == Some(job.status)
    }

    /// The jobs of `m` under the keys of `order`, in that order, that pass
    /// the filter.
    pub open spec fn select(
        m: Map<u128, JobView>,
        order: Seq<u128>,
        filter: Option<JobStatus>,
    ) -> Seq<JobView>
        decreases order.len(),
    {
        if order.len() == 0 {
            Seq::empty()
        } else {
            let rest = Self::select(m, order.drop_last(), filter);
            let key = order.last();
            if m.contains_key(key) && Self::passes(m[key], filter) {
                rest.push(m[key])
            } else {
                rest
            }
        }
    }

    /// A listing: the jobs that pass the filter, then the schedule
    /// templates that do, each group in the order of its keys.
    pub open spec fn listing(
        self,
        job_order: Seq<u128>,
        schedule_order: Seq<u128>,
        filter: Option<JobStatus>,
    ) -> Seq<JobView> {
        Self::select(self.jobs, job_order, filter) + Self::select(
            self.schedules,
            schedule_order,
            filter,
        )
    }

    /// The order names each key of the map once.
    pub open spec fn walks<V>(order: Seq<u128>, m: Map<u128, V>) -> bool {
        order.no_duplicates() && order.to_set() == m.dom()
    }

    /// One job is taken from the store at start-up: a template is kept, any
    /// other job is registered and waits.
    pub open spec fn load(self, job: JobView) -> QueueView {
        if job.is_recurring == Some(true) {
            self.add_schedule(job)
        } else {
            self.add_job(reloaded(job))
        }
    }

    /// The state at start-up, from the jobs that the store holds as pending
    /// or running, in its order.
    pub open spec fn restore(pending: Seq<JobView>) -> QueueView
        decreases pending.len(),
    {
        if pending.len() == 0 {
            Self::empty()
        } else {
            Self::restore(pending.drop_last()).load(pending.last())
        }
    }
}

} // verus!
