//! The coordinator's queue: the registry of jobs, the three priority queues,
//! the schedule templates, the results and the workers.

use vstd::prelude::*;
use std::collections::HashMap;
use std::collections::VecDeque;
use vstd::std_specs::hash::spec_keys_iter;
use vstd::std_specs::iter::IteratorSpec;
use crate::ident::random_id;
use crate::instant::Timestamp;
use crate::instant::clock_now;
use crate::job::Job;
use crate::job::clone_strings;
use crate::job::JobResult;
use crate::job::JobResultView;
use crate::job::JobStatus;
use crate::job::JobView;
use crate::job::Priority;
use crate::message::GetJobStatusResponse;
use crate::message::JobStatusView;
use crate::message::WorkerHeartbeat;
use crate::message::WorkerInfo;
use crate::message::WorkerStatus;
use crate::message::WorkerView;
use crate::invariants::law_dispatch_keeps_consistency;
use crate::invariants::law_restore_is_consistent;
use crate::invariants::law_retries_stay_bounded;
use crate::invariants::law_sweep_leaves_no_stale_worker;
use crate::model::FIRING_WINDOW_NANOS;
use crate::model::QueueView;
use crate::model::WORKER_TIMEOUT_NANOS;
use crate::model::materialized;
use crate::schedule::next_run_after;
use crate::store::StoreOp;
use crate::store::StoreOpView;
use crate::store::ops_view;

verus! {

broadcast use vstd::std_specs::hash::group_hash_axioms;

/// The values of the jobs in a map.
pub open spec fn job_map(m: Map<u128, Job>) -> Map<u128, JobView> {
    Map::new(|k: u128| m.contains_key(k), |k: u128| m[k]@)
}

/// The values of the results in a map.
pub open spec fn result_map(m: Map<u128, JobResult>) -> Map<u128, JobResultView> {
    Map::new(|k: u128| m.contains_key(k), |k: u128| m[k]@)
}

/// The values of the workers in a map.
pub open spec fn worker_map(m: Map<u128, WorkerInfo>) -> Map<u128, WorkerView> {
    Map::new(|k: u128| m.contains_key(k), |k: u128| m[k]@)
}

/// The values of the jobs in a list, in order.
pub open spec fn job_seq(s: Seq<Job>) -> Seq<JobView> {
    Seq::new(s.len(), |i: int| s[i]@)
}

/// The value of an optional job.
pub open spec fn opt_job(job: Option<Job>) -> Option<JobView> {
    match job {
        Some(j) => Some(j@),
        None => None,
    }
}

/// The coordinator's queue. Every operation that changes it hands back the
/// writes that make the durable store follow, in the order in which they
/// are to be made.
pub struct JobQueue {
    jobs: HashMap<u128, Job>,
    schedules: HashMap<u128, Job>,
    results: HashMap<u128, JobResult>,
    pending_high: VecDeque<Job>,
    pending_medium: VecDeque<Job>,
    pending_low: VecDeque<Job>,
    workers: HashMap<u128, WorkerInfo>,
}

impl View for JobQueue {
    type V = QueueView;

    closed spec fn view(&self) -> QueueView {
        QueueView {
            jobs: job_map(self.jobs@),
            schedules: job_map(self.schedules@),
            results: result_map(self.results@),
            pending_high: job_seq(self.pending_high@),
            pending_medium: job_seq(self.pending_medium@),
            pending_low: job_seq(self.pending_low@),
            workers: worker_map(self.workers@),
        }
    }
}

impl JobQueue {
    /// A queue in which nothing is known.
    pub fn empty() -> (q: JobQueue)
        ensures
            q@ == QueueView::empty(),
    {
        let q = JobQueue {
            jobs: HashMap::new(),
            schedules: HashMap::new(),
            results: HashMap::new(),
            pending_high: VecDeque::new(),
            pending_medium: VecDeque::new(),
            pending_low: VecDeque::new(),
            workers: HashMap::new(),
        };
        proof {
            assert(q@.jobs =~= Map::empty());
            assert(q@.schedules =~= Map::empty());
            assert(q@.results =~= Map::empty());
            assert(q@.workers =~= Map::empty());
            assert(q@.pending_high =~= Seq::empty());
            assert(q@.pending_medium =~= Seq::empty());
            assert(q@.pending_low =~= Seq::empty());
        }
        q
    }

    /// The queue at start-up, from the jobs that the store holds as pending
    /// or running, in the store's order. Templates are kept as schedules;
    /// every other job is registered and waits, one that was running as
    /// pending again.
    pub fn new(pending: Vec<Job>) -> (q: JobQueue)
        ensures
            q@ == QueueView::restore(job_seq(pending@)),
            QueueView::loads_cleanly(job_seq(pending@)) ==> q@.consistent(),
    {
        let mut q = JobQueue::empty();
        let mut i: usize = 0;
        while i < pending.len()
            invariant
                i <= pending.len(),
                q@ == QueueView::restore(job_seq(pending@).take(i as int)),
            decreases pending.len() - i,
        {
            let mut job = pending[i].clone();
            proof {
                let upto = job_seq(pending@).take(i + 1);
                assert(upto.drop_last() =~= job_seq(pending@).take(i as int));
                assert(upto.last() == pending@[i as int]@);
            }
            if is_true(job.is_recurring) {
                q.keep_schedule(job);
            } else {
                if job.status == JobStatus::RUNNING {
                    job.status = JobStatus::PENDING;
                }
                q.register(job);
            }
            i += 1;
        }
        proof {
            assert(job_seq(pending@).take(pending.len() as int) =~= job_seq(pending@));
            if QueueView::loads_cleanly(job_seq(pending@)) {
                law_restore_is_consistent(job_seq(pending@));
            }
        }
        q
    }

    /// The job joins the tail of the queue of its priority.
    fn enqueue(&mut self, job: Job)
        ensures
            final(self)@ == old(self)@.enqueue(job@),
    {
        match job.priority {
            Priority::HIGH => {
                self.pending_high.push_back(job);
                assert(job_seq(self.pending_high@) =~= job_seq(old(self).pending_high@).push(job@));
            },
            Priority::MEDIUM => {
                self.pending_medium.push_back(job);
                assert(job_seq(self.pending_medium@) =~= job_seq(old(self).pending_medium@).push(
                    job@,
                ));
            },
            Priority::LOW => {
                self.pending_low.push_back(job);
                assert(job_seq(self.pending_low@) =~= job_seq(old(self).pending_low@).push(job@));
            },
        }
    }

    /// The job is registered and waits.
    fn register(&mut self, job: Job)
        ensures
            final(self)@ == old(self)@.add_job(job@),
    {
        let copy = job.clone();
        self.jobs.insert(job.id, copy);
        assert(job_map(self.jobs@) =~= job_map(old(self).jobs@).insert(job.id, job@));
        self.enqueue(job);
    }

    /// The template is kept.
    fn keep_schedule(&mut self, job: Job)
        ensures
            final(self)@ == old(self)@.add_schedule(job@),
    {
        let ghost value = job@;
        self.schedules.insert(job.id, job);
        assert(job_map(self.schedules@) =~= job_map(old(self).schedules@).insert(value.id, value));
    }

    /// Submits a concrete job: it is registered and joins the tail of the
    /// queue of its priority. The store is to add its row.
    pub fn add_job(&mut self, job: Job) -> (writes: Vec<StoreOp>)
        ensures
            final(self)@ == old(self)@.add_job(job@),
            ops_view(writes@) == seq![StoreOpView::InsertJob { job: job@ }],
    {
        let row = job.clone();
        self.register(job);
        let writes = vec![StoreOp::InsertJob { job: row }];
        assert(ops_view(writes@) =~= seq![StoreOpView::InsertJob { job: job@ }]);
        writes
    }

    /// Submits a schedule template: it is kept among the schedules and does
    /// not wait in any queue. The store is to add its row.
    pub fn add_scheduled_jobs(&mut self, job: Job) -> (writes: Vec<StoreOp>)
        ensures
            final(self)@ == old(self)@.add_schedule(job@),
            ops_view(writes@) == seq![StoreOpView::InsertJob { job: job@ }],
    {
        let row = job.clone();
        self.keep_schedule(job);
        let writes = vec![StoreOp::InsertJob { job: row }];
        assert(ops_view(writes@) =~= seq![StoreOpView::InsertJob { job: job@ }]);
        writes
    }

    /// The job or schedule template with the given id: a job first.
    pub fn get_job(&self, job_id: u128) -> (r: Option<Job>)
        ensures
            opt_job(r) == self@.lookup(job_id),
    {
        match self.jobs.get(&job_id) {
            Some(job) => Some(job.clone()),
            None => match self.schedules.get(&job_id) {
                Some(job) => Some(job.clone()),
                None => None,
            },
        }
    }

    /// What is known of the given id: the job or template, and the result
    /// that is kept for it.
    pub fn get_job_status(&self, job_id: u128) -> (r: Option<GetJobStatusResponse>)
        ensures
            opt_status(r) == self@.status_of(job_id),
    {
        match self.get_job(job_id) {
            Some(job) => {
                let result = match self.results.get(&job_id) {
                    Some(result) => Some(result.clone()),
                    None => None,
                };
                Some(GetJobStatusResponse { job, result })
            },
            None => None,
        }
    }

    /// Takes the job that is dispatched next out of its queue, if any waits.
    fn pop_next(&mut self) -> (r: Option<Job>)
        ensures
            opt_job(r) == old(self)@.front(),
            final(self)@ == old(self)@.without_front(),
    {
        if self.pending_high.len() > 0 {
            let job = self.pending_high.pop_front();
            assert(job_seq(self.pending_high@) =~= job_seq(old(self).pending_high@).drop_first());
            job
        } else if self.pending_medium.len() > 0 {
            let job = self.pending_medium.pop_front();
            assert(job_seq(self.pending_medium@) =~= job_seq(
                old(self).pending_medium@,
            ).drop_first());
            job
        } else if self.pending_low.len() > 0 {
            let job = self.pending_low.pop_front();
            assert(job_seq(self.pending_low@) =~= job_seq(old(self).pending_low@).drop_first());
            job
        } else {
            None
        }
    }

    /// Gives the registered job `job_id` the status; an unknown id changes
    /// nothing.
    fn set_status(&mut self, job_id: u128, status: JobStatus) -> (known: bool)
        ensures
            final(self)@ == old(self)@.set_status(job_id, status),
            known == old(self)@.jobs.contains_key(job_id),
    {
        match self.jobs.remove(&job_id) {
            Some(mut job) => {
                let ghost before = job@;
                job.status = status;
                self.jobs.insert(job_id, job);
                assert(job_map(self.jobs@) =~= job_map(old(self).jobs@).insert(
                    job_id,
                    before.with_status(status),
                ));
                true
            },
            None => {
                assert(job_map(self.jobs@) =~= job_map(old(self).jobs@));
                false
            },
        }
    }

    /// Notes the worker, if it is known, as working on the job.
    fn assign(&mut self, worker_id: u128, job_id: u128)
        ensures
            final(self)@ == old(self)@.assign(worker_id, job_id),
    {
        match self.workers.remove(&worker_id) {
            Some(mut worker) => {
                let ghost before = worker@;
                worker.current_job_id = Some(job_id);
                self.workers.insert(worker_id, worker);
                assert(worker_map(self.workers@) =~= worker_map(old(self).workers@).insert(
                    worker_id,
                    WorkerView { current_job_id: Some(job_id), ..before },
                ));
            },
            None => {
                assert(worker_map(self.workers@) =~= worker_map(old(self).workers@));
            },
        }
    }

    /// A worker asks for work. The job at the head of the highest queue
    /// that is not empty is handed out as it was queued; its record in the
    /// registry runs, and the worker, if it is known, is noted as working
    /// on it. The store is to set the job's status. With nothing waiting,
    /// nothing changes.
    pub fn get_next_job(&mut self, requester: u128) -> (r: (Option<Job>, Vec<StoreOp>))
        ensures
            opt_job(r.0) == old(self)@.front(),
            final(self)@ == old(self)@.dispatch(requester),
            ops_view(r.1@) == old(self)@.dispatch_writes(),
            old(self)@.consistent() ==> final(self)@.consistent(),
    {
        proof {
            if old(self)@.consistent() {
                law_dispatch_keeps_consistency(old(self)@, requester);
            }
        }
        match self.pop_next() {
            Some(job) => {
                let job_id = job.id;
                let _ = self.set_status(job_id, JobStatus::RUNNING);
                self.assign(requester, job_id);
                let writes = vec![StoreOp::UpdateStatus { job_id, status: JobStatus::RUNNING }];
                assert(ops_view(writes@) =~= old(self)@.dispatch_writes());
                (Some(job), writes)
            },
            None => {
                let writes: Vec<StoreOp> = Vec::new();
                assert(ops_view(writes@) =~= old(self)@.dispatch_writes());
                (None, writes)
            },
        }
    }

    /// Has the registered job `job_id` tried again: it counts one retry
    /// more, is retrying, and joins the tail of the queue of its priority.
    /// The store is to set its status and its count. An unknown id changes
    /// nothing.
    pub fn retry_job(&mut self, job_id: u128) -> (writes: Vec<StoreOp>)
        requires
            old(self)@.jobs.contains_key(job_id) ==> old(self)@.jobs[job_id].retry_count
                < u32::MAX,
        ensures
            final(self)@ == old(self)@.retry(job_id),
            ops_view(writes@) == old(self)@.retry_writes(job_id),
    {
        match self.jobs.remove(&job_id) {
            Some(mut job) => {
                job.status = JobStatus::RETRYING;
                job.retry_count = job.retry_count + 1;
                let count = job.retry_count;
                let copy = job.clone();
                self.jobs.insert(job_id, copy);
                assert(job_map(self.jobs@) =~= job_map(old(self).jobs@).insert(job_id, job@));
                self.enqueue(job);
                let writes = vec![
                    StoreOp::UpdateStatus { job_id, status: JobStatus::RETRYING },
                    StoreOp::UpdateRetryCount { job_id, count },
                ];
                assert(ops_view(writes@) =~= old(self)@.retry_writes(job_id));
                writes
            },
            None => {
                assert(job_map(self.jobs@) =~= job_map(old(self).jobs@));
                let writes: Vec<StoreOp> = Vec::new();
                assert(ops_view(writes@) =~= old(self)@.retry_writes(job_id));
                writes
            },
        }
    }

    /// Gives the registered job `job_id` the status. The store is to set it
    /// too. An unknown id changes nothing.
    pub fn update_job_status(&mut self, job_id: u128, status: JobStatus) -> (writes: Vec<StoreOp>)
        ensures
            final(self)@ == old(self)@.set_status(job_id, status),
            ops_view(writes@) == old(self)@.set_status_writes(job_id, status),
    {
        if self.set_status(job_id, status) {
            let writes = vec![StoreOp::UpdateStatus { job_id, status }];
            assert(ops_view(writes@) =~= old(self)@.set_status_writes(job_id, status));
            writes
        } else {
            let writes: Vec<StoreOp> = Vec::new();
            assert(ops_view(writes@) =~= old(self)@.set_status_writes(job_id, status));
            writes
        }
    }

    /// Keeps the result for the job, in place of an earlier one. The store
    /// is to add it.
    pub fn store_results(&mut self, job_id: u128, job_results: JobResult) -> (writes: Vec<StoreOp>)
        ensures
            final(self)@ == old(self)@.store_result(job_id, job_results@),
            ops_view(writes@) == seq![
                StoreOpView::InsertResult { job_id, result: job_results@ },
            ],
    {
        let row = job_results.clone();
        let ghost value = job_results@;
        self.results.insert(job_id, job_results);
        assert(result_map(self.results@) =~= result_map(old(self).results@).insert(job_id, value));
        let writes = vec![StoreOp::InsertResult { job_id, result: row }];
        assert(ops_view(writes@) =~= seq![StoreOpView::InsertResult { job_id, result: value }]);
        writes
    }

    /// A worker reports the result of a job. A report for a job that is not
    /// registered is ignored. A failure of a job with retries left has it
    /// tried again and keeps no result. Any other report is final: the
    /// result is kept, and the job completes on exit code 0 and fails on
    /// any other. The status of the job does not matter: a report for a job
    /// that has reached an outcome already is taken like any other, and its
    /// result replaces the one that is kept.
    pub fn report_result(&mut self, job_id: u128, result: JobResult) -> (writes: Vec<StoreOp>)
        ensures
            final(self)@ == old(self)@.report(job_id, result@),
            ops_view(writes@) == old(self)@.report_writes(job_id, result@),
            old(self)@.retries_bounded() ==> final(self)@.retries_bounded(),
    {
        proof {
            if old(self)@.retries_bounded() {
                law_retries_stay_bounded(
                    old(self)@,
                    job_id,
                    job_id,
                    JobStatus::PENDING,
                    result@,
                    Timestamp { secs: 0, nanos: 0 },
                );
            }
        }
        let retry = match self.jobs.get(&job_id) {
            Some(job) => Some(result.exitcode != 0 && job.retry_count < job.max_retries),
            None => None,
        };
        match retry {
            None => {
                let writes: Vec<StoreOp> = Vec::new();
                assert(ops_view(writes@) =~= old(self)@.report_writes(job_id, result@));
                writes
            },
            Some(true) => self.retry_job(job_id),
            Some(false) => {
                let status = if result.exitcode == 0 {
                    JobStatus::COMPLETED
                } else {
                    JobStatus::FAILED
                };
                let ghost value = result@;
                let mut writes = self.store_results(job_id, result);
                let ghost first = writes@;
                let _ = self.set_status(job_id, status);
                writes.push(StoreOp::UpdateStatus { job_id, status });
                assert(ops_view(writes@) =~= ops_view(first).push(
                    StoreOpView::UpdateStatus { job_id, status },
                ));
                assert(ops_view(writes@) =~= old(self)@.report_writes(job_id, value));
                writes
            },
        }
    }

    /// Registers a worker at the time `now`: its record stands in place of
    /// an earlier one with its id, as alive and seen at `now`.
    pub fn register_worker_at(&mut self, info: WorkerInfo, now: Timestamp)
        ensures
            final(self)@ == old(self)@.register(info@, now),
    {
        let ghost value = info@;
        let mut worker = info;
        worker.last_seen = now;
        worker.status = WorkerStatus::ALIVE;
        self.workers.insert(worker.worker_id, worker);
        assert(worker_map(self.workers@) =~= worker_map(old(self).workers@).insert(
            value.worker_id,
            WorkerView { last_seen: now, status: WorkerStatus::ALIVE, ..value },
        ));
    }

    /// Registers a worker at the present time.
    pub fn register_worker(&mut self, info: WorkerInfo)
        ensures
            exists|now: Timestamp| final(self)@ == old(self)@.register(info@, now),
    {
        let now = clock_now();
        self.register_worker_at(info, now);
    }

    /// A worker says that it is still there: if it is known, it was last
    /// seen at the time it reports and is alive, also where it had been
    /// declared dead. An unknown worker changes nothing.
    pub fn update_worker_heartbeat(&mut self, heartbeat: WorkerHeartbeat)
        ensures
            final(self)@ == old(self)@.heartbeat(heartbeat.worker_id, heartbeat.timestamp),
    {
        match self.workers.remove(&heartbeat.worker_id) {
            Some(mut worker) => {
                let ghost before = worker@;
                worker.last_seen = heartbeat.timestamp;
                worker.status = WorkerStatus::ALIVE;
                self.workers.insert(heartbeat.worker_id, worker);
                assert(worker_map(self.workers@) =~= worker_map(old(self).workers@).insert(
                    heartbeat.worker_id,
                    WorkerView {
                        last_seen: heartbeat.timestamp,
                        status: WorkerStatus::ALIVE,
                        ..before
                    },
                ));
            },
            None => {
                assert(worker_map(self.workers@) =~= worker_map(old(self).workers@));
            },
        }
    }

    /// The record of a worker.
    pub fn get_worker(&self, worker_id: u128) -> (r: Option<WorkerInfo>)
        ensures
            match r {
                Some(w) => self@.workers.contains_key(worker_id) && w@ == self@.workers[worker_id],
                None => !self@.workers.contains_key(worker_id),
            },
    {
        match self.workers.get(&worker_id) {
            Some(worker) => Some(worker.clone()),
            None => None,
        }
    }

    /// The jobs that wait in the queue of one priority, head first.
    pub fn pending_jobs(&self, priority: Priority) -> (r: Vec<Job>)
        ensures
            job_seq(r@) == self@.pending(priority),
    {
        let queue = match priority {
            Priority::HIGH => &self.pending_high,
            Priority::MEDIUM => &self.pending_medium,
            Priority::LOW => &self.pending_low,
        };
        let mut r: Vec<Job> = Vec::new();
        let mut i: usize = 0;
        while i < queue.len()
            invariant
                i <= queue.len(),
                job_seq(r@) == job_seq(queue@).take(i as int),
            decreases queue.len() - i,
        {
            let ghost before = r@;
            let job = queue[i].clone();
            r.push(job);
            assert(job_seq(r@) =~= job_seq(before).push(queue@[i as int]@));
            assert(job_seq(r@) =~= job_seq(queue@).take(i + 1));
            i += 1;
        }
        assert(job_seq(queue@).take(queue.len() as int) =~= job_seq(queue@));
        r
    }

    /// Applies the liveness rule to one worker at the time `now`. A worker
    /// that counts as alive and was last seen more than 60 seconds ago is
    /// dead and works on nothing; the job it was noted as working on, if it
    /// is registered, joins the tail of the queue of its priority and waits
    /// again, which the store is to record. Any other worker, or an unknown
    /// one, changes nothing.
    pub fn reap_worker(&mut self, worker_id: u128, now: Timestamp) -> (writes: Vec<StoreOp>)
        ensures
            final(self)@ == old(self)@.reap(worker_id, now),
            ops_view(writes@) == old(self)@.reap_writes(worker_id, now),
    {
        let stale = match self.workers.get(&worker_id) {
            Some(worker) => worker.status == WorkerStatus::ALIVE && now.since(&worker.last_seen)
                > WORKER_TIMEOUT_NANOS,
            None => false,
        };
        let mut writes: Vec<StoreOp> = Vec::new();
        if !stale {
            assert(ops_view(writes@) =~= old(self)@.reap_writes(worker_id, now));
            return writes;
        }
        let mut job_id: Option<u128> = None;
        match self.workers.remove(&worker_id) {
            Some(mut worker) => {
                let ghost before = worker@;
                job_id = worker.current_job_id;
                worker.status = WorkerStatus::DEAD;
                worker.current_job_id = None;
                self.workers.insert(worker_id, worker);
                assert(worker_map(self.workers@) =~= worker_map(old(self).workers@).insert(
                    worker_id,
                    WorkerView { status: WorkerStatus::DEAD, current_job_id: None, ..before },
                ));
            },
            None => {},
        }
        let copy = match job_id {
            Some(id) => match self.jobs.get(&id) {
                Some(job) => Some((id, job.clone())),
                None => None,
            },
            None => None,
        };
        match copy {
            Some((id, job)) => {
                self.enqueue(job);
                let _ = self.set_status(id, JobStatus::PENDING);
                writes.push(StoreOp::UpdateStatus { job_id: id, status: JobStatus::PENDING });
                assert(ops_view(writes@) =~= old(self)@.reap_writes(worker_id, now));
            },
            None => {
                assert(ops_view(writes@) =~= old(self)@.reap_writes(worker_id, now));
            },
        }
        writes
    }

    /// Applies the liveness rule to the workers in `order`, one after the
    /// other, at the time `now`.
    pub fn sweep_workers(&mut self, order: &Vec<u128>, now: Timestamp) -> (writes: Vec<StoreOp>)
        ensures
            final(self)@ == old(self)@.sweep(order@, now),
            ops_view(writes@) == old(self)@.sweep_writes(order@, now),
    {
        let mut writes: Vec<StoreOp> = Vec::new();
        let mut i: usize = 0;
        assert(ops_view(writes@) =~= Seq::empty());
        while i < order.len()
            invariant
                i <= order.len(),
                self@ == old(self)@.sweep(order@.take(i as int), now),
                ops_view(writes@) == old(self)@.sweep_writes(order@.take(i as int), now),
            decreases order.len() - i,
        {
            proof {
                assert(order@.take(i + 1).drop_last() =~= order@.take(i as int));
            }
            let mut more = self.reap_worker(order[i], now);
            let ghost before = writes@;
            let ghost added = more@;
            writes.append(&mut more);
            assert(ops_view(writes@) =~= ops_view(before) + ops_view(added));
            i += 1;
        }
        assert(order@.take(order.len() as int) =~= order@);
        writes
    }

    /// The liveness sweep at the time `now`: the liveness rule, applied to
    /// every worker once, in the order in which the registry hands the
    /// workers out. Afterwards no worker that counts as alive was last seen
    /// more than 60 seconds before `now`; and no dead worker is noted as
    /// working on a job, unless one was before: a dead worker that asks for
    /// work is given it.
    pub fn check_worker_at(&mut self, now: Timestamp) -> (writes: Vec<StoreOp>)
        ensures
            exists|order: Seq<u128>|
                {
                    &&& QueueView::walks(order, old(self)@.workers)
                    &&& final(self)@ == old(self)@.sweep(order, now)
                    &&& ops_view(writes@) == old(self)@.sweep_writes(order, now)
                },
            forall|w: u128| #[trigger]
                final(self)@.workers.contains_key(w) && final(self)@.workers[w].status
                    == WorkerStatus::ALIVE ==> now.nanos_since(final(self)@.workers[w].last_seen)
                    <= WORKER_TIMEOUT_NANOS,
            (forall|w: u128| #[trigger]
                old(self)@.workers.contains_key(w) && old(self)@.workers[w].status
                    == WorkerStatus::DEAD ==> old(self)@.workers[w].current_job_id is None) ==> (
            forall|w: u128| #[trigger]
                final(self)@.workers.contains_key(w) && final(self)@.workers[w].status
                    == WorkerStatus::DEAD ==> final(self)@.workers[w].current_job_id is None),
    {
        let order = keys_of(&self.workers);
        assert(order@.to_set() =~= old(self)@.workers.dom());
        proof {
            law_sweep_leaves_no_stale_worker(old(self)@, order@, now);
        }
        self.sweep_workers(&order, now)
    }

    /// The liveness sweep at the present time.
    pub fn check_worker(&mut self) -> (writes: Vec<StoreOp>)
        ensures
            exists|now: Timestamp, order: Seq<u128>|
                {
                    &&& QueueView::walks(order, old(self)@.workers)
                    &&& final(self)@ == old(self)@.sweep(order, now)
                    &&& ops_view(writes@) == old(self)@.sweep_writes(order, now)
                },
    {
        let now = clock_now();
        self.check_worker_at(now)
    }

    /// Applies the schedule rule to one template at the time `now`. Where
    /// the template has a next run within 30 seconds of `now`, before or
    /// after, the job it makes is submitted under `new_id`. Where it has a
    /// next run, is recurring and its expression fires again after `now`,
    /// its next run advances to that firing, whether or not it fired. The
    /// store is to add the job's row and to set the template's next run.
    pub fn fire_schedule(&mut self, schedule_id: u128, new_id: u128, now: Timestamp) -> (writes:
        Vec<StoreOp>)
        ensures
            final(self)@ == old(self)@.fire(schedule_id, new_id, now),
            ops_view(writes@) == old(self)@.fire_writes(schedule_id, new_id, now),
    {
        let mut job: Option<Job> = None;
        let mut next: Option<Timestamp> = None;
        match self.schedules.get(&schedule_id) {
            Some(template) => {
                match template.next_run {
                    Some(at) => {
                        let distance = at.since(&now);
                        if -FIRING_WINDOW_NANOS <= distance && distance <= FIRING_WINDOW_NANOS {
                            job = Some(materialize(template, new_id, now));
                        }
                        if is_true(template.is_recurring) {
                            next = match &template.schedule {
                                Some(expr) => next_run_after(expr.as_str(), now),
                                None => None,
                            };
                        }
                    },
                    None => {},
                }
            },
            None => {},
        }
        assert(opt_job(job) == if old(self)@.fires(schedule_id, now) {
            Some(materialized(old(self)@.schedules[schedule_id], new_id, now))
        } else {
            None
        });
        assert(next == old(self)@.advance(schedule_id, now));
        let mut writes: Vec<StoreOp> = match job {
            Some(job) => self.add_job(job),
            None => Vec::new(),
        };
        let ghost insert = ops_view(writes@);
        assert(insert =~= if old(self)@.fires(schedule_id, now) {
            seq![
                StoreOpView::InsertJob {
                    job: materialized(old(self)@.schedules[schedule_id], new_id, now),
                },
            ]
        } else {
            Seq::empty()
        });
        match next {
            Some(at) => {
                match self.schedules.remove(&schedule_id) {
                    Some(mut template) => {
                        let ghost before = template@;
                        template.next_run = Some(at);
                        self.schedules.insert(schedule_id, template);
                        assert(job_map(self.schedules@) =~= job_map(old(self).schedules@).insert(
                            schedule_id,
                            JobView { next_run: Some(at), ..before },
                        ));
                    },
                    None => {},
                }
                writes.push(StoreOp::UpdateNextRun { schedule_id, next_run: at });
                assert(ops_view(writes@) =~= insert.push(
                    StoreOpView::UpdateNextRun { schedule_id, next_run: at },
                ));
            },
            None => {},
        }
        writes
    }

    /// The schedule sweep at the time `now`: the schedule rule, applied to
    /// every template once, in the order in which the registry hands the
    /// templates out, each job made under an id of its own.
    pub fn check_scheduled_jobs_at(&mut self, now: Timestamp) -> (writes: Vec<StoreOp>)
        ensures
            exists|order: Seq<u128>, ids: Seq<u128>|
                {
                    &&& QueueView::walks(order, old(self)@.schedules)
                    &&& ids.len() == order.len()
                    &&& final(self)@ == old(self)@.fire_all(order, ids, now)
                    &&& ops_view(writes@) == old(self)@.fire_all_writes(order, ids, now)
                },
    {
        let order = keys_of(&self.schedules);
        assert(order@.to_set() =~= old(self)@.schedules.dom());
        let ghost mut ids: Seq<u128> = Seq::empty();
        let mut writes: Vec<StoreOp> = Vec::new();
        let mut i: usize = 0;
        assert(ops_view(writes@) =~= Seq::empty());
        while i < order.len()
            invariant
                i <= order.len(),
                ids.len() == i,
                self@ == old(self)@.fire_all(order@.take(i as int), ids, now),
                ops_view(writes@) == old(self)@.fire_all_writes(order@.take(i as int), ids, now),
            decreases order.len() - i,
        {
            let new_id = random_id();
            proof {
                assert(order@.take(i + 1).drop_last() =~= order@.take(i as int));
                assert(ids.push(new_id).drop_last() =~= ids);
            }
            let mut more = self.fire_schedule(order[i], new_id, now);
            let ghost before = writes@;
            let ghost added = more@;
            writes.append(&mut more);
            assert(ops_view(writes@) =~= ops_view(before) + ops_view(added));
            proof {
                ids = ids.push(new_id);
            }
            i += 1;
        }
        assert(order@.take(order.len() as int) =~= order@);
        writes
    }

    /// The schedule sweep at the present time.
    pub fn check_scheduled_jobs(&mut self) -> (writes: Vec<StoreOp>)
        ensures
            exists|now: Timestamp, order: Seq<u128>, ids: Seq<u128>|
                {
                    &&& QueueView::walks(order, old(self)@.schedules)
                    &&& ids.len() == order.len()
                    &&& final(self)@ == old(self)@.fire_all(order, ids, now)
                    &&& ops_view(writes@) == old(self)@.fire_all_writes(order, ids, now)
                },
    {
        let now = clock_now();
        self.check_scheduled_jobs_at(now)
    }

    /// Lists the jobs and the schedule templates, all of them or those in
    /// one status: the jobs first, then the templates, each group in the
    /// order in which its registry hands them out.
    pub fn get_list(&self, status: Option<JobStatus>) -> (list: Vec<Job>)
        ensures
            exists|job_order: Seq<u128>, schedule_order: Seq<u128>|
                {
                    &&& QueueView::walks(job_order, self@.jobs)
                    &&& QueueView::walks(schedule_order, self@.schedules)
                    &&& job_seq(list@) == self@.listing(job_order, schedule_order, status)
                },
    {
        let job_order = keys_of(&self.jobs);
        let schedule_order = keys_of(&self.schedules);
        assert(job_order@.to_set() =~= self@.jobs.dom());
        assert(schedule_order@.to_set() =~= self@.schedules.dom());
        let mut list = select_jobs(&self.jobs, &job_order, status);
        let ghost first = list@;
        let mut more = select_jobs(&self.schedules, &schedule_order, status);
        let ghost second = more@;
        list.append(&mut more);
        assert(job_seq(list@) =~= job_seq(first) + job_seq(second));
        assert(QueueView::walks(job_order@, self@.jobs));
        assert(QueueView::walks(schedule_order@, self@.schedules));
        assert(job_seq(list@) == self@.listing(job_order@, schedule_order@, status));
        list
    }
}

/// The value of what is known of a job, if anything is.
pub open spec fn opt_status(r: Option<GetJobStatusResponse>) -> Option<JobStatusView> {
    match r {
        Some(s) => Some(s@),
        None => None,
    }
}

/// The keys of a map, each once, in the order in which the map hands them
/// out.
pub fn keys_of<V>(m: &HashMap<u128, V>) -> (keys: Vec<u128>)
    ensures
        keys@.no_duplicates(),
        keys@.to_set() == m@.dom(),
{
    let mut keys: Vec<u128> = Vec::new();
    for key in it: m.keys()
        invariant
            it.seq() == spec_keys_iter(m).remaining(),
            keys@ == it.seq().take(it.index()).unref(),
    {
        keys.push(*key);
        assert(it.seq().take(it.index() + 1).unref() =~= it.seq().take(it.index()).unref().push(
            *key,
        ));
    }
    proof {
        let all = spec_keys_iter(m).remaining();
        assert(all.take(all.len() as int) =~= all);
        assert(keys@ == all.unref());
        assert(keys@.no_duplicates()) by {
            assert forall|i: int, j: int| 0 <= i < keys@.len() && 0 <= j < keys@.len() && i != j
                implies keys@[i] != keys@[j] by {
                assert(all[i] != all[j]);
            }
        }
    }
    keys
}

/// The concrete job that a template makes when it fires at `now`: a new
/// id; command, arguments, priority and retry limit of the template; no
/// retries yet; pending; submitted at `now`; the template as its parent;
/// nothing of a schedule.
pub fn materialize(template: &Job, new_id: u128, now: Timestamp) -> (job: Job)
    ensures
        job@ == materialized(template@, new_id, now),
{
    Job {
        id: new_id,
        command: template.command.clone(),
        args: clone_strings(&template.args),
        status: JobStatus::PENDING,
        timestamp: now,
        retry_count: 0,
        max_retries: template.max_retries,
        priority: template.priority,
        schedule: None,
        next_run: None,
        is_recurring: None,
        parent_schedule_id: Some(template.id),
    }
}

/// The jobs of a map under the given keys, in their order, that pass the
/// filter.
pub fn select_jobs(m: &HashMap<u128, Job>, order: &Vec<u128>, status: Option<JobStatus>) -> (list:
    Vec<Job>)
    ensures
        job_seq(list@) == QueueView::select(job_map(m@), order@, status),
{
    let mut list: Vec<Job> = Vec::new();
    let mut i: usize = 0;
    assert(job_seq(list@) =~= Seq::empty());
    while i < order.len()
        invariant
            i <= order.len(),
            job_seq(list@) == QueueView::select(job_map(m@), order@.take(i as int), status),
        decreases order.len() - i,
    {
        proof {
            assert(order@.take(i + 1).drop_last() =~= order@.take(i as int));
        }
        match m.get(&order[i]) {
            Some(job) => {
                let passes = match status {
                    Some(s) => job.status == s,
                    None => true,
                };
                if passes {
                    let ghost before = list@;
                    list.push(job.clone());
                    assert(job_seq(list@) =~= job_seq(before).push(job@));
                }
            },
            None => {},
        }
        i += 1;
    }
    assert(order@.take(order.len() as int) =~= order@);
    list
}

/// Whether an optional flag is set.
pub fn is_true(flag: Option<bool>) -> (b: bool)
    ensures
        b == (flag == Some(true)),
{
    match flag {
        Some(b) => b,
        None => false,
    }
}

} // verus!
