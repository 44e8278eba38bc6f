//! The decisions behind each request: what a request does to the queue,
//! what is answered, and what the store is to write.

use vstd::prelude::*;
use crate::ident::id_of_text;
use crate::ident::parse_id;
use crate::ident::random_id;
use crate::instant::Timestamp;
use crate::instant::clock_now;
use crate::instant::format_rfc3339;
use crate::instant::opt_text;
use crate::instant::rfc3339_of;
use crate::job::Job;
use crate::job::JobResult;
use crate::job::JobStatus;
use crate::job::JobView;
use crate::job::Priority;
use crate::job::clone_strings;
use crate::message::GetJobListResponse;
use crate::message::GetJobStatusResponse;
use crate::message::NextJobRequest;
use crate::message::SubmitJobListRequest;
use crate::message::SubmitJobRequest;
use crate::message::WorkerHeartbeat;
use crate::message::WorkerInfo;
use crate::message::WorkerRegister;
use crate::message::WorkerStatus;
use crate::message::WorkerView;
use crate::model::QueueView;
use crate::queue::JobQueue;
use crate::queue::is_true;
use crate::queue::job_seq;
use crate::schedule::next_run;
use crate::schedule::next_run_after;
use crate::schedule::normalize;
use crate::schedule::normalized;
use crate::store::StoreOp;
use crate::store::StoreOpView;
use crate::store::ops_view;

verus! {

/// How often a submitted job may be retried.
pub const MAX_RETRYS: u32 = 3;

/// What a handler answers: success with a body, or one of the two
/// refusals, which carry none.
#[derive(Debug, PartialEq)]
pub enum Reply<T> {
    /// 200.
    Success(T),
    /// 400: the request cannot be read.
    BadRequest,
    /// 404: there is no such thing.
    NotFound,
}

impl<T> Reply<T> {
    /// The HTTP status code of a reply.
    pub open spec fn code(self) -> u16 {
        match self {
            Reply::Success(_) => 200,
            Reply::BadRequest => 400,
            Reply::NotFound => 404,
        }
    }

    /// The HTTP status code of a reply.
    pub fn status_code(&self) -> (code: u16)
        ensures
            code == self.code(),
    {
        match self {
            Reply::Success(_) => 200,
            Reply::BadRequest => 400,
            Reply::NotFound => 404,
        }
    }
}

/// The text that answers a worker when no job waits.
pub fn no_job_body() -> (body: String)
    ensures
        body@ == "No job in queue"@,
{
    "No job in queue".to_owned()
}

/// The body of the health answer.
#[derive(Debug, PartialEq)]
pub struct Health {
    pub status: String,
    pub timestamp: String,
}

/// The health answer at the time `now`: the status `ok` and the time in
/// RFC 3339. `None` where the time has no such text.
pub fn health_at(now: Timestamp) -> (r: Option<Health>)
    ensures
        answers_health(r, now),
{
    match format_rfc3339(now) {
        Some(timestamp) => Some(Health { status: "ok".to_owned(), timestamp }),
        None => None,
    }
}

/// The health answer at the present time: the answer of [`health_at`] for
/// the instant that the clock shows.
pub fn health_check() -> (r: Option<Health>)
    ensures
        exists|now: Timestamp| answers_health(r, now),
{
    let now = clock_now();
    let r = health_at(now);
    assert(answers_health(r, now));
    r
}

/// What the health answer is at the time `now`: the status `ok` with the
/// time in RFC 3339, or none where the time has no such text.
pub open spec fn answers_health(r: Option<Health>, now: Timestamp) -> bool {
    match r {
        Some(h) => h.status@ == "ok"@ && rfc3339_of(now.secs, now.nanos) == Some(h.timestamp@),
        None => rfc3339_of(now.secs, now.nanos) is None,
    }
}

/// The mathematical value of a [`SubmitJobRequest`].
pub struct SubmitView {
    pub command: Seq<char>,
    pub args: Seq<Seq<char>>,
    pub priority: Option<Priority>,
    pub schedule: Option<Seq<char>>,
}

impl View for SubmitJobRequest {
    type V = SubmitView;

    open spec fn view(&self) -> SubmitView {
        SubmitView {
            command: self.command@,
            args: self.args.deep_view(),
            priority: self.priority,
            schedule: opt_text(self.schedule),
        }
    }
}

/// The six-field form of the schedule of a request, if it asks for one
/// that the parser accepts.
pub open spec fn schedule_of(req: SubmitView) -> Option<Seq<char>> {
    match req.schedule {
        Some(expr) => normalized(expr),
        None => None,
    }
}

/// The job that a request makes under the id `id` at the time `now`. It is
/// pending, was never retried and may be retried three times; its priority
/// is the one asked for, or low. Where the request carries a schedule that
/// the parser accepts, as it stands or, with five fields, behind a seconds
/// field of zero, the job is a template with that schedule in six fields
/// and its first firing after `now` as next run; any other request makes a
/// concrete job.
pub open spec fn submitted(req: SubmitView, id: u128, now: Timestamp) -> JobView {
    JobView {
        id,
        command: req.command,
        args: req.args,
        status: JobStatus::PENDING,
        timestamp: now,
        retry_count: 0,
        max_retries: MAX_RETRYS,
        priority: match req.priority {
            Some(p) => p,
            None => Priority::LOW,
        },
        schedule: schedule_of(req),
        next_run: match schedule_of(req) {
            Some(expr) => next_run(expr, now),
            None => None,
        },
        is_recurring: Some(schedule_of(req) is Some),
        parent_schedule_id: None,
    }
}

/// Makes the job of a request, under the id `id` at the time `now`.
pub fn plan_job(req: &SubmitJobRequest, id: u128, now: Timestamp) -> (job: Job)
    ensures
        job@ == submitted(req@, id, now),
        job@.is_template() || job@.is_concrete(),
        job@.retry_count <= job@.max_retries,
{
    let schedule = match &req.schedule {
        Some(expr) => normalize(expr.as_str()),
        None => None,
    };
    let next = match &schedule {
        Some(expr) => next_run_after(expr.as_str(), now),
        None => None,
    };
    let is_recurring = schedule.is_some();
    Job {
        id,
        command: req.command.clone(),
        args: clone_strings(&req.args),
        status: JobStatus::PENDING,
        timestamp: now,
        retry_count: 0,
        max_retries: MAX_RETRYS,
        priority: match req.priority {
            Some(p) => p,
            None => Priority::LOW,
        },
        schedule,
        next_run: next,
        is_recurring: Some(is_recurring),
        parent_schedule_id: None,
    }
}

/// The queue after the job of a submission has entered it: a template is
/// kept among the schedules, a concrete job is registered and waits.
pub open spec fn entered(s: QueueView, job: JobView) -> QueueView {
    if job.is_recurring == Some(true) {
        s.add_schedule(job)
    } else {
        s.add_job(job)
    }
}

/// Lets the job of a submission enter the queue: a template is kept among
/// the schedules, a concrete job is registered and waits. The store is to
/// add its row; a caller that must not queue what the store refuses writes
/// the row first and lets the job enter then.
pub fn enter_job(queue: &mut JobQueue, job: Job) -> (writes: Vec<StoreOp>)
    ensures
        final(queue)@ == entered(old(queue)@, job@),
        ops_view(writes@) == seq![StoreOpView::InsertJob { job: job@ }],
{
    if is_true(job.is_recurring) {
        queue.add_scheduled_jobs(job)
    } else {
        queue.add_job(job)
    }
}

/// Submits the job of a request under the id `id` at the time `now`, and
/// answers with the job. The store is to add its row.
pub fn submit_job_with(queue: &mut JobQueue, req: &SubmitJobRequest, id: u128, now: Timestamp) -> (r:
    (Job, Vec<StoreOp>))
    ensures
        r.0@ == submitted(req@, id, now),
        final(queue)@ == entered(old(queue)@, submitted(req@, id, now)),
        ops_view(r.1@) == seq![StoreOpView::InsertJob { job: submitted(req@, id, now) }],
{
    let job = plan_job(req, id, now);
    let answer = job.clone();
    let writes = enter_job(queue, job);
    (answer, writes)
}

/// Submits the job of a request under a new id at the present time.
pub fn submit_job(queue: &mut JobQueue, req: &SubmitJobRequest) -> (r: (Job, Vec<StoreOp>))
    ensures
        exists|id: u128, now: Timestamp|
            {
                &&& r.0@ == submitted(req@, id, now)
                &&& final(queue)@ == entered(old(queue)@, submitted(req@, id, now))
                &&& ops_view(r.1@) == seq![
                    StoreOpView::InsertJob { job: submitted(req@, id, now) },
                ]
            },
{
    let id = random_id();
    let now = clock_now();
    submit_job_with(queue, req, id, now)
}

/// The record of a worker that registers at the time `now`: alive, seen
/// now, working on nothing.
pub open spec fn enrolled(worker_id: u128, hostname: Seq<char>, now: Timestamp) -> WorkerView {
    WorkerView {
        worker_id,
        hostname,
        last_seen: now,
        status: WorkerStatus::ALIVE,
        current_job_id: None,
    }
}

/// Registers a worker at the time `now`, in place of an earlier record
/// with its id, and answers with the record.
pub fn register_worker_at(queue: &mut JobQueue, req: &WorkerRegister, now: Timestamp) -> (worker:
    WorkerInfo)
    ensures
        worker@ == enrolled(req.worker_id, req.hostname@, now),
        final(queue)@ == old(queue)@.register(enrolled(req.worker_id, req.hostname@, now), now),
{
    let worker = WorkerInfo {
        worker_id: req.worker_id,
        hostname: req.hostname.clone(),
        last_seen: now,
        status: WorkerStatus::ALIVE,
        current_job_id: None,
    };
    queue.register_worker_at(worker.clone(), now);
    worker
}

/// Registers a worker at the present time.
pub fn register_worker(queue: &mut JobQueue, req: &WorkerRegister) -> (worker: WorkerInfo)
    ensures
        exists|now: Timestamp|
            {
                &&& worker@ == enrolled(req.worker_id, req.hostname@, now)
                &&& final(queue)@ == old(queue)@.register(
                    enrolled(req.worker_id, req.hostname@, now),
                    now,
                )
            },
{
    let now = clock_now();
    register_worker_at(queue, req, now)
}

/// Takes the heartbeat of a worker; one of an unknown worker is ignored.
pub fn worker_heartbeat(queue: &mut JobQueue, req: WorkerHeartbeat)
    ensures
        final(queue)@ == old(queue)@.heartbeat(req.worker_id, req.timestamp),
{
    queue.update_worker_heartbeat(req);
}

/// The value of a reply that carries a job.
pub open spec fn job_reply(r: Reply<Job>) -> Reply<JobView> {
    match r {
        Reply::Success(job) => Reply::Success(job@),
        Reply::BadRequest => Reply::BadRequest,
        Reply::NotFound => Reply::NotFound,
    }
}

/// A worker asks for work: the job that is dispatched next, or 404 where
/// none waits.
pub fn next_job(queue: &mut JobQueue, req: NextJobRequest) -> (r: (Reply<Job>, Vec<StoreOp>))
    ensures
        job_reply(r.0) == (match old(queue)@.front() {
            Some(job) => Reply::Success(job),
            None => Reply::NotFound,
        }),
        final(queue)@ == old(queue)@.dispatch(req.worker_id),
        ops_view(r.1@) == old(queue)@.dispatch_writes(),
{
    let (job, writes) = queue.get_next_job(req.worker_id);
    match job {
        Some(job) => (Reply::Success(job), writes),
        None => (Reply::NotFound, writes),
    }
}

/// The liveness sweep at the present time.
pub fn check_workers(queue: &mut JobQueue) -> (writes: Vec<StoreOp>)
    ensures
        exists|now: Timestamp, order: Seq<u128>|
            {
                &&& QueueView::walks(order, old(queue)@.workers)
                &&& final(queue)@ == old(queue)@.sweep(order, now)
                &&& ops_view(writes@) == old(queue)@.sweep_writes(order, now)
            },
{
    queue.check_worker()
}

/// The schedule sweep at the present time.
pub fn check_schedules(queue: &mut JobQueue) -> (writes: Vec<StoreOp>)
    ensures
        exists|now: Timestamp, order: Seq<u128>, ids: Seq<u128>|
            {
                &&& QueueView::walks(order, old(queue)@.schedules)
                &&& ids.len() == order.len()
                &&& final(queue)@ == old(queue)@.fire_all(order, ids, now)
                &&& ops_view(writes@) == old(queue)@.fire_all_writes(order, ids, now)
            },
{
    queue.check_scheduled_jobs()
}

/// A worker reports the result of the job that the path names. A path that
/// names no id is refused with 400 and changes nothing. Any other report
/// is taken as the queue takes it, also for a job that is not registered,
/// and is answered with the result.
pub fn job_results(queue: &mut JobQueue, path_id: &str, result: JobResult) -> (r: (
    Reply<JobResult>,
    Vec<StoreOp>,
))
    ensures
        match id_of_text(path_id@) {
            Some(id) => {
                &&& r.0 matches Reply::Success(echo) && echo@ == result@
                &&& final(queue)@ == old(queue)@.report(id, result@)
                &&& ops_view(r.1@) == old(queue)@.report_writes(id, result@)
            },
            None => {
                &&& r.0 is BadRequest
                &&& final(queue)@ == old(queue)@
                &&& r.1@.len() == 0
            },
        },
{
    match parse_id(path_id) {
        Some(id) => {
            let echo = result.clone();
            let writes = queue.report_result(id, result);
            (Reply::Success(echo), writes)
        },
        None => (Reply::BadRequest, Vec::new()),
    }
}

/// What is known of the job that the path names: 400 where the path names
/// no id, 404 where the id is that of no job and no template, and else the
/// job with its result, if one is kept.
pub fn job_details(queue: &JobQueue, path_id: &str) -> (r: Reply<GetJobStatusResponse>)
    ensures
        match id_of_text(path_id@) {
            Some(id) => match queue@.status_of(id) {
                Some(details) => r matches Reply::Success(found) && found@ == details,
                None => r is NotFound,
            },
            None => r is BadRequest,
        },
{
    match parse_id(path_id) {
        Some(id) => match queue.get_job_status(id) {
            Some(details) => Reply::Success(details),
            None => Reply::NotFound,
        },
        None => Reply::BadRequest,
    }
}

/// Lists the jobs and templates, all of them or those in the status that
/// the request names.
pub fn list_jobs(queue: &JobQueue, req: SubmitJobListRequest) -> (r: Reply<GetJobListResponse>)
    ensures
        r matches Reply::Success(found) && found.list matches Some(list) && exists|
            job_order: Seq<u128>,
            schedule_order: Seq<u128>,
        |
            {
                &&& QueueView::walks(job_order, queue@.jobs)
                &&& QueueView::walks(schedule_order, queue@.schedules)
                &&& job_seq(list@) == queue@.listing(job_order, schedule_order, req.status_search)
            },
{
    Reply::Success(GetJobListResponse { list: Some(queue.get_list(req.status_search)) })
}

/// The request that a filter written as text asks for: none asks for all
/// jobs, the name of a status for the jobs in it. Any other text cannot be
/// read, and is refused with 400.
pub fn read_list_request(status_search: Option<&str>) -> (r: Reply<SubmitJobListRequest>)
    ensures
        r == (match status_search {
            None => Reply::Success(SubmitJobListRequest { status_search: None }),
            Some(text) => match JobStatus::named(text@) {
                Some(status) => Reply::Success(SubmitJobListRequest { status_search: Some(status) }),
                None => Reply::BadRequest,
            },
        }),
{
    match status_search {
        None => Reply::Success(SubmitJobListRequest { status_search: None }),
        Some(text) => match JobStatus::from_str(text) {
            Ok(status) => Reply::Success(SubmitJobListRequest { status_search: Some(status) }),
            Err(_) => Reply::BadRequest,
        },
    }
}

} // verus!
