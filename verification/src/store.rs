//! What the coordinator keeps on disk: the writes that each operation asks
//! for, and the form in which a job lies at rest.

use vstd::prelude::*;
use crate::ident::format_id;
use crate::ident::id_of_text;
use crate::ident::parse_id;
use crate::ident::text_of_id;
use crate::instant::Timestamp;
use crate::instant::format_rfc3339;
use crate::instant::opt_instant;
use crate::instant::opt_text;
use crate::instant::parse_rfc3339;
use crate::instant::rfc3339_instant;
use crate::instant::rfc3339_of;
use crate::job::Priority;
use crate::job::str_eq;
use crate::queue::job_seq;
use crate::recovery::in_order;
use crate::recovery::pending_in_order;
use crate::recovery::unfinished_in_order;
use crate::job::Job;
use crate::job::JobResult;
use crate::job::JobResultView;
use crate::job::JobStatus;
use crate::job::JobView;

verus! {

/// One write to the durable store.
#[derive(Debug, PartialEq)]
pub enum StoreOp {
    /// Add the row of a job or of a schedule template.
    InsertJob { job: Job },
    /// Add the result of a job.
    InsertResult { job_id: u128, result: JobResult },
    /// Set the status in the row of a job.
    UpdateStatus { job_id: u128, status: JobStatus },
    /// Set the number of retries in the row of a job.
    UpdateRetryCount { job_id: u128, count: u32 },
    /// Set the next firing in the row of a schedule template.
    UpdateNextRun { schedule_id: u128, next_run: Timestamp },
}

/// The mathematical value of a [`StoreOp`].
pub enum StoreOpView {
    InsertJob { job: JobView },
    InsertResult { job_id: u128, result: JobResultView },
    UpdateStatus { job_id: u128, status: JobStatus },
    UpdateRetryCount { job_id: u128, count: u32 },
    UpdateNextRun { schedule_id: u128, next_run: Timestamp },
}

impl View for StoreOp {
    type V = StoreOpView;

    open spec fn view(&self) -> StoreOpView {
        match *self {
            StoreOp::InsertJob { job } => StoreOpView::InsertJob { job: job@ },
            StoreOp::InsertResult { job_id, result } => StoreOpView::InsertResult {
                job_id,
                result: result@,
            },
            StoreOp::UpdateStatus { job_id, status } => StoreOpView::UpdateStatus {
                job_id,
                status,
            },
            StoreOp::UpdateRetryCount { job_id, count } => StoreOpView::UpdateRetryCount {
                job_id,
                count,
            },
            StoreOp::UpdateNextRun { schedule_id, next_run } => StoreOpView::UpdateNextRun {
                schedule_id,
                next_run,
            },
        }
    }
}

/// The values of a list of writes, in order.
pub open spec fn ops_view(ops: Seq<StoreOp>) -> Seq<StoreOpView> {
    Seq::new(ops.len(), |i: int| ops[i]@)
}

/// The JSON text of a list of strings, where there is one: what
/// `serde_json::to_string` writes for it.
pub uninterp spec fn json_of_args(args: Seq<Seq<char>>) -> Option<Seq<char>>;

/// The list of strings that a JSON text denotes, if it denotes one: what
/// `serde_json::from_str` reads from it as a `Vec<String>`.
pub uninterp spec fn args_of_json(text: Seq<char>) -> Option<Seq<Seq<char>>>;

/// The characters of an optional list of strings.
pub open spec fn opt_strings(v: Option<Vec<String>>) -> Option<Seq<Seq<char>>> {
    match v {
        Some(list) => Some(list.deep_view()),
        None => None,
    }
}

/// Calls `serde_json::to_string` on a list of strings. Claimed: the text is
/// a function of the strings alone, named [`json_of_args`]; an error gives
/// `None`.
#[verifier::external_body]
pub(crate) fn encode_args(args: &Vec<String>) -> (r: Option<String>)
    ensures
        opt_text(r) == json_of_args(args.deep_view()),
{
    match serde_json::to_string(args) {
        Ok(text) => Some(text),
        Err(_) => None,
    }
}

/// Calls `serde_json::from_str` for a `Vec<String>`. Claimed: the outcome is
/// a function of the text alone, named [`args_of_json`]; a text that is
/// refused gives `None`.
#[verifier::external_body]
pub(crate) fn decode_args(text: &str) -> (r: Option<Vec<String>>)
    ensures
        opt_strings(r) == args_of_json(text@),
{
    match serde_json::from_str::<Vec<String>>(text) {
        Ok(list) => Some(list),
        Err(_) => None,
    }
}

/// A job as it lies at rest: ids in their canonical text, the arguments as
/// a JSON array of strings, instants in RFC 3339, status and priority by
/// name. A job without a schedule has the text `None` in its place.
#[derive(Debug, PartialEq)]
pub struct JobRow {
    pub id: String,
    pub command: String,
    pub args: String,
    pub status: String,
    pub timestamp: String,
    pub retry_count: u32,
    pub max_retries: u32,
    pub priority: String,
    pub schedule: String,
    pub next_run: String,
    pub is_recurring: bool,
    pub parent_schedule_id: Option<String>,
}

/// The mathematical value of a [`JobRow`].
pub struct JobRowView {
    pub id: Seq<char>,
    pub command: Seq<char>,
    pub args: Seq<char>,
    pub status: Seq<char>,
    pub timestamp: Seq<char>,
    pub retry_count: u32,
    pub max_retries: u32,
    pub priority: Seq<char>,
    pub schedule: Seq<char>,
    pub next_run: Seq<char>,
    pub is_recurring: bool,
    pub parent_schedule_id: Option<Seq<char>>,
}

impl View for JobRow {
    type V = JobRowView;

    open spec fn view(&self) -> JobRowView {
        JobRowView {
            id: self.id@,
            command: self.command@,
            args: self.args@,
            status: self.status@,
            timestamp: self.timestamp@,
            retry_count: self.retry_count,
            max_retries: self.max_retries,
            priority: self.priority@,
            schedule: self.schedule@,
            next_run: self.next_run@,
            is_recurring: self.is_recurring,
            parent_schedule_id: opt_text(self.parent_schedule_id),
        }
    }
}

/// The text that stands in a row for a schedule that is absent.
pub open spec fn no_schedule() -> Seq<char> {
    "None"@
}

/// What a row holds as the schedule of a job.
pub open spec fn schedule_column(job: JobView) -> Seq<char> {
    match job.schedule {
        Some(expr) => expr,
        None => no_schedule(),
    }
}

/// What a row holds as the next run of a job: its next run, or the time of
/// writing where it has none.
pub open spec fn next_run_column(job: JobView, now: Timestamp) -> Timestamp {
    match job.next_run {
        Some(at) => at,
        None => now,
    }
}

/// What a row holds as the recurring flag of a job.
pub open spec fn recurring_column(job: JobView) -> bool {
    job.is_recurring == Some(true)
}

/// The row of a job that is written at the time `now`. `None` where the
/// arguments have no JSON text or an instant has no RFC 3339 text.
pub open spec fn row_of(job: JobView, now: Timestamp) -> Option<JobRowView> {
    let args = json_of_args(job.args);
    let timestamp = rfc3339_of(job.timestamp.secs, job.timestamp.nanos);
    let next = next_run_column(job, now);
    let next_run = rfc3339_of(next.secs, next.nanos);
    if args is Some && timestamp is Some && next_run is Some {
        Some(
            JobRowView {
                id: text_of_id(job.id),
                command: job.command,
                args: args->0,
                status: job.status.name(),
                timestamp: timestamp->0,
                retry_count: job.retry_count,
                max_retries: job.max_retries,
                priority: job.priority.name(),
                schedule: schedule_column(job),
                next_run: next_run->0,
                is_recurring: recurring_column(job),
                parent_schedule_id: match job.parent_schedule_id {
                    Some(parent) => Some(text_of_id(parent)),
                    None => None,
                },
            },
        )
    } else {
        None
    }
}

/// The value of an optional row.
pub open spec fn opt_row(row: Option<JobRow>) -> Option<JobRowView> {
    match row {
        Some(r) => Some(r@),
        None => None,
    }
}

/// The row of a job that is written at the time `now`.
pub fn job_row(job: &Job, now: Timestamp) -> (row: Option<JobRow>)
    ensures
        opt_row(row) == row_of(job@, now),
{
    let args = encode_args(&job.args);
    let timestamp = format_rfc3339(job.timestamp);
    let next = match job.next_run {
        Some(at) => at,
        None => now,
    };
    let next_run = format_rfc3339(next);
    match (args, timestamp, next_run) {
        (Some(args), Some(timestamp), Some(next_run)) => Some(
            JobRow {
                id: format_id(job.id),
                command: job.command.clone(),
                args,
                status: job.status.to_string(),
                timestamp,
                retry_count: job.retry_count,
                max_retries: job.max_retries,
                priority: job.priority.to_string(),
                schedule: match &job.schedule {
                    Some(expr) => expr.clone(),
                    None => "None".to_owned(),
                },
                next_run,
                is_recurring: match job.is_recurring {
                    Some(flag) => flag,
                    None => false,
                },
                parent_schedule_id: match job.parent_schedule_id {
                    Some(parent) => Some(format_id(parent)),
                    None => None,
                },
            },
        ),
        _ => None,
    }
}

/// Why a row makes no job.
#[derive(Clone, Copy, Debug, PartialEq, Eq, Structural)]
pub enum RowError {
    /// The id is no identifier.
    BadId,
    /// The arguments are no JSON array of strings.
    BadArgs,
    /// The status is none by name.
    BadStatus,
    /// The time of submission is no RFC 3339 instant.
    BadTimestamp,
    /// The priority is none by name.
    BadPriority,
}

/// The job that the fields of a row make, once each was read. A field that
/// could not be read where it is needed refuses the row: the id first, then
/// the arguments, the status, the time of submission and the priority. The
/// text `None` as schedule marks a job without one: it has no next run and
/// no parent and is not recurring, whatever the row holds. Any other
/// schedule is kept, with the row's flag, its next run and its parent as far
/// as they could be read.
pub open spec fn assembled(
    id: Option<u128>,
    command: Seq<char>,
    args: Option<Seq<Seq<char>>>,
    status: Option<JobStatus>,
    timestamp: Option<Timestamp>,
    retry_count: u32,
    max_retries: u32,
    priority: Option<Priority>,
    schedule: Seq<char>,
    is_recurring: bool,
    next_run: Option<Timestamp>,
    parent: Option<u128>,
) -> Result<JobView, RowError> {
    if id is None {
        Err(RowError::BadId)
    } else if args is None {
        Err(RowError::BadArgs)
    } else if status is None {
        Err(RowError::BadStatus)
    } else if timestamp is None {
        Err(RowError::BadTimestamp)
    } else if priority is None {
        Err(RowError::BadPriority)
    } else {
        let plain = schedule == no_schedule();
        Ok(
            JobView {
                id: id->0,
                command,
                args: args->0,
                status: status->0,
                timestamp: timestamp->0,
                retry_count,
                max_retries,
                priority: priority->0,
                schedule: if plain {
                    None
                } else {
                    Some(schedule)
                },
                next_run: if plain {
                    None
                } else {
                    next_run
                },
                is_recurring: Some(!plain && is_recurring),
                parent_schedule_id: if plain {
                    None
                } else {
                    parent
                },
            },
        )
    }
}

/// The value of a job or a refusal.
pub open spec fn job_result_view(r: Result<Job, RowError>) -> Result<JobView, RowError> {
    match r {
        Ok(job) => Ok(job@),
        Err(e) => Err(e),
    }
}

/// Makes a job of the fields of a row, once each was read.
pub fn assemble(
    id: Option<u128>,
    command: String,
    args: Option<Vec<String>>,
    status: Option<JobStatus>,
    timestamp: Option<Timestamp>,
    retry_count: u32,
    max_retries: u32,
    priority: Option<Priority>,
    schedule: String,
    is_recurring: bool,
    next_run: Option<Timestamp>,
    parent: Option<u128>,
) -> (r: Result<Job, RowError>)
    ensures
        job_result_view(r) == assembled(
            id,
            command@,
            opt_strings(args),
            status,
            timestamp,
            retry_count,
            max_retries,
            priority,
            schedule@,
            is_recurring,
            next_run,
            parent,
        ),
{
    let id = match id {
        Some(id) => id,
        None => return Err(RowError::BadId),
    };
    let args = match args {
        Some(args) => args,
        None => return Err(RowError::BadArgs),
    };
    let status = match status {
        Some(status) => status,
        None => return Err(RowError::BadStatus),
    };
    let timestamp = match timestamp {
        Some(timestamp) => timestamp,
        None => return Err(RowError::BadTimestamp),
    };
    let priority = match priority {
        Some(priority) => priority,
        None => return Err(RowError::BadPriority),
    };
    let plain = str_eq(schedule.as_str(), "None");
    Ok(
        Job {
            id,
            command,
            args,
            status,
            timestamp,
            retry_count,
            max_retries,
            priority,
            schedule: if plain {
                None
            } else {
                Some(schedule)
            },
            next_run: if plain {
                None
            } else {
                next_run
            },
            is_recurring: Some(!plain && is_recurring),
            parent_schedule_id: if plain {
                None
            } else {
                parent
            },
        },
    )
}

/// The job that a row makes: each field read, and the fields assembled.
pub open spec fn job_of_row(row: JobRowView) -> Result<JobView, RowError> {
    assembled(
        id_of_text(row.id),
        row.command,
        args_of_json(row.args),
        JobStatus::named(row.status),
        opt_instant(rfc3339_instant(row.timestamp)),
        row.retry_count,
        row.max_retries,
        Priority::named(row.priority),
        row.schedule,
        row.is_recurring,
        opt_instant(rfc3339_instant(row.next_run)),
        match row.parent_schedule_id {
            Some(text) => id_of_text(text),
            None => None,
        },
    )
}

/// Makes a job of a row.
pub fn job_from_row(row: &JobRow) -> (r: Result<Job, RowError>)
    ensures
        job_result_view(r) == job_of_row(row@),
{
    let status = match JobStatus::from_str(row.status.as_str()) {
        Ok(status) => Some(status),
        Err(_) => None,
    };
    let priority = match Priority::from_str(row.priority.as_str()) {
        Ok(priority) => Some(priority),
        Err(_) => None,
    };
    let parent = match &row.parent_schedule_id {
        Some(text) => parse_id(text.as_str()),
        None => None,
    };
    assemble(
        parse_id(row.id.as_str()),
        row.command.clone(),
        decode_args(row.args.as_str()),
        status,
        parse_rfc3339(row.timestamp.as_str()),
        row.retry_count,
        row.max_retries,
        priority,
        row.schedule.clone(),
        row.is_recurring,
        parse_rfc3339(row.next_run.as_str()),
        parent,
    )
}

/// The values of a list of rows, in order.
pub open spec fn rows_view(rows: Seq<JobRow>) -> Seq<JobRowView> {
    Seq::new(rows.len(), |i: int| rows[i]@)
}

/// The jobs that a list of rows makes, in order; the first row that makes
/// none refuses the list.
pub open spec fn jobs_of_rows(rows: Seq<JobRowView>) -> Result<Seq<JobView>, RowError>
    decreases rows.len(),
{
    if rows.len() == 0 {
        Ok(Seq::empty())
    } else {
        match jobs_of_rows(rows.drop_last()) {
            Ok(jobs) => match job_of_row(rows.last()) {
                Ok(job) => Ok(jobs.push(job)),
                Err(e) => Err(e),
            },
            Err(e) => Err(e),
        }
    }
}

/// The values of a list of jobs or a refusal.
pub open spec fn jobs_result_view(r: Result<Vec<Job>, RowError>) -> Result<Seq<JobView>, RowError> {
    match r {
        Ok(jobs) => Ok(job_seq(jobs@)),
        Err(e) => Err(e),
    }
}

/// The jobs that are taken up again at start-up, from the rows of the
/// store: those that were pending or running, in the order of submission.
/// A row that makes no job refuses them all.
pub open spec fn loaded(rows: Seq<JobRowView>) -> Result<Seq<JobView>, RowError> {
    match jobs_of_rows(rows) {
        Ok(jobs) => Ok(pending_in_order(jobs)),
        Err(e) => Err(e),
    }
}

/// Makes the jobs that are taken up again at start-up, from the rows of
/// the store.
pub fn load_pending_jobs(rows: &Vec<JobRow>) -> (r: Result<Vec<Job>, RowError>)
    ensures
        jobs_result_view(r) == loaded(rows_view(rows@)),
        r matches Ok(jobs) ==> in_order(job_seq(jobs@)),
{
    match jobs_from_rows(rows) {
        Ok(jobs) => Ok(unfinished_in_order(&jobs)),
        Err(e) => Err(e),
    }
}

/// Makes the jobs of a list of rows, in order.
pub fn jobs_from_rows(rows: &Vec<JobRow>) -> (r: Result<Vec<Job>, RowError>)
    ensures
        jobs_result_view(r) == jobs_of_rows(rows_view(rows@)),
{
    let mut jobs: Vec<Job> = Vec::new();
    let mut i: usize = 0;
    assert(rows_view(rows@).take(0) =~= Seq::empty());
    assert(job_seq(jobs@) =~= Seq::<JobView>::empty());
    while i < rows.len()
        invariant
            i <= rows.len(),
            jobs_of_rows(rows_view(rows@).take(i as int)) == Ok::<Seq<JobView>, RowError>(
                job_seq(jobs@),
            ),
        decreases rows.len() - i,
    {
        proof {
            let upto = rows_view(rows@).take(i + 1);
            assert(upto.drop_last() =~= rows_view(rows@).take(i as int));
            assert(upto.last() == rows@[i as int]@);
        }
        match job_from_row(&rows[i]) {
            Ok(job) => {
                let ghost before = job_seq(jobs@);
                jobs.push(job);
                assert(job_seq(jobs@) =~= before.push(job@));
            },
            Err(e) => {
                proof {
                    lemma_refusal_stays(rows_view(rows@), i + 1);
                }
                return Err(e);
            },
        }
        i += 1;
    }
    assert(rows_view(rows@).take(rows.len() as int) =~= rows_view(rows@));
    Ok(jobs)
}

/// A list of rows of which a first part is refused is refused for the same
/// reason.
proof fn lemma_refusal_stays(rows: Seq<JobRowView>, k: int)
    requires
        0 <= k <= rows.len(),
        jobs_of_rows(rows.take(k)) is Err,
    ensures
        jobs_of_rows(rows) == jobs_of_rows(rows.take(k)),
    decreases rows.len() - k,
{
    if k == rows.len() {
        assert(rows.take(k) =~= rows);
    } else {
        assert(rows.take(k + 1).drop_last() =~= rows.take(k));
        lemma_refusal_stays(rows, k + 1);
    }
}

/// A job survives being written and read back as it was: it has a flag
/// that says whether it recurs; without a schedule it has no next run and
/// no parent and does not recur; with one, the schedule is not the text
/// `None` and the job has a next run.
pub open spec fn survives_reload(job: JobView) -> bool {
    match job.schedule {
        None => job.next_run is None && job.parent_schedule_id is None && job.is_recurring
            == Some(false),
        Some(expr) => expr != no_schedule() && job.next_run is Some && job.is_recurring is Some,
    }
}

/// A job that survives being written and read back is made again, field
/// for field, of what its row holds, where each text in the row is read
/// back as the value that was written.
pub proof fn law_fields_round_trip(job: JobView, now: Timestamp)
    requires
        survives_reload(job),
    ensures
        assembled(
            Some(job.id),
            job.command,
            Some(job.args),
            Some(job.status),
            Some(job.timestamp),
            job.retry_count,
            job.max_retries,
            Some(job.priority),
            schedule_column(job),
            recurring_column(job),
            Some(next_run_column(job, now)),
            job.parent_schedule_id,
        ) == Ok::<JobView, RowError>(job),
{
    let made = assembled(
        Some(job.id),
        job.command,
        Some(job.args),
        Some(job.status),
        Some(job.timestamp),
        job.retry_count,
        job.max_retries,
        Some(job.priority),
        schedule_column(job),
        recurring_column(job),
        Some(next_run_column(job, now)),
        job.parent_schedule_id,
    );
    assert(made is Ok);
    assert(made->Ok_0.schedule == job.schedule);
    assert(made->Ok_0.next_run == job.next_run);
    assert(made->Ok_0.is_recurring == job.is_recurring);
    assert(made->Ok_0.parent_schedule_id == job.parent_schedule_id);
}

/// One write as the store takes it: every value in the form in which it
/// lies at rest.
#[derive(Debug, PartialEq)]
pub enum Statement {
    InsertJob { row: JobRow },
    InsertResult { id: String, exitcode: i32, stdout: String, stderr: String },
    UpdateStatus { status: String, id: String },
    UpdateRetryCount { count: u32, id: String },
    UpdateNextRun { next_run: String, id: String },
}

/// The mathematical value of a [`Statement`].
pub enum StatementView {
    InsertJob { row: JobRowView },
    InsertResult { id: Seq<char>, exitcode: i32, stdout: Seq<char>, stderr: Seq<char> },
    UpdateStatus { status: Seq<char>, id: Seq<char> },
    UpdateRetryCount { count: u32, id: Seq<char> },
    UpdateNextRun { next_run: Seq<char>, id: Seq<char> },
}

impl View for Statement {
    type V = StatementView;

    open spec fn view(&self) -> StatementView {
        match *self {
            Statement::InsertJob { row } => StatementView::InsertJob { row: row@ },
            Statement::InsertResult { id, exitcode, stdout, stderr } => StatementView::InsertResult {
                id: id@,
                exitcode,
                stdout: stdout@,
                stderr: stderr@,
            },
            Statement::UpdateStatus { status, id } => StatementView::UpdateStatus {
                status: status@,
                id: id@,
            },
            Statement::UpdateRetryCount { count, id } => StatementView::UpdateRetryCount {
                count,
                id: id@,
            },
            Statement::UpdateNextRun { next_run, id } => StatementView::UpdateNextRun {
                next_run: next_run@,
                id: id@,
            },
        }
    }
}

/// The statement of a write that is made at the time `now`. `None` where a
/// value of the write has no text: the arguments of a job no JSON, an
/// instant no RFC 3339.
pub open spec fn statement_of(op: StoreOpView, now: Timestamp) -> Option<StatementView> {
    match op {
        StoreOpView::InsertJob { job } => match row_of(job, now) {
            Some(row) => Some(StatementView::InsertJob { row }),
            None => None,
        },
        StoreOpView::InsertResult { job_id, result } => Some(
            StatementView::InsertResult {
                id: text_of_id(job_id),
                exitcode: result.exitcode,
                stdout: result.stdout,
                stderr: result.stderr,
            },
        ),
        StoreOpView::UpdateStatus { job_id, status } => Some(
            StatementView::UpdateStatus { status: status.name(), id: text_of_id(job_id) },
        ),
        StoreOpView::UpdateRetryCount { job_id, count } => Some(
            StatementView::UpdateRetryCount { count, id: text_of_id(job_id) },
        ),
        StoreOpView::UpdateNextRun { schedule_id, next_run } => match rfc3339_of(
            next_run.secs,
            next_run.nanos,
        ) {
            Some(text) => Some(
                StatementView::UpdateNextRun { next_run: text, id: text_of_id(schedule_id) },
            ),
            None => None,
        },
    }
}

/// The value of an optional statement.
pub open spec fn opt_statement(st: Option<Statement>) -> Option<StatementView> {
    match st {
        Some(s) => Some(s@),
        None => None,
    }
}

/// The statement that adds the row of a job, written at the time `now`.
/// `None` where the arguments have no JSON text or an instant has no
/// RFC 3339 text.
pub fn insert_job(job: &Job, now: Timestamp) -> (st: Option<Statement>)
    ensures
        opt_statement(st) == statement_of(StoreOpView::InsertJob { job: job@ }, now),
{
    match job_row(job, now) {
        Some(row) => Some(Statement::InsertJob { row }),
        None => None,
    }
}

/// The statement that adds the result of a job.
pub fn insert_results(job_id: u128, results: &JobResult) -> (st: Statement)
    ensures
        st@ == (StatementView::InsertResult {
            id: text_of_id(job_id),
            exitcode: results.exitcode,
            stdout: results.stdout@,
            stderr: results.stderr@,
        }),
{
    Statement::InsertResult {
        id: format_id(job_id),
        exitcode: results.exitcode,
        stdout: results.stdout.clone(),
        stderr: results.stderr.clone(),
    }
}

/// The statement that sets the next run of a schedule template. `None`
/// where the instant has no RFC 3339 text.
pub fn update_schedule_run(id: u128, next_run: Timestamp) -> (st: Option<Statement>)
    ensures
        opt_statement(st) == (match rfc3339_of(next_run.secs, next_run.nanos) {
            Some(text) => Some(StatementView::UpdateNextRun { next_run: text, id: text_of_id(id) }),
            None => None,
        }),
{
    match format_rfc3339(next_run) {
        Some(text) => Some(Statement::UpdateNextRun { next_run: text, id: format_id(id) }),
        None => None,
    }
}

/// The statement that sets the status of a job.
pub fn update_job_status(job_id: u128, status: JobStatus) -> (st: Statement)
    ensures
        st@ == (StatementView::UpdateStatus { status: status.name(), id: text_of_id(job_id) }),
{
    Statement::UpdateStatus { status: status.to_string(), id: format_id(job_id) }
}

/// The statement that sets the number of retries of a job.
pub fn update_retry_count(job_id: u128, count: u32) -> (st: Statement)
    ensures
        st@ == (StatementView::UpdateRetryCount { count, id: text_of_id(job_id) }),
{
    Statement::UpdateRetryCount { count, id: format_id(job_id) }
}

/// The statement of a write that is made at the time `now`.
pub fn statement(op: &StoreOp, now: Timestamp) -> (st: Option<Statement>)
    ensures
        opt_statement(st) == statement_of(op@, now),
{
    match op {
        StoreOp::InsertJob { job } => insert_job(job, now),
        StoreOp::InsertResult { job_id, result } => Some(insert_results(*job_id, result)),
        StoreOp::UpdateStatus { job_id, status } => Some(update_job_status(*job_id, *status)),
        StoreOp::UpdateRetryCount { job_id, count } => Some(update_retry_count(*job_id, *count)),
        StoreOp::UpdateNextRun { schedule_id, next_run } => update_schedule_run(
            *schedule_id,
            *next_run,
        ),
    }
}

} // verus!
