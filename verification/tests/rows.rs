use job_scheduler::instant::Timestamp;
use job_scheduler::job::Job;
use job_scheduler::job::JobResult;
use job_scheduler::job::JobStatus;
use job_scheduler::job::Priority;
use job_scheduler::recovery::unfinished_in_order;
use job_scheduler::store::assemble;
use job_scheduler::store::job_from_row;
use job_scheduler::store::job_row;
use job_scheduler::store::jobs_from_rows;
use job_scheduler::store::load_pending_jobs;
use job_scheduler::store::statement;
use job_scheduler::store::JobRow;
use job_scheduler::store::RowError;
use job_scheduler::store::Statement;
use job_scheduler::store::StoreOp;

const W0: i64 = 1_704_067_200;

fn w_job() -> Job {
    Job {
        id: 1,
        command: "echo".to_string(),
        args: vec!["hi".to_string(), "a \"b\"".to_string()],
        status: JobStatus::RUNNING,
        timestamp: Timestamp::new(W0, 0),
        retry_count: 2,
        max_retries: 3,
        priority: Priority::MEDIUM,
        schedule: None,
        next_run: None,
        is_recurring: Some(false),
        parent_schedule_id: None,
    }
}

fn w_template() -> Job {
    Job {
        id: 0xffff_ffff_ffff_ffff_ffff_ffff_ffff_ffff,
        command: "tick".to_string(),
        args: vec![],
        status: JobStatus::PENDING,
        timestamp: Timestamp::new(W0, 123_000_000),
        retry_count: 0,
        max_retries: 3,
        priority: Priority::HIGH,
        schedule: Some("0 */5 * * * *".to_string()),
        next_run: Some(Timestamp::new(W0 + 300, 0)),
        is_recurring: Some(true),
        parent_schedule_id: None,
    }
}

fn w_row() -> JobRow {
    JobRow {
        id: "00000000-0000-0000-0000-000000000001".to_string(),
        command: "echo".to_string(),
        args: "[\"hi\",\"a \\\"b\\\"\"]".to_string(),
        status: "RUNNING".to_string(),
        timestamp: "2024-01-01T00:00:00+00:00".to_string(),
        retry_count: 2,
        max_retries: 3,
        priority: "MEDIUM".to_string(),
        schedule: "None".to_string(),
        next_run: "2024-01-01T00:00:07.000000005+00:00".to_string(),
        is_recurring: false,
        parent_schedule_id: None,
    }
}

#[test]
fn row_of_a_concrete_job() {
    let now = Timestamp::new(W0 + 7, 5);
    assert_eq!(job_row(&w_job(), now), Some(w_row()));
}

#[test]
fn row_of_a_template() {
    let row = job_row(&w_template(), Timestamp::new(W0, 0)).unwrap();
    assert_eq!(row.id, "ffffffff-ffff-ffff-ffff-ffffffffffff");
    assert_eq!(row.args, "[]");
    assert_eq!(row.status, "PENDING");
    assert_eq!(row.timestamp, "2024-01-01T00:00:00.123+00:00");
    assert_eq!(row.priority, "HIGH");
    assert_eq!(row.schedule, "0 */5 * * * *");
    assert_eq!(row.next_run, "2024-01-01T00:05:00+00:00");
    assert!(row.is_recurring);
    assert_eq!(row.parent_schedule_id, None);
}

#[test]
fn row_of_a_materialized_job_names_its_parent() {
    let mut job = w_job();
    job.is_recurring = None;
    job.parent_schedule_id = Some(0x10);
    let row = job_row(&job, Timestamp::new(W0, 0)).unwrap();
    assert_eq!(row.parent_schedule_id, Some("00000000-0000-0000-0000-000000000010".to_string()));
    assert!(!row.is_recurring);
    assert_eq!(row.schedule, "None");
}

#[test]
fn job_with_an_instant_without_text_has_no_row() {
    let mut job = w_job();
    job.timestamp = Timestamp::new(i64::MAX, 0);
    assert_eq!(job_row(&job, Timestamp::new(W0, 0)), None);
    let mut job = w_job();
    job.next_run = Some(Timestamp::new(W0, 2_000_000_000));
    assert_eq!(job_row(&job, Timestamp::new(W0, 0)), None);
    assert_eq!(job_row(&w_job(), Timestamp::new(i64::MIN, 0)), None);
    assert!(job_row(&w_template(), Timestamp::new(i64::MIN, 0)).is_some());
}

#[test]
fn job_of_a_row() {
    assert_eq!(job_from_row(&w_row()), Ok(w_job()));
}

#[test]
fn written_jobs_are_read_back() {
    let now = Timestamp::new(W0 + 1, 0);
    for job in [w_job(), w_template()] {
        let row = job_row(&job, now).unwrap();
        assert_eq!(job_from_row(&row), Ok(job));
    }
}

#[test]
fn sentinel_clears_what_belongs_to_a_schedule() {
    let mut row = w_row();
    row.is_recurring = true;
    row.parent_schedule_id = Some("00000000-0000-0000-0000-000000000010".to_string());
    let job = job_from_row(&row).unwrap();
    assert_eq!(job.schedule, None);
    assert_eq!(job.next_run, None);
    assert_eq!(job.is_recurring, Some(false));
    assert_eq!(job.parent_schedule_id, None);
}

#[test]
fn row_with_a_schedule_keeps_what_can_be_read() {
    let mut row = w_row();
    row.schedule = "0 * * * * *".to_string();
    row.is_recurring = true;
    row.next_run = "2024-01-01T01:00:00.5+01:00".to_string();
    row.parent_schedule_id = Some("00000000-0000-0000-0000-000000000010".to_string());
    let job = job_from_row(&row).unwrap();
    assert_eq!(job.schedule, Some("0 * * * * *".to_string()));
    assert_eq!(job.next_run, Some(Timestamp::new(W0, 500_000_000)));
    assert_eq!(job.is_recurring, Some(true));
    assert_eq!(job.parent_schedule_id, Some(0x10));
    row.next_run = "tomorrow".to_string();
    row.parent_schedule_id = Some("nobody".to_string());
    row.is_recurring = false;
    let job = job_from_row(&row).unwrap();
    assert_eq!(job.next_run, None);
    assert_eq!(job.parent_schedule_id, None);
    assert_eq!(job.is_recurring, Some(false));
}

#[test]
fn each_unreadable_field_refuses_the_row() {
    let mut row = w_row();
    row.priority = "low".to_string();
    assert_eq!(job_from_row(&row), Err(RowError::BadPriority));
    row.timestamp = "2024-01-01 00:00:00".to_string();
    assert_eq!(job_from_row(&row), Err(RowError::BadTimestamp));
    row.status = "Running".to_string();
    assert_eq!(job_from_row(&row), Err(RowError::BadStatus));
    row.args = "[1, 2]".to_string();
    assert_eq!(job_from_row(&row), Err(RowError::BadArgs));
    row.id = "1".to_string();
    assert_eq!(job_from_row(&row), Err(RowError::BadId));
}

#[test]
fn fields_are_assembled() {
    let made = assemble(
        Some(1),
        "echo".to_string(),
        Some(vec!["hi".to_string(), "a \"b\"".to_string()]),
        Some(JobStatus::RUNNING),
        Some(Timestamp::new(W0, 0)),
        2,
        3,
        Some(Priority::MEDIUM),
        "None".to_string(),
        true,
        Some(Timestamp::new(W0, 0)),
        Some(4),
    );
    assert_eq!(made, Ok(w_job()));
    let refused = assemble(None, String::new(), None, None, None, 0, 0, None, String::new(), false, None, None);
    assert_eq!(refused, Err(RowError::BadId));
    let refused = assemble(Some(1), String::new(), Some(vec![]), None, None, 0, 0, None, String::new(), false, None, None);
    assert_eq!(refused, Err(RowError::BadStatus));
}

#[test]
fn pending_jobs_are_loaded_in_order() {
    let mut second = w_row();
    second.id = "00000000-0000-0000-0000-000000000002".to_string();
    second.status = "PENDING".to_string();
    let rows = vec![w_row(), second];
    let jobs = load_pending_jobs(&rows).unwrap();
    assert_eq!(jobs.len(), 2);
    assert_eq!(jobs[0], w_job());
    assert_eq!(jobs[1].id, 2);
    assert_eq!(jobs[1].status, JobStatus::PENDING);
    assert_eq!(load_pending_jobs(&vec![]), Ok(vec![]));
}

#[test]
fn only_pending_and_running_jobs_are_loaded_oldest_first() {
    let mut rows = Vec::new();
    for (n, status, timestamp) in [
        (1u8, "PENDING", "2024-01-01T00:00:05+00:00"),
        (2, "COMPLETED", "2024-01-01T00:00:01+00:00"),
        (3, "RUNNING", "2024-01-01T00:00:02.5+00:00"),
        (4, "RETRYING", "2024-01-01T00:00:00+00:00"),
        (5, "PENDING", "2024-01-01T01:00:02+01:00"),
        (6, "RUNNING", "2024-01-01T00:00:05+00:00"),
        (7, "FAILED", "2024-01-01T00:00:03+00:00"),
        (8, "CANCELED", "2024-01-01T00:00:03+00:00"),
        (9, "PENDING", "2023-12-31T23:59:59.999999999+00:00"),
    ] {
        let mut row = w_row();
        row.id = format!("00000000-0000-0000-0000-00000000000{}", n);
        row.status = status.to_string();
        row.timestamp = timestamp.to_string();
        rows.push(row);
    }
    let all = jobs_from_rows(&rows).unwrap();
    assert_eq!(all.iter().map(|j| j.id).collect::<Vec<u128>>(), vec![1, 2, 3, 4, 5, 6, 7, 8, 9]);
    let jobs = load_pending_jobs(&rows).unwrap();
    assert_eq!(jobs.iter().map(|j| j.id).collect::<Vec<u128>>(), vec![9, 5, 3, 1, 6]);
    assert_eq!(jobs[2].status, JobStatus::RUNNING);
    assert_eq!(jobs[1].timestamp, Timestamp::new(W0 + 2, 0));
}

#[test]
fn jobs_submitted_at_the_same_instant_keep_their_order() {
    let mut jobs = Vec::new();
    for (id, secs, nanos) in [(1u128, 5i64, 0u32), (2, 5, 0), (3, 4, 999_999_999), (4, 5, 0), (5, -1, 0), (6, 4, 999_999_999)] {
        let mut job = w_job();
        job.id = id;
        job.timestamp = Timestamp::new(secs, nanos);
        jobs.push(job);
    }
    let ordered = unfinished_in_order(&jobs);
    assert_eq!(ordered.iter().map(|j| j.id).collect::<Vec<u128>>(), vec![5, 3, 6, 1, 2, 4]);
    assert!(unfinished_in_order(&vec![]).is_empty());
}

#[test]
fn first_unreadable_row_refuses_the_load() {
    let mut bad_status = w_row();
    bad_status.status = "?".to_string();
    let mut bad_id = w_row();
    bad_id.id = "?".to_string();
    assert_eq!(load_pending_jobs(&vec![w_row(), bad_status, bad_id]), Err(RowError::BadStatus));
}

#[test]
fn statements_carry_values_as_they_lie_at_rest() {
    let now = Timestamp::new(W0 + 7, 5);
    assert_eq!(statement(&StoreOp::InsertJob { job: w_job() }, now), Some(Statement::InsertJob { row: w_row() }));
    assert_eq!(
        statement(
            &StoreOp::InsertResult {
                job_id: 1,
                result: JobResult { exitcode: -9, stdout: "o".to_string(), stderr: "e".to_string() },
            },
            now
        ),
        Some(Statement::InsertResult {
            id: "00000000-0000-0000-0000-000000000001".to_string(),
            exitcode: -9,
            stdout: "o".to_string(),
            stderr: "e".to_string(),
        })
    );
    assert_eq!(
        statement(&StoreOp::UpdateStatus { job_id: 0xab, status: JobStatus::RETRYING }, now),
        Some(Statement::UpdateStatus {
            status: "RETRYING".to_string(),
            id: "00000000-0000-0000-0000-0000000000ab".to_string(),
        })
    );
    assert_eq!(
        statement(&StoreOp::UpdateRetryCount { job_id: 1, count: 3 }, now),
        Some(Statement::UpdateRetryCount { count: 3, id: "00000000-0000-0000-0000-000000000001".to_string() })
    );
    assert_eq!(
        statement(&StoreOp::UpdateNextRun { schedule_id: 1, next_run: Timestamp::new(W0 + 60, 0) }, now),
        Some(Statement::UpdateNextRun {
            next_run: "2024-01-01T00:01:00+00:00".to_string(),
            id: "00000000-0000-0000-0000-000000000001".to_string(),
        })
    );
    assert_eq!(statement(&StoreOp::UpdateNextRun { schedule_id: 1, next_run: Timestamp::new(i64::MIN, 0) }, now), None);
}

#[test]
fn instants_are_compared_on_the_time_line() {
    let a = Timestamp::new(10, 999_999_999);
    let b = Timestamp::new(11, 0);
    assert_eq!(b.since(&a), 1);
    assert_eq!(a.since(&b), -1);
    assert_eq!(Timestamp::new(-1, 500_000_000).since(&Timestamp::new(0, 0)), -500_000_000);
    assert_eq!(
        Timestamp::new(i64::MAX, u32::MAX).since(&Timestamp::new(i64::MIN, 0)),
        (i64::MAX as i128 - i64::MIN as i128) * 1_000_000_000 + u32::MAX as i128
    );
    assert!(Timestamp::new(253_402_300_799, 999_999_999).check_civil());
    assert!(!Timestamp::new(253_402_300_800, 0).check_civil());
    assert!(Timestamp::new(-62_167_219_200, 0).check_civil());
    assert!(!Timestamp::new(-62_167_219_201, 0).check_civil());
    assert!(!Timestamp::new(0, 1_000_000_000).check_civil());
}
