use job_scheduler::api::enter_job;
use job_scheduler::api::plan_job;
use job_scheduler::instant::Timestamp;
use job_scheduler::job::Job;
use job_scheduler::job::JobResult;
use job_scheduler::job::JobStatus;
use job_scheduler::job::Priority;
use job_scheduler::message::SubmitJobRequest;
use job_scheduler::message::WorkerInfo;
use job_scheduler::message::WorkerStatus;
use job_scheduler::queue::JobQueue;
use job_scheduler::store::load_pending_jobs;
use job_scheduler::store::statement;
use job_scheduler::store::JobRow;
use job_scheduler::store::Statement;
use job_scheduler::store::StoreOp;

const START: i64 = 1_704_067_200;

fn p_at(secs: i64) -> Timestamp {
    Timestamp::new(START + secs, 0)
}

fn p_request(command: &str, priority: Priority, schedule: Option<&str>) -> SubmitJobRequest {
    SubmitJobRequest {
        command: command.to_string(),
        args: vec!["x".to_string(), "y z".to_string()],
        priority: Some(priority),
        schedule: schedule.map(|s| s.to_string()),
    }
}

fn p_worker(id: u128) -> WorkerInfo {
    WorkerInfo {
        worker_id: id,
        hostname: "h".to_string(),
        last_seen: p_at(0),
        status: WorkerStatus::ALIVE,
        current_job_id: None,
    }
}

fn p_result(exitcode: i32) -> JobResult {
    JobResult { exitcode, stdout: String::new(), stderr: String::new() }
}

/// The ids that wait, over the three queues, in the order of dispatch.
fn p_waiting(q: &JobQueue) -> Vec<u128> {
    let mut ids = Vec::new();
    for priority in [Priority::HIGH, Priority::MEDIUM, Priority::LOW] {
        for job in q.pending_jobs(priority) {
            ids.push(job.id);
        }
    }
    ids
}

/// The queues hold exactly the registered jobs that are pending or
/// retrying, each once; no job is beyond its retries; templates and
/// concrete jobs are apart.
fn p_check(q: &JobQueue) {
    let mut waiting = p_waiting(q);
    waiting.sort();
    let mut once = waiting.clone();
    once.dedup();
    assert_eq!(waiting, once, "an id waits twice");
    let mut pending = Vec::new();
    for job in q.get_list(None) {
        assert!(job.retry_count <= job.max_retries);
        if job.schedule.is_some() {
            assert_eq!(job.is_recurring, Some(true));
            assert_eq!(job.parent_schedule_id, None);
            assert!(!job.schedule.as_ref().unwrap().is_empty());
        } else {
            assert_ne!(job.is_recurring, Some(true));
            if job.status == JobStatus::PENDING || job.status == JobStatus::RETRYING {
                pending.push(job.id);
            }
        }
    }
    pending.sort();
    assert_eq!(waiting, pending);
}

fn p_may_become(from: JobStatus, to: JobStatus) -> bool {
    from == to
        || matches!(
            (from, to),
            (JobStatus::PENDING, JobStatus::RUNNING)
                | (JobStatus::RUNNING, JobStatus::COMPLETED)
                | (JobStatus::RUNNING, JobStatus::FAILED)
                | (JobStatus::RUNNING, JobStatus::RETRYING)
                | (JobStatus::RETRYING, JobStatus::RUNNING)
        )
}

fn p_statuses(q: &JobQueue) -> Vec<(u128, JobStatus)> {
    q.get_list(None).iter().map(|j| (j.id, j.status)).collect()
}

fn p_check_steps(before: &[(u128, JobStatus)], q: &JobQueue) {
    for (id, status) in before {
        let now = q.get_job(*id).expect("a job has left the registry").status;
        assert!(p_may_become(*status, now), "{:?} became {:?}", status, now);
    }
}

#[test]
fn queues_and_registry_agree_through_a_run() {
    let mut q = JobQueue::empty();
    p_check(&q);
    let mut next_id = 1u128;
    for round in 0..6i64 {
        for priority in [Priority::LOW, Priority::HIGH, Priority::MEDIUM] {
            let job = plan_job(&p_request("c", priority, None), next_id, p_at(round));
            next_id += 1;
            q.add_job(job);
            p_check(&q);
        }
        let before = p_statuses(&q);
        let (a, _) = q.get_next_job(1);
        let (b, _) = q.get_next_job(2);
        p_check(&q);
        p_check_steps(&before, &q);
        let before = p_statuses(&q);
        q.report_result(a.unwrap().id, p_result(round as i32 % 2));
        p_check(&q);
        q.report_result(b.unwrap().id, p_result(1));
        p_check(&q);
        q.report_result(999_999, p_result(1));
        p_check(&q);
        p_check_steps(&before, &q);
    }
    while let (Some(job), _) = q.get_next_job(3) {
        let before = p_statuses(&q);
        q.report_result(job.id, p_result(7));
        p_check(&q);
        p_check_steps(&before, &q);
    }
    assert!(p_waiting(&q).is_empty());
    for job in q.get_list(None) {
        assert!(job.status == JobStatus::COMPLETED || job.status == JobStatus::FAILED);
        if job.status == JobStatus::FAILED {
            assert_eq!(job.retry_count, 3);
        }
    }
}

#[test]
fn sweeps_keep_queues_and_registry_in_agreement() {
    let mut q = JobQueue::empty();
    for id in 1..=6u128 {
        q.register_worker_at(p_worker(100 + id), p_at(0));
        q.add_job(plan_job(&p_request("c", Priority::MEDIUM, None), id, p_at(0)));
    }
    enter_job(&mut q, plan_job(&p_request("t", Priority::HIGH, Some("* * * * * *")), 50, p_at(0)));
    enter_job(&mut q, plan_job(&p_request("u", Priority::LOW, Some("0 0 * * *")), 51, p_at(0)));
    p_check(&q);
    for id in 1..=4u128 {
        q.get_next_job(100 + id);
    }
    q.check_scheduled_jobs_at(p_at(0));
    p_check(&q);
    q.check_worker_at(p_at(30));
    p_check(&q);
    q.check_worker_at(p_at(61));
    p_check(&q);
    for id in 1..=6u128 {
        let w = q.get_worker(100 + id).unwrap();
        assert_eq!(w.status, WorkerStatus::DEAD);
        assert_eq!(w.current_job_id, None);
    }
    q.check_scheduled_jobs_at(p_at(61));
    q.check_scheduled_jobs_at(p_at(62));
    p_check(&q);
    assert_eq!(q.pending_jobs(Priority::HIGH).len(), 2);
    assert_eq!(q.pending_jobs(Priority::MEDIUM).len(), 6);
    for job in q.pending_jobs(Priority::HIGH) {
        assert_eq!(job.parent_schedule_id, Some(50));
        assert_eq!(job.schedule, None);
        assert_eq!(job.is_recurring, None);
    }
}

#[test]
fn no_alive_worker_is_stale_after_the_sweep() {
    let mut q = JobQueue::empty();
    for (id, seen) in [(1u128, 0i64), (2, 10), (3, 39), (4, 40), (5, 41), (6, 100), (7, 200)] {
        q.register_worker_at(p_worker(id), p_at(seen));
    }
    let now = p_at(100);
    q.check_worker_at(now);
    for id in 1..=7u128 {
        let w = q.get_worker(id).unwrap();
        if w.status == WorkerStatus::ALIVE {
            assert!(now.since(&w.last_seen) <= 60_000_000_000);
        } else {
            assert_eq!(w.current_job_id, None);
        }
        assert_eq!(w.status == WorkerStatus::DEAD, id <= 3);
    }
}

/// The table of jobs, as a store would hold it.
fn p_write(table: &mut Vec<JobRow>, writes: &[StoreOp], now: Timestamp) {
    for op in writes {
        match statement(op, now).expect("a write has no text") {
            Statement::InsertJob { row } => {
                assert!(table.iter().all(|r| r.id != row.id));
                table.push(row);
            }
            Statement::InsertResult { .. } => {}
            Statement::UpdateStatus { status, id } => {
                for row in table.iter_mut().filter(|r| r.id == id) {
                    row.status = status.clone();
                }
            }
            Statement::UpdateRetryCount { count, id } => {
                for row in table.iter_mut().filter(|r| r.id == id) {
                    row.retry_count = count;
                }
            }
            Statement::UpdateNextRun { next_run, id } => {
                for row in table.iter_mut().filter(|r| r.id == id) {
                    row.next_run = next_run.clone();
                }
            }
        }
    }
}

fn p_select_pending(table: &[JobRow]) -> Vec<JobRow> {
    let mut rows: Vec<JobRow> = Vec::new();
    for r in table.iter().filter(|r| r.status == "PENDING" || r.status == "RUNNING") {
        rows.push(JobRow {
            id: r.id.clone(),
            command: r.command.clone(),
            args: r.args.clone(),
            status: r.status.clone(),
            timestamp: r.timestamp.clone(),
            retry_count: r.retry_count,
            max_retries: r.max_retries,
            priority: r.priority.clone(),
            schedule: r.schedule.clone(),
            next_run: r.next_run.clone(),
            is_recurring: r.is_recurring,
            parent_schedule_id: r.parent_schedule_id.clone(),
        });
    }
    rows.sort_by(|a, b| a.timestamp.cmp(&b.timestamp));
    rows
}

#[test]
fn persist_then_reload() {
    let mut q = JobQueue::empty();
    let mut table: Vec<JobRow> = Vec::new();
    let mut submitted: Vec<Job> = Vec::new();
    for n in 0..12u128 {
        let priority = [Priority::LOW, Priority::HIGH, Priority::MEDIUM][(n % 3) as usize];
        let now = Timestamp::new(START + n as i64, (n as u32) * 1_000_000);
        let job = plan_job(&p_request("c", priority, None), 1 + n, now);
        submitted.push(job.clone());
        let writes = enter_job(&mut q, job);
        p_write(&mut table, &writes, now);
    }
    let now = p_at(20);
    let template = plan_job(&p_request("t", Priority::LOW, Some("0 0 * * * *")), 77, now);
    let writes = enter_job(&mut q, template.clone());
    p_write(&mut table, &writes, now);

    let now = p_at(30);
    for _ in 0..6 {
        let (job, writes) = q.get_next_job(5);
        p_write(&mut table, &writes, now);
        let id = job.unwrap().id;
        if id % 2 == 0 {
            let writes = q.report_result(id, p_result((id % 4) as i32));
            p_write(&mut table, &writes, now);
        }
    }
    let mut expected: Vec<Job> = q
        .get_list(None)
        .into_iter()
        .filter(|j| j.status == JobStatus::PENDING || j.status == JobStatus::RUNNING)
        .collect();
    expected.sort_by_key(|j| (j.timestamp.secs, j.timestamp.nanos));
    assert!(expected.iter().any(|j| j.status == JobStatus::RUNNING));
    assert!(expected.iter().any(|j| j.status == JobStatus::PENDING));
    assert!(expected.iter().any(|j| j.schedule.is_some()));
    assert!(expected.len() < 13);

    let loaded = load_pending_jobs(&p_select_pending(&table)).unwrap();
    assert_eq!(loaded, expected);

    let again = JobQueue::new(loaded);
    p_check(&again);
    let mut reloaded = again.get_list(None);
    reloaded.sort_by_key(|j| (j.timestamp.secs, j.timestamp.nanos));
    assert_eq!(reloaded.len(), expected.len());
    for (now, then) in reloaded.iter().zip(expected.iter()) {
        let mut coerced = then.clone();
        if coerced.status == JobStatus::RUNNING {
            coerced.status = JobStatus::PENDING;
        }
        assert_eq!(*now, coerced);
    }
    assert_eq!(again.get_job(77), Some(template));
    let high: Vec<u128> = again.pending_jobs(Priority::HIGH).iter().map(|j| j.id).collect();
    let mut sorted = high.clone();
    sorted.sort();
    assert_eq!(high, sorted);
}
