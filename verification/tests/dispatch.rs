use job_scheduler::instant::Timestamp;
use job_scheduler::job::Job;
use job_scheduler::job::JobResult;
use job_scheduler::job::JobStatus;
use job_scheduler::job::Priority;
use job_scheduler::message::WorkerHeartbeat;
use job_scheduler::message::WorkerInfo;
use job_scheduler::message::WorkerStatus;
use job_scheduler::queue::JobQueue;
use job_scheduler::store::StoreOp;

const T0: i64 = 1_704_067_200;

fn d_job(id: u128, command: &str, priority: Priority) -> Job {
    Job {
        id,
        command: command.to_string(),
        args: vec!["-x".to_string()],
        status: JobStatus::PENDING,
        timestamp: Timestamp::new(T0, 0),
        retry_count: 0,
        max_retries: 3,
        priority,
        schedule: None,
        next_run: None,
        is_recurring: Some(false),
        parent_schedule_id: None,
    }
}

fn d_worker(id: u128, last_seen: Timestamp) -> WorkerInfo {
    WorkerInfo {
        worker_id: id,
        hostname: "host".to_string(),
        last_seen,
        status: WorkerStatus::ALIVE,
        current_job_id: None,
    }
}

fn d_result(exitcode: i32) -> JobResult {
    JobResult { exitcode, stdout: "out".to_string(), stderr: "err".to_string() }
}

#[test]
fn priority_ordering() {
    let mut q = JobQueue::empty();
    q.add_job(d_job(1, "a", Priority::LOW));
    q.add_job(d_job(2, "b", Priority::HIGH));
    q.add_job(d_job(3, "c", Priority::MEDIUM));
    let (first, _) = q.get_next_job(9);
    let (second, _) = q.get_next_job(9);
    let (third, _) = q.get_next_job(9);
    let (fourth, writes) = q.get_next_job(9);
    assert_eq!(first.unwrap().command, "b");
    assert_eq!(second.unwrap().command, "c");
    assert_eq!(third.unwrap().command, "a");
    assert_eq!(fourth, None);
    assert!(writes.is_empty());
}

#[test]
fn first_in_first_out_within_a_priority() {
    let mut q = JobQueue::empty();
    for id in 1..=4u128 {
        q.add_job(d_job(id, "c", Priority::MEDIUM));
    }
    for id in 1..=4u128 {
        assert_eq!(q.get_next_job(0).0.unwrap().id, id);
    }
}

#[test]
fn submit_registers_and_asks_for_the_row() {
    let mut q = JobQueue::empty();
    let job = d_job(7, "echo", Priority::HIGH);
    let writes = q.add_job(job.clone());
    assert_eq!(writes, vec![StoreOp::InsertJob { job: job.clone() }]);
    assert_eq!(q.get_job(7), Some(job.clone()));
    assert_eq!(q.pending_jobs(Priority::HIGH), vec![job]);
    assert!(q.pending_jobs(Priority::MEDIUM).is_empty());
    assert!(q.pending_jobs(Priority::LOW).is_empty());
}

#[test]
fn dispatch_marks_the_record_running_and_notes_the_worker() {
    let mut q = JobQueue::empty();
    q.register_worker_at(d_worker(50, Timestamp::new(T0, 0)), Timestamp::new(T0, 0));
    q.add_job(d_job(7, "echo", Priority::LOW));
    let (job, writes) = q.get_next_job(50);
    assert_eq!(job.unwrap().status, JobStatus::PENDING);
    assert_eq!(writes, vec![StoreOp::UpdateStatus { job_id: 7, status: JobStatus::RUNNING }]);
    assert_eq!(q.get_job(7).unwrap().status, JobStatus::RUNNING);
    assert_eq!(q.get_worker(50).unwrap().current_job_id, Some(7));
    assert!(q.pending_jobs(Priority::LOW).is_empty());
}

#[test]
fn unknown_worker_still_gets_the_job() {
    let mut q = JobQueue::empty();
    q.add_job(d_job(7, "echo", Priority::LOW));
    let (job, _) = q.get_next_job(12345);
    assert_eq!(job.unwrap().id, 7);
    assert_eq!(q.get_worker(12345), None);
    assert_eq!(q.get_job(7).unwrap().status, JobStatus::RUNNING);
}

#[test]
fn retry_then_succeed() {
    let mut q = JobQueue::empty();
    q.add_job(d_job(7, "echo", Priority::MEDIUM));
    q.get_next_job(1);
    let writes = q.report_result(7, d_result(1));
    assert_eq!(
        writes,
        vec![
            StoreOp::UpdateStatus { job_id: 7, status: JobStatus::RETRYING },
            StoreOp::UpdateRetryCount { job_id: 7, count: 1 },
        ]
    );
    let record = q.get_job(7).unwrap();
    assert_eq!(record.status, JobStatus::RETRYING);
    assert_eq!(record.retry_count, 1);
    assert_eq!(q.get_job_status(7).unwrap().result, None);
    assert_eq!(q.pending_jobs(Priority::MEDIUM), vec![record]);

    let (again, _) = q.get_next_job(1);
    assert_eq!(again.unwrap().id, 7);
    let writes = q.report_result(7, d_result(0));
    assert_eq!(
        writes,
        vec![
            StoreOp::InsertResult { job_id: 7, result: d_result(0) },
            StoreOp::UpdateStatus { job_id: 7, status: JobStatus::COMPLETED },
        ]
    );
    let status = q.get_job_status(7).unwrap();
    assert_eq!(status.job.status, JobStatus::COMPLETED);
    assert_eq!(status.job.retry_count, 1);
    assert_eq!(status.result.unwrap().exitcode, 0);
    assert!(q.pending_jobs(Priority::MEDIUM).is_empty());
}

#[test]
fn retry_exhaustion() {
    let mut q = JobQueue::empty();
    q.add_job(d_job(7, "false", Priority::LOW));
    for round in 1..=3u32 {
        assert_eq!(q.get_next_job(1).0.unwrap().id, 7);
        q.report_result(7, d_result(round as i32));
        let record = q.get_job(7).unwrap();
        assert_eq!(record.status, JobStatus::RETRYING);
        assert_eq!(record.retry_count, round);
    }
    assert_eq!(q.get_next_job(1).0.unwrap().id, 7);
    q.report_result(7, d_result(42));
    let status = q.get_job_status(7).unwrap();
    assert_eq!(status.job.status, JobStatus::FAILED);
    assert_eq!(status.job.retry_count, 3);
    assert_eq!(status.job.max_retries, 3);
    assert_eq!(status.result.unwrap().exitcode, 42);
    assert_eq!(q.get_next_job(1).0, None);
}

#[test]
fn report_for_unknown_job_is_ignored() {
    let mut q = JobQueue::empty();
    q.add_job(d_job(7, "echo", Priority::LOW));
    let writes = q.report_result(8, d_result(0));
    assert!(writes.is_empty());
    assert_eq!(q.get_job_status(8), None);
    let writes = q.report_result(8, d_result(3));
    assert!(writes.is_empty());
    assert_eq!(q.get_job(7).unwrap().status, JobStatus::PENDING);
    assert_eq!(q.pending_jobs(Priority::LOW).len(), 1);
}

#[test]
fn job_without_retries_fails_at_once() {
    let mut q = JobQueue::empty();
    let mut job = d_job(7, "false", Priority::LOW);
    job.max_retries = 0;
    q.add_job(job);
    q.get_next_job(1);
    q.report_result(7, d_result(-1));
    let status = q.get_job_status(7).unwrap();
    assert_eq!(status.job.status, JobStatus::FAILED);
    assert_eq!(status.job.retry_count, 0);
    assert_eq!(status.result.unwrap().exitcode, -1);
}

#[test]
fn retry_job_of_unknown_id_changes_nothing() {
    let mut q = JobQueue::empty();
    assert!(q.retry_job(5).is_empty());
    assert!(q.update_job_status(5, JobStatus::FAILED).is_empty());
    assert_eq!(q.get_job(5), None);
}

#[test]
fn update_job_status_sets_and_asks_for_the_write() {
    let mut q = JobQueue::empty();
    q.add_job(d_job(7, "echo", Priority::LOW));
    let writes = q.update_job_status(7, JobStatus::CANCELED);
    assert_eq!(writes, vec![StoreOp::UpdateStatus { job_id: 7, status: JobStatus::CANCELED }]);
    assert_eq!(q.get_job(7).unwrap().status, JobStatus::CANCELED);
}

#[test]
fn store_results_overwrites_the_kept_result() {
    let mut q = JobQueue::empty();
    q.add_job(d_job(7, "echo", Priority::LOW));
    q.store_results(7, d_result(1));
    let writes = q.store_results(7, d_result(2));
    assert_eq!(writes, vec![StoreOp::InsertResult { job_id: 7, result: d_result(2) }]);
    assert_eq!(q.get_job_status(7).unwrap().result, Some(d_result(2)));
}

#[test]
fn job_is_found_before_a_template_of_the_same_id() {
    let mut q = JobQueue::empty();
    let mut template = d_job(7, "tick", Priority::LOW);
    template.schedule = Some("0 * * * * *".to_string());
    template.is_recurring = Some(true);
    q.add_scheduled_jobs(template.clone());
    assert_eq!(q.get_job(7), Some(template));
    assert!(q.pending_jobs(Priority::LOW).is_empty());
    q.add_job(d_job(7, "echo", Priority::LOW));
    assert_eq!(q.get_job(7).unwrap().command, "echo");
}

#[test]
fn heartbeat_updates_and_revives() {
    let mut q = JobQueue::empty();
    q.register_worker_at(d_worker(50, Timestamp::new(T0, 0)), Timestamp::new(T0 - 100, 0));
    q.check_worker_at(Timestamp::new(T0, 0));
    assert_eq!(q.get_worker(50).unwrap().status, WorkerStatus::DEAD);
    q.update_worker_heartbeat(WorkerHeartbeat { worker_id: 50, timestamp: Timestamp::new(T0 + 5, 7) });
    let seen = q.get_worker(50).unwrap();
    assert_eq!(seen.status, WorkerStatus::ALIVE);
    assert_eq!(seen.last_seen, Timestamp::new(T0 + 5, 7));
    q.update_worker_heartbeat(WorkerHeartbeat { worker_id: 51, timestamp: Timestamp::new(T0, 0) });
    assert_eq!(q.get_worker(51), None);
}

#[test]
fn register_worker_replaces_the_record() {
    let mut q = JobQueue::empty();
    q.register_worker_at(d_worker(50, Timestamp::new(T0, 0)), Timestamp::new(T0, 0));
    q.add_job(d_job(7, "echo", Priority::LOW));
    q.get_next_job(50);
    let mut again = d_worker(50, Timestamp::new(0, 0));
    again.status = WorkerStatus::DEAD;
    again.hostname = "other".to_string();
    q.register_worker_at(again, Timestamp::new(T0 + 9, 0));
    let seen = q.get_worker(50).unwrap();
    assert_eq!(seen.current_job_id, None);
    assert_eq!(seen.last_seen, Timestamp::new(T0 + 9, 0));
    assert_eq!(seen.status, WorkerStatus::ALIVE);
    assert_eq!(seen.hostname, "other");
}

#[test]
fn register_worker_sees_the_worker_now() {
    let mut q = JobQueue::empty();
    let mut w = d_worker(50, Timestamp::new(0, 0));
    w.status = WorkerStatus::DEAD;
    q.register_worker(w);
    let seen = q.get_worker(50).unwrap();
    assert_eq!(seen.status, WorkerStatus::ALIVE);
    assert!(seen.last_seen.secs > T0);
    assert!(q.check_worker().is_empty());
    assert_eq!(q.get_worker(50).unwrap().status, WorkerStatus::ALIVE);
}

#[test]
fn worker_death_reclaim() {
    let mut q = JobQueue::empty();
    q.register_worker_at(d_worker(50, Timestamp::new(T0, 0)), Timestamp::new(T0, 0));
    q.add_job(d_job(7, "j", Priority::MEDIUM));
    assert_eq!(q.get_next_job(50).0.unwrap().id, 7);
    q.add_job(d_job(8, "k", Priority::MEDIUM));
    let writes = q.check_worker_at(Timestamp::new(T0 + 61, 0));
    assert_eq!(writes, vec![StoreOp::UpdateStatus { job_id: 7, status: JobStatus::PENDING }]);
    let w = q.get_worker(50).unwrap();
    assert_eq!(w.status, WorkerStatus::DEAD);
    assert_eq!(w.current_job_id, None);
    assert_eq!(q.get_job(7).unwrap().status, JobStatus::PENDING);
    let waiting = q.pending_jobs(Priority::MEDIUM);
    assert_eq!(waiting.len(), 2);
    assert_eq!(waiting[0].id, 8);
    assert_eq!(waiting[1].id, 7);
}

#[test]
fn worker_is_stale_only_after_sixty_seconds() {
    let mut q = JobQueue::empty();
    q.register_worker_at(d_worker(50, Timestamp::new(0, 0)), Timestamp::new(T0, 500));
    assert!(q.check_worker_at(Timestamp::new(T0 + 60, 500)).is_empty());
    assert_eq!(q.get_worker(50).unwrap().status, WorkerStatus::ALIVE);
    assert!(q.reap_worker(50, Timestamp::new(T0 + 59, 999_999_999)).is_empty());
    assert_eq!(q.get_worker(50).unwrap().status, WorkerStatus::ALIVE);
    q.check_worker_at(Timestamp::new(T0 + 60, 501));
    assert_eq!(q.get_worker(50).unwrap().status, WorkerStatus::DEAD);
}

#[test]
fn dead_worker_is_left_alone_by_the_sweep() {
    let mut q = JobQueue::empty();
    q.register_worker_at(d_worker(50, Timestamp::new(T0, 0)), Timestamp::new(T0, 0));
    q.check_worker_at(Timestamp::new(T0 + 61, 0));
    q.add_job(d_job(7, "j", Priority::LOW));
    assert_eq!(q.get_next_job(50).0.unwrap().id, 7);
    let w = q.get_worker(50).unwrap();
    assert_eq!(w.status, WorkerStatus::DEAD);
    assert_eq!(w.current_job_id, Some(7));
    assert!(q.check_worker_at(Timestamp::new(T0 + 1000, 0)).is_empty());
    assert_eq!(q.get_worker(50), Some(w));
    assert_eq!(q.get_job(7).unwrap().status, JobStatus::RUNNING);
}

#[test]
fn stale_worker_with_unknown_job_is_only_declared_dead() {
    let mut q = JobQueue::empty();
    let mut w = d_worker(50, Timestamp::new(T0, 0));
    w.current_job_id = Some(99);
    q.register_worker_at(w, Timestamp::new(T0, 0));
    assert!(q.check_worker_at(Timestamp::new(T0 + 3600, 0)).is_empty());
    let w = q.get_worker(50).unwrap();
    assert_eq!(w.status, WorkerStatus::DEAD);
    assert_eq!(w.current_job_id, None);
}

#[test]
fn sweep_over_many_workers_reclaims_each_job_once() {
    let mut q = JobQueue::empty();
    for id in 1..=5u128 {
        q.register_worker_at(d_worker(100 + id, Timestamp::new(T0, 0)), Timestamp::new(T0, 0));
        q.add_job(d_job(id, "j", Priority::HIGH));
    }
    for id in 1..=5u128 {
        assert_eq!(q.get_next_job(100 + id).0.unwrap().id, id);
    }
    q.update_worker_heartbeat(WorkerHeartbeat { worker_id: 103, timestamp: Timestamp::new(T0 + 100, 0) });
    let writes = q.check_worker_at(Timestamp::new(T0 + 120, 0));
    assert_eq!(writes.len(), 4);
    let mut ids: Vec<u128> = q.pending_jobs(Priority::HIGH).iter().map(|j| j.id).collect();
    ids.sort();
    assert_eq!(ids, vec![1, 2, 4, 5]);
    assert_eq!(q.get_job(3).unwrap().status, JobStatus::RUNNING);
    assert_eq!(q.get_worker(103).unwrap().status, WorkerStatus::ALIVE);
    for id in [1u128, 2, 4, 5] {
        assert_eq!(q.get_worker(100 + id).unwrap().status, WorkerStatus::DEAD);
        assert_eq!(q.get_job(id).unwrap().status, JobStatus::PENDING);
    }
}

#[test]
fn sweep_in_a_given_order_queues_in_that_order() {
    let mut q = JobQueue::empty();
    for id in 1..=3u128 {
        q.register_worker_at(d_worker(100 + id, Timestamp::new(T0, 0)), Timestamp::new(T0, 0));
        q.add_job(d_job(id, "j", Priority::LOW));
    }
    for id in 1..=3u128 {
        q.get_next_job(100 + id);
    }
    q.sweep_workers(&vec![103, 101, 102, 101], Timestamp::new(T0 + 61, 0));
    let ids: Vec<u128> = q.pending_jobs(Priority::LOW).iter().map(|j| j.id).collect();
    assert_eq!(ids, vec![3, 1, 2]);
}

#[test]
fn new_queue_requeues_running_jobs_as_pending() {
    let mut running = d_job(1, "a", Priority::HIGH);
    running.status = JobStatus::RUNNING;
    let pending = d_job(2, "b", Priority::HIGH);
    let mut template = d_job(3, "tick", Priority::LOW);
    template.schedule = Some("0 * * * * *".to_string());
    template.is_recurring = Some(true);
    template.next_run = Some(Timestamp::new(T0, 0));
    let q = JobQueue::new(vec![running.clone(), template.clone(), pending.clone()]);
    let mut coerced = running;
    coerced.status = JobStatus::PENDING;
    assert_eq!(q.pending_jobs(Priority::HIGH), vec![coerced.clone(), pending.clone()]);
    assert_eq!(q.get_job(1), Some(coerced));
    assert_eq!(q.get_job(2), Some(pending));
    assert_eq!(q.get_job(3), Some(template));
    assert!(q.pending_jobs(Priority::LOW).is_empty());
}

#[test]
fn listing_filters_by_status() {
    let mut q = JobQueue::empty();
    for id in 1..=4u128 {
        q.add_job(d_job(id, "j", Priority::LOW));
    }
    q.get_next_job(0);
    q.get_next_job(0);
    q.report_result(1, d_result(0));
    let mut template = d_job(9, "tick", Priority::LOW);
    template.schedule = Some("0 * * * * *".to_string());
    template.is_recurring = Some(true);
    q.add_scheduled_jobs(template);

    let all = q.get_list(None);
    assert_eq!(all.len(), 5);
    let pending = q.get_list(Some(JobStatus::PENDING));
    let mut ids: Vec<u128> = pending.iter().map(|j| j.id).collect();
    ids.sort();
    assert_eq!(ids, vec![3, 4, 9]);
    for job in &pending {
        assert!(all.contains(job));
    }
    for job in &all {
        if !pending.contains(job) {
            assert_ne!(job.status, JobStatus::PENDING);
        }
    }
    let running: Vec<u128> = q.get_list(Some(JobStatus::RUNNING)).iter().map(|j| j.id).collect();
    assert_eq!(running, vec![2]);
    assert!(q.get_list(Some(JobStatus::CANCELED)).is_empty());
}
