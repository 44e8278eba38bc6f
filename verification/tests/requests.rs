use job_scheduler::api::health_at;
use job_scheduler::api::health_check;
use job_scheduler::api::job_details;
use job_scheduler::api::job_results;
use job_scheduler::api::list_jobs;
use job_scheduler::api::next_job;
use job_scheduler::api::no_job_body;
use job_scheduler::api::read_list_request;
use job_scheduler::api::register_worker;
use job_scheduler::api::register_worker_at;
use job_scheduler::api::submit_job;
use job_scheduler::api::worker_heartbeat;
use job_scheduler::api::check_schedules;
use job_scheduler::api::check_workers;
use job_scheduler::api::Reply;
use job_scheduler::api::MAX_RETRYS;
use job_scheduler::instant::Timestamp;
use job_scheduler::job::JobResult;
use job_scheduler::job::JobStatus;
use job_scheduler::job::Priority;
use job_scheduler::message::NextJobRequest;
use job_scheduler::message::SubmitJobListRequest;
use job_scheduler::message::SubmitJobRequest;
use job_scheduler::message::WorkerHeartbeat;
use job_scheduler::message::WorkerInfo;
use job_scheduler::message::WorkerRegister;
use job_scheduler::message::WorkerStatus;
use job_scheduler::queue::JobQueue;
use job_scheduler::store::StoreOp;

const R0: i64 = 1_704_067_200;

fn r_request(command: &str, priority: Option<Priority>) -> SubmitJobRequest {
    SubmitJobRequest { command: command.to_string(), args: vec![], priority, schedule: None }
}

fn r_result(exitcode: i32) -> JobResult {
    JobResult { exitcode, stdout: String::new(), stderr: "boom".to_string() }
}

#[test]
fn unknown_job_status() {
    let mut q = JobQueue::empty();
    submit_job(&mut q, &r_request("echo", None));
    let random = uuid::Uuid::new_v4().to_string();
    assert_eq!(job_details(&q, &random), Reply::NotFound);
    assert_eq!(job_details(&q, &random).status_code(), 404);
    assert_eq!(job_details(&q, "not-a-uuid"), Reply::BadRequest);
    assert_eq!(job_details(&q, "not-a-uuid").status_code(), 400);
    assert_eq!(job_details(&q, "").status_code(), 400);
}

#[test]
fn known_job_is_found_by_the_text_of_its_id() {
    let mut q = JobQueue::empty();
    let (job, _) = submit_job(&mut q, &r_request("echo", Some(Priority::MEDIUM)));
    let text = uuid::Uuid::from_u128(job.id).to_string();
    match job_details(&q, &text) {
        Reply::Success(found) => {
            assert_eq!(found.job, job);
            assert_eq!(found.result, None);
        }
        other => panic!("unexpected reply {:?}", other),
    }
    let upper = text.to_uppercase();
    assert_eq!(job_details(&q, &upper).status_code(), 200);
    let simple = uuid::Uuid::from_u128(job.id).simple().to_string();
    assert_eq!(job_details(&q, &simple).status_code(), 200);
}

#[test]
fn id_text_is_read_as_a_number() {
    let mut q = JobQueue::empty();
    let mut job = job_scheduler::api::plan_job(&r_request("echo", None), 0x0123_4567_89ab_cdef_0123_4567_89ab_cdef, Timestamp::new(R0, 0));
    job.status = JobStatus::RUNNING;
    q.add_job(job.clone());
    match job_details(&q, "01234567-89ab-cdef-0123-456789abcdef") {
        Reply::Success(found) => assert_eq!(found.job, job),
        other => panic!("unexpected reply {:?}", other),
    }
    assert_eq!(job_details(&q, "01234567-89ab-cdef-0123-456789abcdee"), Reply::NotFound);
}

#[test]
fn submit_makes_a_pending_job_under_a_new_id() {
    let mut q = JobQueue::empty();
    let (first, writes) = submit_job(&mut q, &r_request("a", None));
    let (second, _) = submit_job(&mut q, &r_request("b", Some(Priority::HIGH)));
    assert_eq!(writes, vec![StoreOp::InsertJob { job: first.clone() }]);
    assert_ne!(first.id, second.id);
    assert_eq!(first.status, JobStatus::PENDING);
    assert_eq!(first.priority, Priority::LOW);
    assert_eq!(first.max_retries, MAX_RETRYS);
    assert_eq!(first.retry_count, 0);
    assert!(first.timestamp.secs > R0);
    assert_eq!(uuid::Uuid::from_u128(first.id).get_version_num(), 4);
    assert_eq!(q.get_next_job(0).0, Some(second));
    assert_eq!(q.get_next_job(0).0, Some(first));
}

#[test]
fn next_job_answers_404_on_an_empty_queue() {
    let mut q = JobQueue::empty();
    let (reply, writes) = next_job(&mut q, NextJobRequest { worker_id: 1 });
    assert_eq!(reply, Reply::NotFound);
    assert_eq!(reply.status_code(), 404);
    assert!(writes.is_empty());
    assert_eq!(no_job_body(), "No job in queue");
}

#[test]
fn next_job_hands_out_the_job() {
    let mut q = JobQueue::empty();
    let (job, _) = submit_job(&mut q, &r_request("a", None));
    let (reply, writes) = next_job(&mut q, NextJobRequest { worker_id: 1 });
    assert_eq!(reply.status_code(), 200);
    assert_eq!(reply, Reply::Success(job.clone()));
    assert_eq!(writes, vec![StoreOp::UpdateStatus { job_id: job.id, status: JobStatus::RUNNING }]);
}

#[test]
fn result_with_malformed_id_is_refused() {
    let mut q = JobQueue::empty();
    let (job, _) = submit_job(&mut q, &r_request("a", None));
    let (reply, writes) = job_results(&mut q, "xyz", r_result(0));
    assert_eq!(reply, Reply::BadRequest);
    assert!(writes.is_empty());
    assert_eq!(q.get_job(job.id).unwrap().status, JobStatus::PENDING);
}

#[test]
fn result_is_echoed_and_drives_the_job() {
    let mut q = JobQueue::empty();
    let (job, _) = submit_job(&mut q, &r_request("a", None));
    next_job(&mut q, NextJobRequest { worker_id: 1 });
    let text = uuid::Uuid::from_u128(job.id).to_string();
    let (reply, writes) = job_results(&mut q, &text, r_result(2));
    assert_eq!(reply, Reply::Success(r_result(2)));
    assert_eq!(writes.len(), 2);
    assert_eq!(q.get_job(job.id).unwrap().status, JobStatus::RETRYING);
    next_job(&mut q, NextJobRequest { worker_id: 1 });
    let (reply, _) = job_results(&mut q, &text, r_result(0));
    assert_eq!(reply.status_code(), 200);
    match job_details(&q, &text) {
        Reply::Success(found) => {
            assert_eq!(found.job.status, JobStatus::COMPLETED);
            assert_eq!(found.result, Some(r_result(0)));
        }
        other => panic!("unexpected reply {:?}", other),
    }
}

#[test]
fn result_for_unknown_job_is_answered_and_ignored() {
    let mut q = JobQueue::empty();
    let (reply, writes) = job_results(&mut q, "00000000-0000-0000-0000-00000000002a", r_result(0));
    assert_eq!(reply, Reply::Success(r_result(0)));
    assert!(writes.is_empty());
    assert_eq!(q.get_job_status(42), None);
}

#[test]
fn register_makes_an_alive_worker_seen_now() {
    let mut q = JobQueue::empty();
    let req = WorkerRegister { worker_id: 5, hostname: "box".to_string() };
    let now = Timestamp::new(R0, 9);
    let worker = register_worker_at(&mut q, &req, now);
    assert_eq!(
        worker,
        WorkerInfo {
            worker_id: 5,
            hostname: "box".to_string(),
            last_seen: now,
            status: WorkerStatus::ALIVE,
            current_job_id: None,
        }
    );
    assert_eq!(q.get_worker(5), Some(worker));
    let again = register_worker(&mut q, &req);
    assert!(again.last_seen.secs > R0);
    assert!(again.last_seen.nanos < 1_000_000_000);
    assert_eq!(q.get_worker(5), Some(again));
}

#[test]
fn heartbeat_of_unknown_worker_is_ignored() {
    let mut q = JobQueue::empty();
    worker_heartbeat(&mut q, WorkerHeartbeat { worker_id: 5, timestamp: Timestamp::new(R0, 0) });
    assert_eq!(q.get_worker(5), None);
    register_worker_at(&mut q, &WorkerRegister { worker_id: 5, hostname: "box".to_string() }, Timestamp::new(R0, 0));
    worker_heartbeat(&mut q, WorkerHeartbeat { worker_id: 5, timestamp: Timestamp::new(R0 + 30, 0) });
    assert_eq!(q.get_worker(5).unwrap().last_seen, Timestamp::new(R0 + 30, 0));
}

#[test]
fn sweeps_at_the_present_time() {
    let mut q = JobQueue::empty();
    register_worker_at(&mut q, &WorkerRegister { worker_id: 5, hostname: "old".to_string() }, Timestamp::new(R0, 0));
    register_worker(&mut q, &WorkerRegister { worker_id: 6, hostname: "new".to_string() });
    let (job, _) = submit_job(&mut q, &r_request("a", None));
    next_job(&mut q, NextJobRequest { worker_id: 5 });
    let writes = check_workers(&mut q);
    assert_eq!(writes, vec![StoreOp::UpdateStatus { job_id: job.id, status: JobStatus::PENDING }]);
    assert_eq!(q.get_worker(5).unwrap().status, WorkerStatus::DEAD);
    assert_eq!(q.get_worker(6).unwrap().status, WorkerStatus::ALIVE);
    assert!(check_schedules(&mut q).is_empty());
}

#[test]
fn list_request_is_read_from_a_status_name() {
    assert_eq!(read_list_request(None), Reply::Success(SubmitJobListRequest { status_search: None }));
    assert_eq!(
        read_list_request(Some("FAILED")),
        Reply::Success(SubmitJobListRequest { status_search: Some(JobStatus::FAILED) })
    );
    assert_eq!(read_list_request(Some("failed")), Reply::BadRequest);
    assert_eq!(read_list_request(Some("")).status_code(), 400);
}

#[test]
fn list_answers_with_the_jobs() {
    let mut q = JobQueue::empty();
    let (a, _) = submit_job(&mut q, &r_request("a", None));
    let (b, _) = submit_job(&mut q, &r_request("b", None));
    next_job(&mut q, NextJobRequest { worker_id: 1 });
    let all = match list_jobs(&q, SubmitJobListRequest { status_search: None }) {
        Reply::Success(found) => found.list.unwrap(),
        other => panic!("unexpected reply {:?}", other),
    };
    assert_eq!(all.len(), 2);
    let pending = match list_jobs(&q, SubmitJobListRequest { status_search: Some(JobStatus::PENDING) }) {
        Reply::Success(found) => found.list.unwrap(),
        other => panic!("unexpected reply {:?}", other),
    };
    assert_eq!(pending, vec![b]);
    let running = match list_jobs(&q, SubmitJobListRequest { status_search: Some(JobStatus::RUNNING) }) {
        Reply::Success(found) => found.list.unwrap(),
        other => panic!("unexpected reply {:?}", other),
    };
    assert_eq!(running.len(), 1);
    assert_eq!(running[0].id, a.id);
    assert_eq!(running[0].status, JobStatus::RUNNING);
}

#[test]
fn health_carries_the_time() {
    let h = health_at(Timestamp::new(R0, 0)).unwrap();
    assert_eq!(h.status, "ok");
    assert_eq!(h.timestamp, "2024-01-01T00:00:00+00:00");
    assert_eq!(health_at(Timestamp::new(i64::MAX, 0)), None);
    let now = health_check().unwrap();
    assert_eq!(now.status, "ok");
    assert!(now.timestamp.ends_with("+00:00"));
}
