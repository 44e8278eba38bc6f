//! What clients, workers and the coordinator say to each other.

use vstd::prelude::*;
use crate::instant::Timestamp;
use crate::job::Job;
use crate::job::JobResult;
use crate::job::JobResultView;
use crate::job::JobStatus;
use crate::job::JobView;
use crate::job::Priority;

verus! {

/// A client asks for a job to be run, once or on a schedule.
#[derive(Debug, PartialEq)]
pub struct SubmitJobRequest {
    pub command: String,
    pub args: Vec<String>,
    pub priority: Option<Priority>,
    pub schedule: Option<String>,
}

/// The job that a submission made.
#[derive(Debug, PartialEq)]
pub struct SubmitJobResponse {
    pub job: Job,
}

/// A job as the coordinator knows it, with its result if one is kept.
#[derive(Debug, PartialEq)]
pub struct GetJobStatusResponse {
    pub job: Job,
    pub result: Option<JobResult>,
}

/// The mathematical value of a [`GetJobStatusResponse`].
pub struct JobStatusView {
    pub job: JobView,
    pub result: Option<JobResultView>,
}

impl View for GetJobStatusResponse {
    type V = JobStatusView;

    open spec fn view(&self) -> JobStatusView {
        JobStatusView {
            job: self.job@,
            result: match self.result {
                Some(r) => Some(r@),
                None => None,
            },
        }
    }
}

/// A client asks for the jobs, all of them or those in one status.
#[derive(Clone, Copy, Debug, PartialEq)]
pub struct SubmitJobListRequest {
    pub status_search: Option<JobStatus>,
}

/// The jobs that a listing found.
#[derive(Debug, PartialEq)]
pub struct GetJobListResponse {
    pub list: Option<Vec<Job>>,
}

/// Whether a worker is taken to be running.
#[derive(Clone, Copy, Debug, PartialEq, Eq, Structural)]
pub enum WorkerStatus {
    ALIVE,
    DEAD,
}

/// What the coordinator keeps of a worker.
#[derive(Debug, PartialEq)]
pub struct WorkerInfo {
    pub worker_id: u128,
    pub hostname: String,
    pub last_seen: Timestamp,
    pub status: WorkerStatus,
    pub current_job_id: Option<u128>,
}

/// The mathematical value of a [`WorkerInfo`].
pub struct WorkerView {
    pub worker_id: u128,
    pub hostname: Seq<char>,
    pub last_seen: Timestamp,
    pub status: WorkerStatus,
    pub current_job_id: Option<u128>,
}

impl View for WorkerInfo {
    type V = WorkerView;

    open spec fn view(&self) -> WorkerView {
        WorkerView {
            worker_id: self.worker_id,
            hostname: self.hostname@,
            last_seen: self.last_seen,
            status: self.status,
            current_job_id: self.current_job_id,
        }
    }
}

impl Clone for WorkerInfo {
    fn clone(&self) -> (r: Self)
        ensures
            r@ == self@,
    {
        WorkerInfo {
            worker_id: self.worker_id,
            hostname: self.hostname.clone(),
            last_seen: self.last_seen,
            status: self.status,
            current_job_id: self.current_job_id,
        }
    }
}

/// A worker announces itself.
#[derive(Debug, PartialEq)]
pub struct WorkerRegister {
    pub worker_id: u128,
    pub hostname: String,
}

/// A worker says that it is still there.
#[derive(Clone, Copy, Debug, PartialEq)]
pub struct WorkerHeartbeat {
    pub worker_id: u128,
    pub timestamp: Timestamp,
}

/// A worker asks for work.
#[derive(Clone, Copy, Debug, PartialEq)]
pub struct NextJobRequest {
    pub worker_id: u128,
}

/// A worker reports how a job ended.
#[derive(Debug, PartialEq)]
pub struct JobResultReport {
    pub job_id: u128,
    pub worker_id: u128,
    pub job_result: JobResult,
    pub finished_at: Timestamp,
}

/// The work handed to a worker, if there is any.
#[derive(Debug, PartialEq)]
pub struct NextJobResponse {
    pub job: Option<Job>,
}

/// An error as told to a client.
#[derive(Debug, PartialEq)]
pub struct ErrorMessage {
    pub code: String,
    pub message: String,
}

} // verus!
