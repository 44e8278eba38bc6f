//! Jobs, their status and priority, and the results that workers report.

use vstd::prelude::*;
use crate::instant::Timestamp;
use crate::instant::opt_text;

verus! {

/// Where a job stands in its life.
#[derive(Clone, Copy, Debug, PartialEq, Eq, Structural)]
pub enum JobStatus {
    PENDING,
    RUNNING,
    COMPLETED,
    FAILED,
    CANCELED,
    RETRYING,
}

impl JobStatus {
    /// The textual name of a status, as written on the wire and at rest.
    pub open spec fn name(self) -> Seq<char> {
        match self {
            JobStatus::PENDING => "PENDING"@,
            JobStatus::RUNNING => "RUNNING"@,
            JobStatus::COMPLETED => "COMPLETED"@,
            JobStatus::FAILED => "FAILED"@,
            JobStatus::CANCELED => "CANCELED"@,
            JobStatus::RETRYING => "RETRYING"@,
        }
    }

    /// The status that a name stands for, if any.
    pub open spec fn named(text: Seq<char>) -> Option<JobStatus> {
        if text == "PENDING"@ {
            Some(JobStatus::PENDING)
        } else if text == "RUNNING"@ {
            Some(JobStatus::RUNNING)
        } else if text == "COMPLETED"@ {
            Some(JobStatus::COMPLETED)
        } else if text == "FAILED"@ {
            Some(JobStatus::FAILED)
        } else if text == "CANCELED"@ {
            Some(JobStatus::CANCELED)
        } else if text == "RETRYING"@ {
            Some(JobStatus::RETRYING)
        } else {
            None
        }
    }

    /// The job waits in a queue to be dispatched.
    pub open spec fn is_pending(self) -> bool {
        self == JobStatus::PENDING || self == JobStatus::RETRYING
    }

    /// The job has reached an outcome that a result is kept for.
    pub open spec fn is_terminal(self) -> bool {
        self == JobStatus::COMPLETED || self == JobStatus::FAILED
    }

    /// The status that a name stands for; a text that is no name is refused.
    pub fn from_str(input: &str) -> (r: Result<JobStatus, ()>)
        ensures
            r == (match JobStatus::named(input@) {
                Some(s) => Ok::<JobStatus, ()>(s),
                None => Err(()),
            }),
    {
        if str_eq(input, "PENDING") {
            Ok(JobStatus::PENDING)
        } else if str_eq(input, "RUNNING") {
            Ok(JobStatus::RUNNING)
        } else if str_eq(input, "COMPLETED") {
            Ok(JobStatus::COMPLETED)
        } else if str_eq(input, "FAILED") {
            Ok(JobStatus::FAILED)
        } else if str_eq(input, "CANCELED") {
            Ok(JobStatus::CANCELED)
        } else if str_eq(input, "RETRYING") {
            Ok(JobStatus::RETRYING)
        } else {
            Err(())
        }
    }

    /// The name of the status.
    pub fn to_string(&self) -> (s: String)
        ensures
            s@ == self.name(),
    {
        match self {
            JobStatus::PENDING => "PENDING".to_owned(),
            JobStatus::RUNNING => "RUNNING".to_owned(),
            JobStatus::COMPLETED => "COMPLETED".to_owned(),
            JobStatus::FAILED => "FAILED".to_owned(),
            JobStatus::CANCELED => "CANCELED".to_owned(),
            JobStatus::RETRYING => "RETRYING".to_owned(),
        }
    }
}

impl std::str::FromStr for JobStatus {
    type Err = ();

    /// The status that a name stands for; a text that is no name is refused.
    fn from_str(input: &str) -> (r: Result<Self, ()>)
        ensures
            r == (match JobStatus::named(input@) {
                Some(s) => Ok::<JobStatus, ()>(s),
                None => Err(()),
            }),
    {
        JobStatus::from_str(input)
    }
}

impl std::str::FromStr for Priority {
    type Err = ();

    /// The priority that a name stands for; a text that is no name is
    /// refused.
    fn from_str(input: &str) -> (r: Result<Self, ()>)
        ensures
            r == (match Priority::named(input@) {
                Some(p) => Ok::<Priority, ()>(p),
                None => Err(()),
            }),
    {
        Priority::from_str(input)
    }
}

/// Whether two strings hold the same characters.
pub fn str_eq(a: &str, b: &str) -> (same: bool)
    ensures
        same == (a@ == b@),
{
    let x = a.to_owned();
    let y = b.to_owned();
    x == y
}

/// Every status is found again from its name.
pub proof fn law_status_name_round_trip(s: JobStatus)
    ensures
        JobStatus::named(s.name()) == Some(s),
{
    reveal_strlit("PENDING");
    reveal_strlit("RUNNING");
    reveal_strlit("COMPLETED");
    reveal_strlit("FAILED");
    reveal_strlit("CANCELED");
    reveal_strlit("RETRYING");
    assert("PENDING"@[0] == 'P');
    assert("RUNNING"@[0] == 'R' && "RUNNING"@[1] == 'U');
    assert("COMPLETED"@[0] == 'C' && "COMPLETED"@[1] == 'O');
    assert("FAILED"@[0] == 'F');
    assert("CANCELED"@[0] == 'C' && "CANCELED"@[1] == 'A');
    assert("RETRYING"@[0] == 'R' && "RETRYING"@[1] == 'E');
}

/// How urgently a job is to be dispatched. A higher class is always served
/// before a lower one.
#[derive(Clone, Copy, Debug, PartialEq, Eq, Structural)]
pub enum Priority {
    HIGH,
    MEDIUM,
    LOW,
}

impl Priority {
    /// The textual name of a priority, as written on the wire and at rest.
    pub open spec fn name(self) -> Seq<char> {
        match self {
            Priority::HIGH => "HIGH"@,
            Priority::MEDIUM => "MEDIUM"@,
            Priority::LOW => "LOW"@,
        }
    }

    /// The priority that a name stands for, if any.
    pub open spec fn named(text: Seq<char>) -> Option<Priority> {
        if text == "HIGH"@ {
            Some(Priority::HIGH)
        } else if text == "MEDIUM"@ {
            Some(Priority::MEDIUM)
        } else if text == "LOW"@ {
            Some(Priority::LOW)
        } else {
            None
        }
    }

    /// The priority that a name stands for; a text that is no name is
    /// refused.
    pub fn from_str(input: &str) -> (r: Result<Priority, ()>)
        ensures
            r == (match Priority::named(input@) {
                Some(p) => Ok::<Priority, ()>(p),
                None => Err(()),
            }),
    {
        if str_eq(input, "HIGH") {
            Ok(Priority::HIGH)
        } else if str_eq(input, "MEDIUM") {
            Ok(Priority::MEDIUM)
        } else if str_eq(input, "LOW") {
            Ok(Priority::LOW)
        } else {
            Err(())
        }
    }

    /// The name of the priority.
    pub fn to_string(&self) -> (s: String)
        ensures
            s@ == self.name(),
    {
        match self {
            Priority::HIGH => "HIGH".to_owned(),
            Priority::MEDIUM => "MEDIUM".to_owned(),
            Priority::LOW => "LOW".to_owned(),
        }
    }
}

/// Every priority is found again from its name.
pub proof fn law_priority_name_round_trip(p: Priority)
    ensures
        Priority::named(p.name()) == Some(p),
{
    reveal_strlit("HIGH");
    reveal_strlit("MEDIUM");
    reveal_strlit("LOW");
    assert("HIGH"@[0] == 'H');
    assert("MEDIUM"@[0] == 'M');
    assert("LOW"@[0] == 'L');
}

/// What a worker reports when a job has run.
#[derive(Debug, PartialEq)]
pub struct JobResult {
    pub exitcode: i32,
    pub stdout: String,
    pub stderr: String,
}

/// The mathematical value of a [`JobResult`].
pub struct JobResultView {
    pub exitcode: i32,
    pub stdout: Seq<char>,
    pub stderr: Seq<char>,
}

impl View for JobResult {
    type V = JobResultView;

    open spec fn view(&self) -> JobResultView {
        JobResultView { exitcode: self.exitcode, stdout: self.stdout@, stderr: self.stderr@ }
    }
}

impl Clone for JobResult {
    fn clone(&self) -> (r: Self)
        ensures
            r@ == self@,
    {
        JobResult {
            exitcode: self.exitcode,
            stdout: self.stdout.clone(),
            stderr: self.stderr.clone(),
        }
    }
}

/// A unit of work, or the template of a recurring one.
#[derive(Debug, PartialEq)]
pub struct Job {
    pub id: u128,
    pub command: String,
    pub args: Vec<String>,
    pub status: JobStatus,
    pub timestamp: Timestamp,
    pub retry_count: u32,
    pub max_retries: u32,
    pub priority: Priority,
    pub schedule: Option<String>,
    pub next_run: Option<Timestamp>,
    pub is_recurring: Option<bool>,
    pub parent_schedule_id: Option<u128>,
}

/// The mathematical value of a [`Job`].
pub struct JobView {
    pub id: u128,
    pub command: Seq<char>,
    pub args: Seq<Seq<char>>,
    pub status: JobStatus,
    pub timestamp: Timestamp,
    pub retry_count: u32,
    pub max_retries: u32,
    pub priority: Priority,
    pub schedule: Option<Seq<char>>,
    pub next_run: Option<Timestamp>,
    pub is_recurring: Option<bool>,
    pub parent_schedule_id: Option<u128>,
}

impl View for Job {
    type V = JobView;

    open spec fn view(&self) -> JobView {
        JobView {
            id: self.id,
            command: self.command@,
            args: self.args.deep_view(),
            status: self.status,
            timestamp: self.timestamp,
            retry_count: self.retry_count,
            max_retries: self.max_retries,
            priority: self.priority,
            schedule: opt_text(self.schedule),
            next_run: self.next_run,
            is_recurring: self.is_recurring,
            parent_schedule_id: self.parent_schedule_id,
        }
    }
}

impl JobView {
    /// A schedule template: it carries a cron expression, is marked as
    /// recurring, and descends from no other template.
    pub open spec fn is_template(self) -> bool {
        &&& self.schedule is Some
        &&& self.is_recurring == Some(true)
        &&& self.parent_schedule_id is None
    }

    /// A concrete job: it carries no cron expression and is not marked as
    /// recurring.
    pub open spec fn is_concrete(self) -> bool {
        &&& self.schedule is None
        &&& self.is_recurring != Some(true)
    }

    /// A concrete job that was made from the template `parent`.
    pub open spec fn is_materialized_from(self, parent: u128) -> bool {
        &&& self.is_concrete()
        &&& self.parent_schedule_id == Some(parent)
    }

    /// The same job in another status.
    pub open spec fn with_status(self, status: JobStatus) -> JobView {
        JobView { status, ..self }
    }
}

/// A copy of a list of strings.
pub fn clone_strings(v: &Vec<String>) -> (r: Vec<String>)
    ensures
        r.deep_view() == v.deep_view(),
{
    let mut r: Vec<String> = Vec::new();
    let mut i: usize = 0;
    while i < v.len()
        invariant
            i <= v.len(),
            r.len() == i,
            forall|k: int| 0 <= k < i ==> r[k]@ == v[k]@,
        decreases v.len() - i,
    {
        r.push(v[i].clone());
        i += 1;
    }
    assert(r.deep_view() =~= v.deep_view());
    r
}

/// A copy of an optional string.
pub fn clone_opt_string(s: &Option<String>) -> (r: Option<String>)
    ensures
        opt_text(r) == opt_text(*s),
{
    match s {
        Some(t) => Some(t.clone()),
        None => None,
    }
}

impl Clone for Job {
    fn clone(&self) -> (r: Self)
        ensures
            r@ == self@,
    {
        Job {
            id: self.id,
            command: self.command.clone(),
            args: clone_strings(&self.args),
            status: self.status,
            timestamp: self.timestamp,
            retry_count: self.retry_count,
            max_retries: self.max_retries,
            priority: self.priority,
            schedule: clone_opt_string(&self.schedule),
            next_run: self.next_run,
            is_recurring: self.is_recurring,
            parent_schedule_id: self.parent_schedule_id,
        }
    }
}

} // verus!
