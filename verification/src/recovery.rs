//! What is taken up again at start-up: the jobs that were pending or
//! running, in the order in which they were submitted.

use vstd::prelude::*;
use vstd::seq_lib::to_multiset_build;
use crate::instant::Timestamp;
use crate::job::Job;
use crate::job::JobStatus;
use crate::job::JobView;
use crate::queue::job_seq;

verus! {

/// The job was pending or running when the coordinator stopped.
pub open spec fn is_unfinished(job: JobView) -> bool {
    job.status == JobStatus::PENDING || job.status == JobStatus::RUNNING
}

/// The first instant is not later than the second.
pub open spec fn not_after(a: Timestamp, b: Timestamp) -> bool {
    a.total_nanos() <= b.total_nanos()
}

/// A list of jobs is in the order of submission: none stands before one
/// that was submitted earlier.
pub open spec fn in_order(jobs: Seq<JobView>) -> bool {
    forall|i: int, j: int|
        0 <= i < j < jobs.len() ==> not_after(
            (#[trigger] jobs[i]).timestamp,
            (#[trigger] jobs[j]).timestamp,
        )
}

/// A list in the order of submission with one more job: the job stands
/// behind every job that was not submitted later than it, and before all
/// others.
pub open spec fn placed(sorted: Seq<JobView>, job: JobView) -> Seq<JobView>
    decreases sorted.len(),
{
    if sorted.len() == 0 {
        seq![job]
    } else if not_after(sorted.last().timestamp, job.timestamp) {
        sorted.push(job)
    } else {
        placed(sorted.drop_last(), job).push(sorted.last())
    }
}

/// The jobs of a list that were pending or running, in the order of
/// submission; jobs submitted at the same instant keep the order of the
/// list.
pub open spec fn pending_in_order(jobs: Seq<JobView>) -> Seq<JobView>
    decreases jobs.len(),
{
    if jobs.len() == 0 {
        Seq::empty()
    } else {
        let rest = pending_in_order(jobs.drop_last());
        if is_unfinished(jobs.last()) {
            placed(rest, jobs.last())
        } else {
            rest
        }
    }
}

/// Placing a job is inserting it at the one position behind which every job
/// was submitted later, and before which the next job was not.
pub proof fn lemma_placed_at(sorted: Seq<JobView>, job: JobView, pos: int)
    requires
        0 <= pos <= sorted.len(),
        forall|k: int| pos <= k < sorted.len() ==> !not_after(sorted[k].timestamp, job.timestamp),
        pos > 0 ==> not_after(sorted[pos - 1].timestamp, job.timestamp),
    ensures
        placed(sorted, job) == sorted.insert(pos, job),
    decreases sorted.len(),
{
    if sorted.len() == 0 {
        assert(sorted.insert(0, job) =~= seq![job]);
    } else if pos == sorted.len() {
        assert(sorted.insert(pos, job) =~= sorted.push(job));
    } else {
        lemma_placed_at(sorted.drop_last(), job, pos);
        assert(sorted.insert(pos, job) =~= sorted.drop_last().insert(pos, job).push(sorted.last()));
    }
}

/// Placing a job into a list in the order of submission leaves the list in
/// that order, and adds that job and nothing else.
pub proof fn lemma_placed_keeps_order(sorted: Seq<JobView>, job: JobView)
    requires
        in_order(sorted),
    ensures
        in_order(placed(sorted, job)),
        placed(sorted, job).to_multiset() == sorted.to_multiset().insert(job),
        placed(sorted, job).len() == sorted.len() + 1,
    decreases sorted.len(),
{
    broadcast use to_multiset_build;

    if sorted.len() == 0 {
        assert(sorted =~= Seq::<JobView>::empty());
        assert(seq![job] =~= sorted.push(job));
        assert(placed(sorted, job).to_multiset() =~= sorted.to_multiset().insert(job));
    } else if not_after(sorted.last().timestamp, job.timestamp) {
        let out = sorted.push(job);
        assert(out.to_multiset() =~= sorted.to_multiset().insert(job));
        assert forall|i: int, j: int| 0 <= i < j < out.len() implies not_after(
            (#[trigger] out[i]).timestamp,
            (#[trigger] out[j]).timestamp,
        ) by {
            if j == sorted.len() {
                if i < sorted.len() - 1 {
                    assert(not_after(sorted[i].timestamp, sorted[sorted.len() - 1].timestamp));
                }
            }
        }
    } else {
        let rest = sorted.drop_last();
        assert(in_order(rest));
        lemma_placed_keeps_order(rest, job);
        let inner = placed(rest, job);
        let out = inner.push(sorted.last());
        assert(sorted =~= rest.push(sorted.last()));
        assert(out.to_multiset() =~= sorted.to_multiset().insert(job));
        assert forall|i: int, j: int| 0 <= i < j < out.len() implies not_after(
            (#[trigger] out[i]).timestamp,
            (#[trigger] out[j]).timestamp,
        ) by {
            if j == inner.len() {
                assert(inner.to_multiset().count(inner[i]) > 0) by {
                    assert(inner.to_multiset().contains(inner[i])) by {
                        vstd::seq_lib::to_multiset_contains(inner, inner[i]);
                    }
                }
                if inner[i] != job {
                    assert(rest.to_multiset().count(inner[i]) > 0);
                    vstd::seq_lib::to_multiset_contains(rest, inner[i]);
                    let k = choose|k: int| 0 <= k < rest.len() && rest[k] == inner[i];
                    assert(not_after(sorted[k].timestamp, sorted[sorted.len() - 1].timestamp));
                }
            }
        }
    }
}

/// What is taken up again is in the order of submission.
pub proof fn law_pending_in_order_is_ordered(jobs: Seq<JobView>)
    ensures
        in_order(pending_in_order(jobs)),
    decreases jobs.len(),
{
    if jobs.len() > 0 {
        law_pending_in_order_is_ordered(jobs.drop_last());
        if is_unfinished(jobs.last()) {
            lemma_placed_keeps_order(pending_in_order(jobs.drop_last()), jobs.last());
        }
    }
}

/// What is taken up again is exactly the jobs that were pending or
/// running, each as often as the list holds it.
pub proof fn law_pending_in_order_holds_the_unfinished(jobs: Seq<JobView>)
    ensures
        pending_in_order(jobs).to_multiset() == jobs.filter(
            |job: JobView| is_unfinished(job),
        ).to_multiset(),
    decreases jobs.len(),
{
    broadcast use to_multiset_build;

    let pred = |job: JobView| is_unfinished(job);
    reveal(Seq::filter);
    if jobs.len() > 0 {
        law_pending_in_order_holds_the_unfinished(jobs.drop_last());
        law_pending_in_order_is_ordered(jobs.drop_last());
        if is_unfinished(jobs.last()) {
            lemma_placed_keeps_order(pending_in_order(jobs.drop_last()), jobs.last());
            assert(jobs.filter(pred) == jobs.drop_last().filter(pred).push(jobs.last()));
        } else {
            assert(jobs.filter(pred) == jobs.drop_last().filter(pred));
        }
    } else {
        assert(jobs.filter(pred) =~= Seq::<JobView>::empty());
    }
}

/// No two jobs of the list have the same id.
pub open spec fn distinct_ids(jobs: Seq<JobView>) -> bool {
    forall|i: int, j: int|
        0 <= i < j < jobs.len() ==> (#[trigger] jobs[i]).id != (#[trigger] jobs[j]).id
}

/// Placing a job is inserting it somewhere.
pub proof fn lemma_placed_is_insert(sorted: Seq<JobView>, job: JobView) -> (pos: int)
    ensures
        0 <= pos <= sorted.len(),
        placed(sorted, job) == sorted.insert(pos, job),
    decreases sorted.len(),
{
    if sorted.len() == 0 {
        assert(sorted.insert(0, job) =~= seq![job]);
        0
    } else if not_after(sorted.last().timestamp, job.timestamp) {
        assert(sorted.insert(sorted.len() as int, job) =~= sorted.push(job));
        sorted.len() as int
    } else {
        let pos = lemma_placed_is_insert(sorted.drop_last(), job);
        assert(sorted.insert(pos, job) =~= sorted.drop_last().insert(pos, job).push(sorted.last()));
        pos
    }
}

/// What is taken up again holds a job exactly if the list holds it and it
/// was pending or running; and no id twice, where the list holds none
/// twice.
pub proof fn lemma_pending_in_order_lists(jobs: Seq<JobView>)
    ensures
        forall|job: JobView| #[trigger]
            pending_in_order(jobs).contains(job) <==> jobs.contains(job) && is_unfinished(job),
        distinct_ids(jobs) ==> distinct_ids(pending_in_order(jobs)),
    decreases jobs.len(),
{
    let out = pending_in_order(jobs);
    if jobs.len() == 0 {
        assert forall|job: JobView| #[trigger] out.contains(job) <==> jobs.contains(job)
            && is_unfinished(job) by {}
    } else {
        let rest = jobs.drop_last();
        let last = jobs.last();
        lemma_pending_in_order_lists(rest);
        let before = pending_in_order(rest);
        assert forall|job: JobView| rest.contains(job) || job == last <==> jobs.contains(job) by {
            if rest.contains(job) {
                let i = choose|i: int| 0 <= i < rest.len() && rest[i] == job;
                assert(jobs[i] == job);
            }
            if job == last {
                assert(jobs[jobs.len() - 1] == job);
            }
            if jobs.contains(job) {
                let i = choose|i: int| 0 <= i < jobs.len() && jobs[i] == job;
                if i < rest.len() {
                    assert(rest[i] == job);
                }
            }
        }
        if is_unfinished(last) {
            let pos = lemma_placed_is_insert(before, last);
            assert(out == before.insert(pos, last));
            assert forall|job: JobView| #[trigger] out.contains(job) <==> before.contains(job)
                || job == last by {
                if out.contains(job) {
                    let k = choose|k: int| 0 <= k < out.len() && out[k] == job;
                    if k < pos {
                        assert(before[k] == job);
                    } else if k > pos {
                        assert(before[k - 1] == job);
                    }
                }
                if before.contains(job) {
                    let k = choose|k: int| 0 <= k < before.len() && before[k] == job;
                    if k < pos {
                        assert(out[k] == job);
                    } else {
                        assert(out[k + 1] == job);
                    }
                }
                if job == last {
                    assert(out[pos] == job);
                }
            }
            if distinct_ids(jobs) {
                assert(distinct_ids(rest)) by {
                    assert forall|i: int, j: int| 0 <= i < j < rest.len() implies (
                    #[trigger] rest[i]).id != (#[trigger] rest[j]).id by {
                        assert(jobs[i] == rest[i] && jobs[j] == rest[j]);
                    }
                }
                assert forall|k: int| 0 <= k < before.len() implies (#[trigger] before[k]).id
                    != last.id by {
                    assert(before.contains(before[k]));
                    assert(rest.contains(before[k]));
                    let i = choose|i: int| 0 <= i < rest.len() && rest[i] == before[k];
                    assert(jobs[i] == rest[i]);
                    assert(jobs[i].id != jobs[jobs.len() - 1].id);
                }
                assert forall|i: int, j: int| 0 <= i < j < out.len() implies (#[trigger] out[i]).id
                    != (#[trigger] out[j]).id by {
                    let a = if i < pos {
                        i
                    } else {
                        i - 1
                    };
                    let b = if j < pos {
                        j
                    } else {
                        j - 1
                    };
                    if i != pos && j != pos {
                        assert(out[i] == before[a] && out[j] == before[b]);
                        assert(before[a].id != before[b].id);
                    } else if i == pos {
                        assert(out[j] == before[b]);
                    } else {
                        assert(out[i] == before[a]);
                    }
                }
            }
        } else {
            if distinct_ids(jobs) {
                assert(distinct_ids(rest)) by {
                    assert forall|i: int, j: int| 0 <= i < j < rest.len() implies (
                    #[trigger] rest[i]).id != (#[trigger] rest[j]).id by {
                        assert(jobs[i] == rest[i] && jobs[j] == rest[j]);
                    }
                }
            }
        }
    }
}

/// The jobs of a list that were pending or running, in the order of
/// submission; jobs submitted at the same instant keep the order of the
/// list.
pub fn unfinished_in_order(jobs: &Vec<Job>) -> (out: Vec<Job>)
    ensures
        job_seq(out@) == pending_in_order(job_seq(jobs@)),
        in_order(job_seq(out@)),
{
    let ghost all = job_seq(jobs@);
    let mut out: Vec<Job> = Vec::new();
    let mut taken: usize = 0;
    assert(job_seq(out@) =~= Seq::empty());
    assert(all.take(0) =~= Seq::empty());
    while taken < jobs.len()
        invariant
            taken <= jobs.len(),
            all == job_seq(jobs@),
            job_seq(out@) == pending_in_order(all.take(taken as int)),
        decreases jobs.len() - taken,
    {
        let ghost before = job_seq(out@);
        let job = jobs[taken].clone();
        proof {
            assert(all.take(taken + 1).drop_last() =~= all.take(taken as int));
            assert(all.take(taken + 1).last() == job@);
            law_pending_in_order_is_ordered(all.take(taken as int));
        }
        if job.status == JobStatus::PENDING || job.status == JobStatus::RUNNING {
            let mut pos: usize = out.len();
            while pos > 0 && out[pos - 1].timestamp.since(&job.timestamp) > 0
                invariant
                    pos <= out.len(),
                    job_seq(out@) == before,
                    forall|k: int|
                        pos <= k < before.len() ==> !not_after(before[k].timestamp, job@.timestamp),
                decreases pos,
            {
                assert(before[pos - 1] == out@[pos - 1]@);
                pos -= 1;
            }
            proof {
                if pos > 0 {
                    assert(before[pos - 1] == out@[pos - 1]@);
                }
                lemma_placed_at(before, job@, pos as int);
            }
            out.insert(pos, job);
            assert(job_seq(out@) =~= before.insert(pos as int, job@));
        }
        taken += 1;
    }
    proof {
        assert(all.take(all.len() as int) =~= all);
        law_pending_in_order_is_ordered(all);
    }
    out
}

} // verus!
