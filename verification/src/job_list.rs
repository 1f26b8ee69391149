//! The list of all jobs below a job root.
use vstd::prelude::*;
use vstd::seq_lib::to_multiset_build;

use crate::job::{JobSnapshot, JobSnapshotView};
use crate::stored::{Stored, StoredView};
use crate::text::{joined, outcome_view};

verus! {

/// One entry of a job root.
#[derive(Debug)]
pub enum JobEntry {
    /// The entry could not be read.
    Unreadable(String),
    /// The kind of the entry at this path could not be told.
    Uninspected(String, String),
    /// Something that is not a directory.
    Other,
    /// A directory, and what its records show.
    Job(Result<JobSnapshot, String>),
}

/// The view of a [`JobEntry`].
pub enum JobEntryView {
    Unreadable(Seq<char>),
    Uninspected(Seq<char>, Seq<char>),
    Other,
    Job(Result<JobSnapshotView, Seq<char>>),
}

impl View for JobEntry {
    type V = JobEntryView;

    open spec fn view(&self) -> JobEntryView {
        match *self {
            JobEntry::Unreadable(error) => JobEntryView::Unreadable(error@),
            JobEntry::Uninspected(path, error) => JobEntryView::Uninspected(path@, error@),
            JobEntry::Other => JobEntryView::Other,
            JobEntry::Job(snapshot) => JobEntryView::Job(outcome_view(snapshot)),
        }
    }
}

/// What some entries look like.
pub open spec fn entry_views(entries: Seq<JobEntry>) -> Seq<JobEntryView> {
    entries.map_values(|entry: JobEntry| entry@)
}

/// What some jobs look like.
pub open spec fn job_views(jobs: Seq<JobSnapshot>) -> Seq<JobSnapshotView> {
    jobs.map_values(|job: JobSnapshot| job@)
}

/// A job, put behind the last one that is not younger.
pub open spec fn inserted(jobs: Seq<JobSnapshotView>, job: JobSnapshotView) -> Seq<JobSnapshotView>
    decreases jobs.len(),
{
    if jobs.len() > 0 && jobs.last().created_at_ms > job.created_at_ms {
        inserted(jobs.drop_last(), job).push(jobs.last())
    } else {
        jobs.push(job)
    }
}

/// The jobs among some entries, the oldest first; jobs of one age keep their order. The first
/// entry that cannot be read decides the error.
pub open spec fn listed(entries: Seq<JobEntryView>) -> Result<Seq<JobSnapshotView>, Seq<char>>
    decreases entries.len(),
{
    if entries.len() == 0 {
        Ok(seq![])
    } else {
        match listed(entries.drop_last()) {
            Err(error) => Err(error),
            Ok(jobs) => match entries.last() {
                JobEntryView::Unreadable(error) => Err("read job root entry: "@ + error),
                JobEntryView::Uninspected(path, error) => Err(
                    "inspect "@ + path + ": "@ + error,
                ),
                JobEntryView::Other => Ok(jobs),
                JobEntryView::Job(Err(error)) => Err(error),
                JobEntryView::Job(Ok(job)) => Ok(inserted(jobs, job)),
            },
        }
    }
}

/// The jobs below a job root. A root that does not exist holds none.
pub open spec fn listing(root: Seq<char>, entries: StoredView<Seq<JobEntryView>>) -> Result<
    Seq<JobSnapshotView>,
    Seq<char>,
> {
    match entries {
        StoredView::Missing => Ok(seq![]),
        StoredView::Failed(error) => Err("read job root "@ + root + ": "@ + error),
        StoredView::Found(entries) => listed(entries),
    }
}

/// The view of a job root that was read.
pub open spec fn entries_of(entries: Stored<Vec<JobEntry>>) -> StoredView<Seq<JobEntryView>> {
    match entries {
        Stored::Missing => StoredView::Missing,
        Stored::Failed(error) => StoredView::Failed(error@),
        Stored::Found(entries) => StoredView::Found(entry_views(entries@)),
    }
}

proof fn lemma_inserted(jobs: Seq<JobSnapshotView>, job: JobSnapshotView, position: int)
    requires
        0 <= position <= jobs.len(),
        position > 0 ==> jobs[position - 1].created_at_ms <= job.created_at_ms,
        forall|i: int| position <= i < jobs.len() ==> #[trigger] jobs[i].created_at_ms
            > job.created_at_ms,
    ensures
        inserted(jobs, job) == jobs.insert(position, job),
    decreases jobs.len(),
{
    if position < jobs.len() {
        lemma_inserted(jobs.drop_last(), job, position);
        assert(jobs.drop_last().insert(position, job).push(jobs.last()) =~= jobs.insert(
            position,
            job,
        ));
    } else {
        assert(jobs.push(job) =~= jobs.insert(position, job));
    }
}

fn insert_job(jobs: &mut Vec<JobSnapshot>, job: JobSnapshot)
    ensures
        job_views(final(jobs)@) == inserted(job_views(old(jobs)@), job@),
{
    let mut position: usize = jobs.len();
    while position > 0 && jobs[position - 1].created_at_ms > job.created_at_ms
        invariant
            position <= jobs@.len(),
            forall|i: int|
                position <= i < jobs@.len() ==> #[trigger] jobs@[i].created_at_ms
                    > job.created_at_ms,
        decreases position,
    {
        position = position - 1;
    }
    proof {
        let views = job_views(jobs@);
        assert forall|i: int| position <= i < views.len() implies #[trigger] views[i].created_at_ms
            > job@.created_at_ms by {
            assert(views[i] == jobs@[i]@);
        }
        lemma_inserted(views, job@, position as int);
    }
    jobs.insert(position, job);
    assert(job_views(jobs@) =~= job_views(old(jobs)@).insert(position as int, job@));
}

/// The views of the jobs in a result.
pub open spec fn jobs_outcome(result: Result<Vec<JobSnapshot>, String>) -> Result<
    Seq<JobSnapshotView>,
    Seq<char>,
> {
    match result {
        Ok(jobs) => Ok(job_views(jobs@)),
        Err(error) => Err(error@),
    }
}

/// Lists the jobs below a job root, the oldest first.
pub fn list(root: &str, stored: Stored<Vec<JobEntry>>) -> (result: Result<Vec<JobSnapshot>, String>)
    ensures
        jobs_outcome(result) == listing(root@, entries_of(stored)),
{
    let mut jobs: Vec<JobSnapshot> = Vec::new();
    let mut entries = match stored {
        Stored::Missing => {
            assert(job_views(jobs@) =~= seq![]);
            return Ok(jobs);
        },
        Stored::Failed(cause) => {
            let mut error = joined("read job root ", root);
            error.append(": ");
            error.append(cause.as_str());
            return Err(error);
        },
        Stored::Found(entries) => entries,
    };
    let ghost all = entry_views(entries@);
    let ghost given = entries@;
    let count: usize = entries.len();
    let mut index: usize = 0;
    assert(all.take(0) =~= seq![]);
    assert(job_views(jobs@) =~= seq![]);
    assert(given.skip(0) =~= given);
    while index < count
        invariant
            index <= count,
            count == given.len(),
            all == entry_views(given),
            entries_of(stored) == StoredView::Found(all),
            entries@ == given.skip(index as int),
            listed(all.take(index as int)) == Ok::<Seq<JobSnapshotView>, Seq<char>>(
                job_views(jobs@),
            ),
        ensures
            index == count,
            listed(all.take(index as int)) == Ok::<Seq<JobSnapshotView>, Seq<char>>(
                job_views(jobs@),
            ),
        decreases count - index,
    {
        let entry = entries.remove(0);
        index = index + 1;
        proof {
            let now = all.take(index as int);
            assert(now.drop_last() =~= all.take(index - 1));
            assert(now.last() == entry@);
            assert(entries@ =~= given.skip(index as int));
            lemma_failed_prefix(all, index as int);
        }
        match entry {
            JobEntry::Unreadable(cause) => {
                return Err(joined("read job root entry: ", cause.as_str()));
            },
            JobEntry::Uninspected(path, cause) => {
                let mut error = joined("inspect ", path.as_str());
                error.append(": ");
                error.append(cause.as_str());
                return Err(error);
            },
            JobEntry::Other => {},
            JobEntry::Job(Err(error)) => return Err(error),
            JobEntry::Job(Ok(job)) => insert_job(&mut jobs, job),
        }
    }
    assert(all.take(index as int) =~= all);
    Ok(jobs)
}

proof fn lemma_failed_prefix(entries: Seq<JobEntryView>, length: int)
    requires
        0 <= length <= entries.len(),
    ensures
        listed(entries.take(length)) matches Err(error) ==> listed(entries) == Err::<
            Seq<JobSnapshotView>,
            Seq<char>,
        >(error),
    decreases entries.len(),
{
    if length < entries.len() {
        lemma_failed_prefix(entries.drop_last(), length);
        assert(entries.drop_last().take(length) =~= entries.take(length));
    } else {
        assert(entries.take(length) =~= entries);
    }
}

proof fn lemma_inserted_keeps(jobs: Seq<JobSnapshotView>, job: JobSnapshotView)
    requires
        oldest_first(jobs),
    ensures
        oldest_first(inserted(jobs, job)),
        inserted(jobs, job).to_multiset() == jobs.to_multiset().insert(job),
        inserted(jobs, job).len() > 0,
        jobs.len() > 0 && jobs.last().created_at_ms > job.created_at_ms ==> inserted(
            jobs,
            job,
        ).last() == jobs.last(),
        !(jobs.len() > 0 && jobs.last().created_at_ms > job.created_at_ms) ==> inserted(
            jobs,
            job,
        ).last() == job,
    decreases jobs.len(),
{
    broadcast use to_multiset_build;

    if jobs.len() > 0 && jobs.last().created_at_ms > job.created_at_ms {
        let rest = jobs.drop_last();
        lemma_inserted_keeps(rest, job);
        assert(rest.push(jobs.last()) =~= jobs);
        let before = inserted(rest, job);
        assert(inserted(jobs, job) == before.push(jobs.last()));
        assert(before.push(jobs.last()).to_multiset() == before.to_multiset().insert(jobs.last()));
        assert(jobs.to_multiset() == rest.to_multiset().insert(jobs.last()));
        assert(rest.to_multiset().insert(job).insert(jobs.last()) =~= rest.to_multiset().insert(
            jobs.last(),
        ).insert(job));
        assert(before.last().created_at_ms <= jobs.last().created_at_ms);
    }
}

/// Whether jobs stand in the order of their creation.
pub open spec fn oldest_first(jobs: Seq<JobSnapshotView>) -> bool {
    forall|i: int, j: int|
        0 <= i <= j < jobs.len() ==> #[trigger] jobs[i].created_at_ms
            <= #[trigger] jobs[j].created_at_ms
}

/// The jobs among some entries that were all read.
pub open spec fn jobs_among(entries: Seq<JobEntryView>) -> Seq<JobSnapshotView>
    decreases entries.len(),
{
    if entries.len() == 0 {
        seq![]
    } else {
        match entries.last() {
            JobEntryView::Job(Ok(job)) => jobs_among(entries.drop_last()).push(job),
            _ => jobs_among(entries.drop_last()),
        }
    }
}

/// A list of jobs holds every job once and nothing else, the oldest first.
pub proof fn a_list_is_complete_and_ordered(entries: Seq<JobEntryView>)
    ensures
        listed(entries) matches Ok(jobs) ==> oldest_first(jobs) && jobs.to_multiset() == jobs_among(
            entries,
        ).to_multiset(),
    decreases entries.len(),
{
    broadcast use to_multiset_build;

    if entries.len() > 0 {
        a_list_is_complete_and_ordered(entries.drop_last());
        if let Ok(jobs) = listed(entries.drop_last()) {
            if let JobEntryView::Job(Ok(job)) = entries.last() {
                lemma_inserted_keeps(jobs, job);
            }
        }
    }
}

} // verus!
