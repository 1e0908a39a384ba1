//! Commands that the job lifecycle hands to the ledger, each carried by barriers.
use vstd::prelude::*;
use crate::epoch::{ActorId, DatabaseId, FragmentId, TableId};

verus! {

/// How a job is created.
#[derive(Clone, Copy, PartialEq, Eq, Debug)]
pub enum CreateStreamingJobType {
    Normal,
    /// A sink into a table, whose plan is replaced in the same command.
    SinkIntoTable { replace_table_id: TableId },
    /// Bootstrapped from a snapshot in a partial graph of its own.
    SnapshotBackfill,
}

/// A command for the barrier ledger of a database.
pub enum Command {
    /// Create a streaming job.
    CreateStreamingJob { job_id: TableId, database_id: DatabaseId, job_type: CreateStreamingJobType },
    /// Replace the plan of a streaming job.
    ReplaceStreamJob { job_id: TableId, tmp_id: u32, to_drop_state_table_ids: Vec<TableId> },
    /// Drop streaming jobs with their actors, state tables and fragments.
    DropStreamingJobs {
        table_fragments_ids: Vec<TableId>,
        actors: Vec<ActorId>,
        unregistered_state_table_ids: Vec<TableId>,
        unregistered_fragment_ids: Vec<FragmentId>,
    },
    /// Add a subscription on an upstream materialized view.
    CreateSubscription { subscription_id: u32, upstream_mv_table_id: TableId, retention_second: u64 },
    /// Remove a subscription.
    DropSubscription { subscription_id: u32, upstream_mv_table_id: TableId },
    /// Cancel a creating job and drop the actors already built for it.
    CancelStreamJob { job_id: TableId, actors: Vec<ActorId> },
    /// Merge bootstrapped jobs into the steady-state graph.
    MergeSnapshotBackfillStreamingJobs(Vec<TableId>),
    /// Move actors between workers.
    RescheduleActors { job_id: TableId },
}

/// `command` merges `job_id` into the steady-state graph.
pub open spec fn merges_job(command: Option<&Command>, job_id: TableId) -> bool {
    command matches Some(c) && c matches Command::MergeSnapshotBackfillStreamingJobs(jobs) && jobs@.contains(job_id)
}

/// Whether `command` merges `job_id` into the steady-state graph.
pub fn is_merge_of(command: Option<&Command>, job_id: TableId) -> (r: bool)
    ensures
        r == merges_job(command, job_id),
{
    match command {
        Some(Command::MergeSnapshotBackfillStreamingJobs(jobs)) => {
            let mut i: usize = 0;
            while i < jobs.len()
                invariant
                    i <= jobs@.len(),
                    command == Some(&Command::MergeSnapshotBackfillStreamingJobs(*jobs)),
                    forall|k: int| 0 <= k < i ==> jobs@[k] != job_id,
                decreases jobs@.len() - i,
            {
                if jobs[i] == job_id {
                    assert(jobs@[i as int] == job_id);
                    assert(jobs@.contains(job_id));
                    return true;
                }
                i = i + 1;
            }
            false
        },
        _ => false,
    }
}

} // verus!
