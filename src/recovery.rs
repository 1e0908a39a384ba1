//! Recovery of a database: the initial barrier that rebuilds its steady-state graph
//! and its creating jobs from persisted epochs, and the collection of that barrier.
use vstd::prelude::*;
use crate::control_stream::{
    all_workers_connected, from_partial_graph_id, to_partial_graph_id, valid_job_graph,
    ControlStreamError, ControlStreamManager, DATABASE_PARTIAL_GRAPH_ID,
};
use crate::creating_job::{
    copy_fragments, recoverable, upstream_log_of, CreatingJobError, CreatingStreamingJobControl,
};
use crate::epoch::{
    epoch_at, from_physical_time, physical_time, ActorId, BarrierInfo, BarrierKind, DatabaseId,
    TableId, WorkerId, MAX_PHYSICAL_TIME,
};
use crate::graph_info::{existing_table_ids, graph_table_ids, InflightFragmentInfo, InflightStreamingJobInfo};
use crate::node_to_collect::{is_valid_after_worker_err, survives_worker_err, NodeToCollect};
use crate::protocol::{
    ActorToBuild, AddMutation, BarrierCompleteResponse, DatabaseInitialPartialGraph,
    InitRequest, InitialPartialGraph, Mutation, SubscriptionUpstreamInfo,
};
use crate::upstream_log::LogEpochs;

verus! {

broadcast use vstd::std_specs::hash::group_hash_axioms;

/// The epoch after `prev` at physical time `physical_now`, which must be past `prev`'s.
pub open spec fn next_epoch_spec(prev: u64, physical_now: u64) -> Option<u64> {
    if physical_now > prev / 65536 && physical_now <= MAX_PHYSICAL_TIME {
        Some(epoch_at(physical_now as nat) as u64)
    } else {
        None
    }
}

/// The epoch after `prev` at physical time `physical_now`; none where the clock has not
/// moved past `prev`.
pub fn next_epoch(prev: u64, physical_now: u64) -> (r: Option<u64>)
    ensures
        r == next_epoch_spec(prev, physical_now),
        r matches Some(e) ==> e > prev,
{
    if physical_now > physical_time(prev) && physical_now <= MAX_PHYSICAL_TIME {
        let e = from_physical_time(physical_now);
        assert(e > prev) by (nonlinear_arith)
            requires
                e == physical_now * 65536,
                physical_now > prev / 65536,
        ;
        Some(e)
    } else {
        None
    }
}

/// The committed epoch of `table_id` among `epochs`: the first entry for it.
pub open spec fn committed_epoch_of(epochs: Seq<(TableId, u64)>, table_id: TableId) -> Option<u64>
    decreases epochs.len(),
{
    if epochs.len() == 0 {
        None
    } else if epochs[0].0 == table_id {
        Some(epochs[0].1)
    } else {
        committed_epoch_of(epochs.drop_first(), table_id)
    }
}

/// Every table has the committed epoch `e`.
pub open spec fn all_committed_at(tables: Seq<TableId>, epochs: Seq<(TableId, u64)>, e: u64) -> bool {
    forall|i: int| 0 <= i < tables.len() ==> committed_epoch_of(epochs, #[trigger] tables[i]) == Some(e)
}

/// The one epoch that all the tables committed, where they share one.
pub open spec fn common_epoch(tables: Seq<TableId>, epochs: Seq<(TableId, u64)>) -> Option<u64> {
    if tables.len() > 0 && committed_epoch_of(epochs, tables[0]) is Some && all_committed_at(
        tables,
        epochs,
        committed_epoch_of(epochs, tables[0])->Some_0,
    ) {
        committed_epoch_of(epochs, tables[0])
    } else {
        None
    }
}

/// The state tables of the jobs, job after job.
pub open spec fn jobs_table_ids(jobs: Seq<InflightStreamingJobInfo>) -> Seq<TableId>
    decreases jobs.len(),
{
    if jobs.len() == 0 {
        Seq::empty()
    } else {
        jobs_table_ids(jobs.drop_last()) + graph_table_ids(jobs.last().fragment_infos@)
    }
}

/// The one snapshot epoch that all upstreams of a job record, where there is one.
pub open spec fn snapshot_epoch_of(ups: Seq<UpstreamSnapshotEpoch>) -> Option<u64> {
    if ups.len() > 0 && ups[0].snapshot_epoch is Some && forall|i: int|
        0 <= i < ups.len() ==> (#[trigger] ups[i]).snapshot_epoch == ups[0].snapshot_epoch {
        ups[0].snapshot_epoch
    } else {
        None
    }
}

/// The index of the first background job at or after `from` with id `job_id`, or the
/// length where there is none.
pub open spec fn background_from(bgs: Seq<BackgroundJob>, job_id: TableId, from: int) -> int
    decreases bgs.len() - from,
{
    if from < 0 || from >= bgs.len() || bgs[from].job_id == job_id {
        from
    } else {
        background_from(bgs, job_id, from + 1)
    }
}

/// The upstreams of `job_id`, where its background record says it bootstraps from a
/// snapshot.
pub open spec fn snapshot_upstreams(bgs: Seq<BackgroundJob>, job_id: TableId) -> Option<
    Seq<UpstreamSnapshotEpoch>,
> {
    let i = background_from(bgs, job_id, 0);
    if 0 <= i < bgs.len() && bgs[i].snapshot_backfill is Some {
        Some(bgs[i].snapshot_backfill->Some_0@)
    } else {
        None
    }
}

/// The job was bootstrapping from a snapshot when the control plane stopped.
pub open spec fn is_snapshot_job(bgs: Seq<BackgroundJob>, job: InflightStreamingJobInfo) -> bool {
    snapshot_upstreams(bgs, job.job_id) is Some
}

/// The job's state tables all committed `c`: it caught up with the steady state.
pub open spec fn caught_up(job: InflightStreamingJobInfo, epochs: Seq<(TableId, u64)>, c: u64) -> bool {
    common_epoch(graph_table_ids(job.fragment_infos@), epochs) == Some(c)
}

/// Every worker holding an actor of the jobs is connected.
pub open spec fn jobs_workers_connected(jobs: Seq<InflightStreamingJobInfo>, connected: Seq<WorkerId>) -> bool {
    forall|i: int| 0 <= i < jobs.len() ==> all_workers_connected(#[trigger] jobs[i].fragment_infos@, connected)
}

/// The upstream table ids of a job's upstreams, in order.
pub open spec fn upstream_ids(ups: Seq<UpstreamSnapshotEpoch>) -> Seq<TableId> {
    ups.map_values(|u: UpstreamSnapshotEpoch| u.upstream_table_id)
}

/// A snapshot-backfill job behind the steady state can be rebuilt as a creating job:
/// its upstreams agree on a snapshot epoch, its id can name a graph, its first
/// upstream is a steady-state job whose log can be replayed from the job's state, and
/// its workers are connected.
pub open spec fn behind_job_recoverable(
    job: InflightStreamingJobInfo,
    bgs: Seq<BackgroundJob>,
    epochs: Seq<(TableId, u64)>,
    logs: Seq<(TableId, Vec<LogEpochs>)>,
    database_jobs: Seq<InflightStreamingJobInfo>,
    connected: Seq<WorkerId>,
) -> bool {
    let ups = snapshot_upstreams(bgs, job.job_id)->Some_0;
    let ids = upstream_ids(ups);
    &&& snapshot_epoch_of(ups) is Some
    &&& job.job_id != DATABASE_PARTIAL_GRAPH_ID
    &&& (exists|i: int| 0 <= i < database_jobs.len() && (#[trigger] database_jobs[i]).job_id == ids[0])
    &&& upstream_log_of(ids, logs) is Some
    &&& recoverable(
        upstream_log_of(ids, logs)->Some_0,
        common_epoch(graph_table_ids(job.fragment_infos@), epochs)->Some_0,
        snapshot_epoch_of(ups)->Some_0,
    )
    &&& all_workers_connected(job.fragment_infos@, connected)
}

/// The jobs of the steady-state graph before recovery: those not bootstrapping from a
/// snapshot.
pub open spec fn steady_jobs(jobs: Seq<InflightStreamingJobInfo>, bgs: Seq<BackgroundJob>) -> Seq<
    InflightStreamingJobInfo,
> {
    jobs.filter(|j: InflightStreamingJobInfo| !is_snapshot_job(bgs, j))
}

/// The jobs that were bootstrapping from a snapshot.
pub open spec fn snapshot_jobs(jobs: Seq<InflightStreamingJobInfo>, bgs: Seq<BackgroundJob>) -> Seq<
    InflightStreamingJobInfo,
> {
    jobs.filter(|j: InflightStreamingJobInfo| is_snapshot_job(bgs, j))
}

/// The jobs of the recovered steady-state graph: the steady jobs, then the snapshot
/// jobs that caught up with epoch `c`.
pub open spec fn recovered_database_jobs(
    jobs: Seq<InflightStreamingJobInfo>,
    bgs: Seq<BackgroundJob>,
    epochs: Seq<(TableId, u64)>,
    c: u64,
) -> Seq<InflightStreamingJobInfo> {
    steady_jobs(jobs, bgs) + snapshot_jobs(jobs, bgs).filter(
        |j: InflightStreamingJobInfo| caught_up(j, epochs, c),
    )
}

/// The snapshot jobs still behind epoch `c`, rebuilt as creating jobs.
pub open spec fn behind_jobs(
    jobs: Seq<InflightStreamingJobInfo>,
    bgs: Seq<BackgroundJob>,
    epochs: Seq<(TableId, u64)>,
    c: u64,
) -> Seq<InflightStreamingJobInfo> {
    snapshot_jobs(jobs, bgs).filter(|j: InflightStreamingJobInfo| !caught_up(j, epochs, c))
}

/// A database can be recovered from this state: its steady jobs' state tables share
/// a committed epoch `c`, the clock is past `c`, every snapshot job's tables share a
/// committed epoch, the recovered steady-state graph's workers are connected, and
/// every snapshot job behind `c` can be rebuilt.
pub open spec fn initial_recovery_succeeds(
    jobs: Seq<InflightStreamingJobInfo>,
    bgs: Seq<BackgroundJob>,
    epochs: Seq<(TableId, u64)>,
    logs: Seq<(TableId, Vec<LogEpochs>)>,
    connected: Seq<WorkerId>,
    physical_now: u64,
) -> bool {
    let c = common_epoch(jobs_table_ids(steady_jobs(jobs, bgs)), epochs)->Some_0;
    let db = recovered_database_jobs(jobs, bgs, epochs, c);
    &&& common_epoch(jobs_table_ids(steady_jobs(jobs, bgs)), epochs) is Some
    &&& next_epoch_spec(c, physical_now) is Some
    &&& forall|i: int|
        0 <= i < snapshot_jobs(jobs, bgs).len() ==> common_epoch(
            graph_table_ids((#[trigger] snapshot_jobs(jobs, bgs)[i]).fragment_infos@),
            epochs,
        ) is Some
    &&& jobs_workers_connected(db, connected)
    &&& forall|i: int|
        0 <= i < behind_jobs(jobs, bgs, epochs, c).len() ==> behind_job_recoverable(
            #[trigger] behind_jobs(jobs, bgs, epochs, c)[i],
            bgs,
            epochs,
            logs,
            db,
            connected,
        )
}

/// `(committed, snapshot)` are the committed epoch of a snapshot job behind the steady
/// state and the snapshot epoch its upstreams agree on.
pub open spec fn behind_epochs_of(
    job: InflightStreamingJobInfo,
    pair: (u64, u64),
    bgs: Seq<BackgroundJob>,
    epochs: Seq<(TableId, u64)>,
) -> bool {
    &&& snapshot_upstreams(bgs, job.job_id) is Some
    &&& common_epoch(graph_table_ids(job.fragment_infos@), epochs) == Some(pair.0)
    &&& snapshot_epoch_of(snapshot_upstreams(bgs, job.job_id)->Some_0) == Some(pair.1)
}

/// `control` is the creating job rebuilt for the snapshot job `job`: from its own
/// committed epoch and the snapshot epoch of its upstreams, in the stage that `recover`
/// picks for them.
pub open spec fn rebuilt_from(
    control: CreatingStreamingJobControl,
    job: InflightStreamingJobInfo,
    bgs: Seq<BackgroundJob>,
    epochs: Seq<(TableId, u64)>,
) -> bool {
    let committed = common_epoch(graph_table_ids(job.fragment_infos@), epochs)->Some_0;
    let snapshot = snapshot_epoch_of(snapshot_upstreams(bgs, job.job_id)->Some_0)->Some_0;
    &&& control.wf()
    &&& control.job_id == job.job_id
    &&& control.graph_info == job
    &&& control.backfill_epoch == snapshot
    &&& (committed < snapshot <==> control.status is ConsumingSnapshot)
    &&& (committed >= snapshot <==> control.status is ConsumingLogStore)
    &&& control.barrier_control.is_first_committed
    &&& control.barrier_control.injected@.len() == 1
}

proof fn lemma_filter_push<A>(s: Seq<A>, x: A, p: spec_fn(A) -> bool)
    ensures
        s.push(x).filter(p) == if p(x) {
            s.filter(p).push(x)
        } else {
            s.filter(p)
        },
{
    reveal(Seq::filter);
    assert(s.push(x).drop_last() =~= s);
}

proof fn lemma_background_from(bgs: Seq<BackgroundJob>, job_id: TableId, from: int)
    requires
        0 <= from,
    ensures
        from <= background_from(bgs, job_id, from),
    decreases bgs.len() - from,
{
    if from < bgs.len() && bgs[from].job_id != job_id {
        lemma_background_from(bgs, job_id, from + 1);
    }
}

fn find_background(bgs: &Vec<BackgroundJob>, job_id: TableId) -> (r: Option<usize>)
    ensures
        r is Some <==> background_from(bgs@, job_id, 0) < bgs@.len(),
        r matches Some(i) ==> i as int == background_from(bgs@, job_id, 0) && bgs@[i as int].job_id == job_id,
{
    let mut i: usize = 0;
    while i < bgs.len() && bgs[i].job_id != job_id
        invariant
            i <= bgs@.len(),
            background_from(bgs@, job_id, i as int) == background_from(bgs@, job_id, 0),
        decreases bgs@.len() - i,
    {
        i = i + 1;
    }
    if i < bgs.len() {
        Some(i)
    } else {
        None
    }
}

fn jobs_tables(jobs: &Vec<InflightStreamingJobInfo>) -> (r: Vec<TableId>)
    ensures
        r@ == jobs_table_ids(jobs@),
{
    let mut r: Vec<TableId> = Vec::new();
    let mut i: usize = 0;
    while i < jobs.len()
        invariant
            i <= jobs@.len(),
            r@ == jobs_table_ids(jobs@.subrange(0, i as int)),
        decreases jobs@.len() - i,
    {
        let mut tables = existing_table_ids(&jobs[i].fragment_infos);
        r.append(&mut tables);
        proof {
            assert(jobs@.subrange(0, i + 1).drop_last() =~= jobs@.subrange(0, i as int));
        }
        i = i + 1;
    }
    assert(jobs@.subrange(0, jobs@.len() as int) =~= jobs@);
    r
}

fn upstream_table_ids(ups: &Vec<UpstreamSnapshotEpoch>) -> (r: Vec<TableId>)
    ensures
        r@ == upstream_ids(ups@),
{
    let mut r: Vec<TableId> = Vec::new();
    let mut i: usize = 0;
    while i < ups.len()
        invariant
            i <= ups@.len(),
            r@.len() == i,
            forall|k: int| 0 <= k < i ==> r@[k] == (#[trigger] ups@[k]).upstream_table_id,
        decreases ups@.len() - i,
    {
        r.push(ups[i].upstream_table_id);
        i = i + 1;
    }
    assert(r@ =~= upstream_ids(ups@));
    r
}

fn contains_job(jobs: &Vec<InflightStreamingJobInfo>, job_id: TableId) -> (r: bool)
    ensures
        r == exists|i: int| 0 <= i < jobs@.len() && (#[trigger] jobs@[i]).job_id == job_id,
{
    let mut i: usize = 0;
    while i < jobs.len()
        invariant
            i <= jobs@.len(),
            forall|k: int| 0 <= k < i ==> (#[trigger] jobs@[k]).job_id != job_id,
        decreases jobs@.len() - i,
    {
        if jobs[i].job_id == job_id {
            return true;
        }
        i = i + 1;
    }
    false
}

/// A committed-epoch error names tables whose committed epochs are missing or differ.
pub open spec fn committed_epoch_error_explained(e: RecoveryError, epochs: Seq<(TableId, u64)>) -> bool {
    match e {
        RecoveryError::NoStateTable => true,
        RecoveryError::MissingCommittedEpoch(t) => committed_epoch_of(epochs, t) is None,
        RecoveryError::CommittedEpochMismatch { first, other } => committed_epoch_of(epochs, first) is Some
            && committed_epoch_of(epochs, other) is Some && committed_epoch_of(epochs, first)
            != committed_epoch_of(epochs, other),
        _ => false,
    }
}

/// Each error of a database recovery has its cause: committed epochs that are missing
/// or disagree, a clock not past the committed epoch, a job's snapshot epochs that are
/// missing or disagree, a job id that cannot name a graph, a worker holding actors
/// that is not connected, or a creating job that cannot be rebuilt from its log.
pub open spec fn recovery_error_explained(
    e: RecoveryError,
    bgs: Seq<BackgroundJob>,
    epochs: Seq<(TableId, u64)>,
    connected: Seq<WorkerId>,
    physical_now: u64,
) -> bool {
    match e {
        RecoveryError::ClockNotAdvanced => exists|t: TableId, c: u64|
            #![trigger committed_epoch_of(epochs, t), next_epoch_spec(c, physical_now)]
            committed_epoch_of(epochs, t) == Some(c) && next_epoch_spec(c, physical_now) is None,
        RecoveryError::SnapshotEpochMissing { job_id, .. } => snapshot_upstreams(bgs, job_id) matches Some(
            u,
        ) && snapshot_error_explained(e, job_id, u),
        RecoveryError::SnapshotEpochMismatch { job_id } => snapshot_upstreams(bgs, job_id) matches Some(u)
            && snapshot_error_explained(e, job_id, u),
        RecoveryError::NoUpstream(job_id) => snapshot_upstreams(bgs, job_id) matches Some(u)
            && snapshot_error_explained(e, job_id, u),
        RecoveryError::InvalidJobId(j) => j == DATABASE_PARTIAL_GRAPH_ID,
        RecoveryError::ControlStream(ce) => ce matches ControlStreamError::UnconnectedWorker(w)
            && !connected.contains(w),
        RecoveryError::CreatingJob(ce) => match ce {
            CreatingJobError::ControlStream(x) => x matches ControlStreamError::UnconnectedWorker(w)
                && !connected.contains(w),
            CreatingJobError::EpochNotIncreasing { .. } => false,
            _ => true,
        },
        _ => committed_epoch_error_explained(e, epochs),
    }
}

/// The messages that create a database's steady-state graph on every connected worker.
pub open spec fn database_graph_messages(
    connected: Seq<WorkerId>,
    database_id: DatabaseId,
) -> Seq<(WorkerId, crate::protocol::StreamingControlStreamRequest)> {
    connected.map_values(
        |w: WorkerId|
            (
                w,
                crate::protocol::StreamingControlStreamRequest::CreatePartialGraph {
                    database_id,
                    partial_graph_id: DATABASE_PARTIAL_GRAPH_ID,
                },
            ),
    )
}

/// `msg` is the initial barrier of a database's steady-state graph for `worker_id`.
pub open spec fn is_initial_barrier_for(
    msg: (WorkerId, crate::protocol::StreamingControlStreamRequest),
    worker_id: WorkerId,
    database_id: DatabaseId,
    prev_epoch: u64,
    curr_epoch: u64,
) -> bool {
    &&& msg.0 == worker_id
    &&& msg.1 matches crate::protocol::StreamingControlStreamRequest::InjectBarrier(req) && {
        &&& req.prev_epoch == prev_epoch
        &&& req.curr_epoch == curr_epoch
        &&& req.kind@ == crate::epoch::BarrierKindView::Initial
        &&& req.database_id == database_id
        &&& req.partial_graph_id == DATABASE_PARTIAL_GRAPH_ID
    }
}

/// Why a database could not be recovered.
#[derive(Clone, Copy, PartialEq, Eq, Debug)]
pub enum RecoveryError {
    /// The jobs hold no state table.
    NoStateTable,
    /// A state table has no committed epoch.
    MissingCommittedEpoch(TableId),
    /// Two state tables of the jobs committed different epochs.
    CommittedEpochMismatch { first: TableId, other: TableId },
    /// The clock has not moved past the committed epoch.
    ClockNotAdvanced,
    /// A snapshot-backfill job has no snapshot epoch for an upstream.
    SnapshotEpochMissing { job_id: TableId, upstream: TableId },
    /// A snapshot-backfill job has different snapshot epochs for its upstreams.
    SnapshotEpochMismatch { job_id: TableId },
    /// A snapshot-backfill job names no upstream.
    NoUpstream(TableId),
    /// A job id cannot name a partial graph.
    InvalidJobId(TableId),
    /// The initial barrier could not be injected.
    ControlStream(ControlStreamError),
    /// A creating job could not be recovered.
    CreatingJob(CreatingJobError),
}

fn committed_epoch_lookup(epochs: &Vec<(TableId, u64)>, table_id: TableId) -> (r: Option<u64>)
    ensures
        r == committed_epoch_of(epochs@, table_id),
{
    let mut i: usize = 0;
    assert(epochs@.skip(0) =~= epochs@);
    while i < epochs.len()
        invariant
            i <= epochs@.len(),
            committed_epoch_of(epochs@.skip(i as int), table_id) == committed_epoch_of(epochs@, table_id),
        decreases epochs@.len() - i,
    {
        proof {
            assert(epochs@.skip(i as int).drop_first() =~= epochs@.skip(i + 1));
        }
        if epochs[i].0 == table_id {
            return Some(epochs[i].1);
        }
        i = i + 1;
    }
    None
}

/// The one committed epoch that all the tables share.
pub fn resolve_jobs_committed_epoch(epochs: &Vec<(TableId, u64)>, tables: &Vec<TableId>) -> (r: Result<
    u64,
    RecoveryError,
>)
    ensures
        r matches Ok(e) ==> tables@.len() > 0 && all_committed_at(tables@, epochs@, e),
        r matches Err(e) ==> committed_epoch_error_explained(e, epochs@),
        r is Ok <==> common_epoch(tables@, epochs@) is Some,
        r matches Ok(e) ==> common_epoch(tables@, epochs@) == Some(e),
        r is Err ==> tables@.len() == 0 || !(exists|e: u64| all_committed_at(tables@, epochs@, e)),
{
    if tables.len() == 0 {
        return Err(RecoveryError::NoStateTable);
    }
    let first = tables[0];
    let e = match committed_epoch_lookup(epochs, first) {
        Some(e) => e,
        None => {
            proof {
                assert forall|x: u64| !all_committed_at(tables@, epochs@, x) by {
                    assert(committed_epoch_of(epochs@, tables@[0]) != Some(x));
                }
            }
            return Err(RecoveryError::MissingCommittedEpoch(first));
        },
    };
    let mut i: usize = 1;
    while i < tables.len()
        invariant
            1 <= i <= tables@.len(),
            first == tables@[0],
            committed_epoch_of(epochs@, first) == Some(e),
            forall|k: int| 0 <= k < i ==> committed_epoch_of(epochs@, #[trigger] tables@[k]) == Some(e),
        decreases tables@.len() - i,
    {
        let t = tables[i];
        match committed_epoch_lookup(epochs, t) {
            Some(other) => {
                if other != e {
                    proof {
                        assert forall|x: u64| !all_committed_at(tables@, epochs@, x) by {
                            if all_committed_at(tables@, epochs@, x) {
                                assert(committed_epoch_of(epochs@, tables@[0]) == Some(x));
                                assert(committed_epoch_of(epochs@, tables@[i as int]) == Some(x));
                            }
                        }
                    }
                    return Err(RecoveryError::CommittedEpochMismatch { first, other: t });
                }
            },
            None => {
                proof {
                    assert forall|x: u64| !all_committed_at(tables@, epochs@, x) by {
                        assert(committed_epoch_of(epochs@, tables@[i as int]) != Some(x));
                    }
                }
                return Err(RecoveryError::MissingCommittedEpoch(t));
            },
        }
        i = i + 1;
    }
    Ok(e)
}

/// The upstream of a snapshot-backfill job and the snapshot epoch recorded for it.
pub struct UpstreamSnapshotEpoch {
    pub upstream_table_id: TableId,
    pub snapshot_epoch: Option<u64>,
}

/// A job that was still being created in the background when the control plane
/// stopped.
pub struct BackgroundJob {
    pub job_id: TableId,
    pub definition: String,
    /// The job's upstreams, where it bootstraps from a snapshot.
    pub snapshot_backfill: Option<Vec<UpstreamSnapshotEpoch>>,
    pub snapshot_backfill_actors: Vec<ActorId>,
}

/// A subscription that pins an upstream table's log from an epoch.
#[derive(Clone, Copy, PartialEq, Eq, Debug)]
pub struct MvDependedSubscription {
    pub upstream_table_id: TableId,
    pub subscriber_id: u32,
    pub retention_epoch: u64,
}

/// The one snapshot epoch shared by all upstreams of a job.
/// A snapshot-epoch error of job `job_id` names what is wrong with its upstreams:
/// one records no snapshot epoch, two record different ones, or there is none.
pub open spec fn snapshot_error_explained(
    e: RecoveryError,
    job_id: TableId,
    ups: Seq<UpstreamSnapshotEpoch>,
) -> bool {
    match e {
        RecoveryError::SnapshotEpochMissing { job_id: j, upstream } => j == job_id && exists|i: int|
            0 <= i < ups.len() && (#[trigger] ups[i]).upstream_table_id == upstream
                && ups[i].snapshot_epoch is None,
        RecoveryError::SnapshotEpochMismatch { job_id: j } => j == job_id && exists|i: int, k: int|
            0 <= i < ups.len() && 0 <= k < ups.len() && (#[trigger] ups[i]).snapshot_epoch is Some
                && (#[trigger] ups[k]).snapshot_epoch is Some && ups[i].snapshot_epoch != ups[k].snapshot_epoch,
        RecoveryError::NoUpstream(j) => j == job_id && ups.len() == 0,
        _ => false,
    }
}

fn resolve_snapshot_epoch(job_id: TableId, upstreams: &Vec<UpstreamSnapshotEpoch>) -> (r: Result<
    u64,
    RecoveryError,
>)
    ensures
        r matches Err(e) ==> snapshot_error_explained(e, job_id, upstreams@),
        r is Ok <==> snapshot_epoch_of(upstreams@) is Some,
        r matches Ok(e) ==> snapshot_epoch_of(upstreams@) == Some(e),
        r matches Ok(e) ==> upstreams@.len() > 0 && forall|i: int|
            0 <= i < upstreams@.len() ==> (#[trigger] upstreams@[i]).snapshot_epoch == Some(e),
{
    let mut snapshot_epoch: Option<u64> = None;
    let mut i: usize = 0;
    while i < upstreams.len()
        invariant
            i <= upstreams@.len(),
            i == 0 <==> snapshot_epoch is None,
            snapshot_epoch matches Some(e) ==> forall|k: int|
                0 <= k < i ==> (#[trigger] upstreams@[k]).snapshot_epoch == Some(e),
        decreases upstreams@.len() - i,
    {
        let u = &upstreams[i];
        let epoch = match u.snapshot_epoch {
            Some(e) => e,
            None => {
                proof {
                    assert(upstreams@[i as int].snapshot_epoch is None);
                }
                return Err(RecoveryError::SnapshotEpochMissing { job_id, upstream: u.upstream_table_id });
            },
        };
        match snapshot_epoch {
            Some(e) => {
                if e != epoch {
                    proof {
                        assert(upstreams@[0].snapshot_epoch == Some(e));
                        assert(upstreams@[i as int].snapshot_epoch == Some(epoch));
                    }
                    return Err(RecoveryError::SnapshotEpochMismatch { job_id });
                }
            },
            None => {
                snapshot_epoch = Some(epoch);
            },
        }
        i = i + 1;
    }
    match snapshot_epoch {
        Some(e) => Ok(e),
        None => Err(RecoveryError::NoUpstream(job_id)),
    }
}

/// `actors` are the actors of one fragment of one of the jobs.
pub open spec fn actors_of_some_job(actors: Seq<crate::graph_info::InflightActorInfo>, jobs: Seq<InflightStreamingJobInfo>) -> bool {
    exists|a: int, f: int|
        0 <= a < jobs.len() && 0 <= f < jobs[a].fragment_infos@.len() && actors
            == (#[trigger] jobs[a].fragment_infos@[f]).actors@
}

fn all_fragments(jobs: &Vec<InflightStreamingJobInfo>) -> (r: Vec<InflightFragmentInfo>)
    ensures
        r@.len() == jobs_fragment_count(jobs@),
        forall|k: int| 0 <= k < r@.len() ==> actors_of_some_job((#[trigger] r@[k]).actors@, jobs@),
{
    let mut r: Vec<InflightFragmentInfo> = Vec::new();
    let mut i: usize = 0;
    while i < jobs.len()
        invariant
            i <= jobs@.len(),
            r@.len() == jobs_fragment_count(jobs@.subrange(0, i as int)),
            forall|k: int| 0 <= k < r@.len() ==> actors_of_some_job((#[trigger] r@[k]).actors@, jobs@),
        decreases jobs@.len() - i,
    {
        let mut copied = copy_fragments(&jobs[i].fragment_infos);
        let ghost before = r@;
        let ghost added = copied@;
        r.append(&mut copied);
        proof {
            assert(jobs@.subrange(0, i + 1).drop_last() =~= jobs@.subrange(0, i as int));
            assert(r@ == before + added);
            assert forall|k: int| 0 <= k < r@.len() implies actors_of_some_job(
                (#[trigger] r@[k]).actors@,
                jobs@,
            ) by {
                if k < before.len() {
                    assert(r@[k] == before[k]);
                    assert(actors_of_some_job(before[k].actors@, jobs@));
                } else {
                    let f = k - before.len();
                    assert(r@[k] == added[f]);
                    assert(added[f].actors@ == jobs@[i as int].fragment_infos@[f].actors@);
                    assert(0 <= i < jobs@.len() && 0 <= f < jobs@[i as int].fragment_infos@.len()
                        && r@[k].actors@ == jobs@[i as int].fragment_infos@[f].actors@);
                }
            }
        }
        i = i + 1;
    }
    assert(jobs@.subrange(0, jobs@.len() as int) =~= jobs@);
    r
}

/// How many fragments the jobs hold.
pub open spec fn jobs_fragment_count(jobs: Seq<InflightStreamingJobInfo>) -> nat
    decreases jobs.len(),
{
    if jobs.len() == 0 {
        0
    } else {
        jobs_fragment_count(jobs.drop_last()) + jobs.last().fragment_infos@.len()
    }
}

/// The actors of the fragments, each to be built on its worker.
fn actors_to_build(fragments: &Vec<InflightFragmentInfo>) -> (r: Vec<ActorToBuild>) {
    let mut r: Vec<ActorToBuild> = Vec::new();
    let mut i: usize = 0;
    while i < fragments.len()
        invariant
            i <= fragments@.len(),
        decreases fragments@.len() - i,
    {
        let f = &fragments[i];
        let mut j: usize = 0;
        while j < f.actors.len()
            invariant
                j <= f.actors@.len(),
            decreases f.actors@.len() - j,
        {
            r.push(ActorToBuild { worker_id: f.actors[j].worker_id, fragment_id: f.fragment_id, actor_id: f.actors[j].actor_id });
            j = j + 1;
        }
        i = i + 1;
    }
    r
}

/// The initial barrier of a recovering database, waiting for its acknowledgements.
pub struct DatabaseInitialBarrierCollector {
    pub database_id: DatabaseId,
    pub node_to_collect: NodeToCollect,
    /// The jobs of the steady-state graph.
    pub database_jobs: Vec<InflightStreamingJobInfo>,
    pub subscriptions: Vec<MvDependedSubscription>,
    pub is_paused: bool,
    /// The epoch that the initial barrier starts the database at.
    pub new_epoch: u64,
    pub creating_streaming_job_controls: Vec<CreatingStreamingJobControl>,
    pub committed_epoch: u64,
}

/// `nq` is the ledger queue `oq` after `worker_id` failed: each epoch drops the worker
/// where it owned no actors.
pub open spec fn queue_after_worker_err(
    oq: Seq<crate::barrier_control::EpochState>,
    nq: Seq<crate::barrier_control::EpochState>,
    worker_id: WorkerId,
) -> bool {
    &&& nq.len() == oq.len()
    &&& forall|e: int|
        0 <= e < oq.len() ==> (#[trigger] nq[e]).epoch == oq[e].epoch && nq[e].node_to_collect@
            == crate::node_to_collect::after_worker_err(oq[e].node_to_collect@, worker_id)
}

/// Control `i` is the first one of job `job_id`.
pub open spec fn is_first_control_of(controls: Seq<CreatingStreamingJobControl>, job_id: TableId, i: int) -> bool {
    &&& 0 <= i < controls.len()
    &&& controls[i].job_id == job_id
    &&& forall|k: int| 0 <= k < i ==> (#[trigger] controls[k]).job_id != job_id
}

/// The recovered state of a database, once its initial barrier is collected.
pub struct RecoveredDatabase {
    pub database_id: DatabaseId,
    pub database_jobs: Vec<InflightStreamingJobInfo>,
    pub subscriptions: Vec<MvDependedSubscription>,
    pub is_paused: bool,
    pub new_epoch: u64,
    pub committed_epoch: u64,
    pub creating_streaming_job_controls: Vec<CreatingStreamingJobControl>,
}

impl DatabaseInitialBarrierCollector {
    pub open spec fn wf(&self) -> bool {
        forall|i: int|
            0 <= i < self.creating_streaming_job_controls@.len() ==> (
            #[trigger] self.creating_streaming_job_controls@[i]).wf()
    }

    pub open spec fn spec_is_collected(&self) -> bool {
        &&& self.node_to_collect@.is_empty()
        &&& forall|i: int|
            0 <= i < self.creating_streaming_job_controls@.len() ==> (
            #[trigger] self.creating_streaming_job_controls@[i]).barrier_control.queue@.len() == 0
    }

    /// Every worker acknowledged the initial barrier, and every creating job drained
    /// its epochs.
    pub fn is_collected(&self) -> (r: bool)
        ensures
            r == self.spec_is_collected(),
    {
        if !self.node_to_collect.is_empty() {
            return false;
        }
        let mut i: usize = 0;
        while i < self.creating_streaming_job_controls.len()
            invariant
                i <= self.creating_streaming_job_controls@.len(),
                forall|k: int|
                    0 <= k < i ==> (#[trigger] self.creating_streaming_job_controls@[k]).barrier_control.queue@.len() == 0,
            decreases self.creating_streaming_job_controls@.len() - i,
        {
            if !self.creating_streaming_job_controls[i].is_empty() {
                return false;
            }
            i = i + 1;
        }
        true
    }

    /// The steady-state jobs and the creating jobs being recovered.
    pub fn database_state(&self) -> (r: (&Vec<InflightStreamingJobInfo>, &Vec<CreatingStreamingJobControl>))
        ensures
            r.0 == &self.database_jobs,
            r.1 == &self.creating_streaming_job_controls,
    {
        (&self.database_jobs, &self.creating_streaming_job_controls)
    }

    fn job_index(&self, job_id: TableId) -> (r: Option<usize>)
        ensures
            r matches Some(i) ==> i < self.creating_streaming_job_controls@.len()
                && is_first_control_of(self.creating_streaming_job_controls@, job_id, i as int),
            r is None ==> forall|k: int|
                0 <= k < self.creating_streaming_job_controls@.len()
                    ==> (#[trigger] self.creating_streaming_job_controls@[k]).job_id != job_id,
    {
        let mut i: usize = 0;
        while i < self.creating_streaming_job_controls.len()
            invariant
                i <= self.creating_streaming_job_controls@.len(),
                forall|k: int| 0 <= k < i ==> (#[trigger] self.creating_streaming_job_controls@[k]).job_id != job_id,
            decreases self.creating_streaming_job_controls@.len() - i,
        {
            if self.creating_streaming_job_controls[i].job_id == job_id {
                return Some(i);
            }
            i = i + 1;
        }
        None
    }

    /// Records an acknowledgement: one for a creating job goes to that job; one for the
    /// steady-state graph marks its worker. One for another database, another epoch,
    /// or an unknown graph is ignored.
    pub fn collect_resp(&mut self, resp: BarrierCompleteResponse)
        requires
            old(self).wf(),
        ensures
            final(self).wf(),
            final(self).creating_streaming_job_controls@.len() == old(self).creating_streaming_job_controls@.len(),
            final(self).database_id == old(self).database_id,
            final(self).committed_epoch == old(self).committed_epoch,
            final(self).new_epoch == old(self).new_epoch,
            final(self).is_paused == old(self).is_paused,
            final(self).database_jobs == old(self).database_jobs,
            final(self).subscriptions == old(self).subscriptions,
            forall|i: int|
                0 <= i < old(self).creating_streaming_job_controls@.len() ==> if resp.database_id
                    == old(self).database_id && resp.partial_graph_id != DATABASE_PARTIAL_GRAPH_ID
                    && is_first_control_of(old(self).creating_streaming_job_controls@, resp.partial_graph_id, i) {
                    crate::creating_job::job_collected(
                        old(self).creating_streaming_job_controls@[i],
                        #[trigger] final(self).creating_streaming_job_controls@[i],
                        resp,
                    )
                } else {
                    final(self).creating_streaming_job_controls@[i] == old(self).creating_streaming_job_controls@[i]
                },
            (resp.database_id == old(self).database_id && resp.partial_graph_id == DATABASE_PARTIAL_GRAPH_ID
                && resp.epoch == old(self).committed_epoch) ==> final(self).node_to_collect@
                == old(self).node_to_collect@.remove(resp.worker_id),
            !(resp.database_id == old(self).database_id && resp.partial_graph_id == DATABASE_PARTIAL_GRAPH_ID
                && resp.epoch == old(self).committed_epoch) ==> final(self).node_to_collect@
                == old(self).node_to_collect@,
    {
        if resp.database_id != self.database_id {
            return;
        }
        match from_partial_graph_id(resp.partial_graph_id) {
            Some(job_id) => {
                match self.job_index(job_id) {
                    Some(i) => {
                        let ghost before = self.creating_streaming_job_controls@;
                        let mut job = self.creating_streaming_job_controls.remove(i);
                        job.collect(resp);
                        let ghost j = job;
                        self.creating_streaming_job_controls.insert(i, job);
                        proof {
                            assert(self.creating_streaming_job_controls@ =~= before.update(i as int, j));
                            assert forall|k: int| 0 <= k < before.len() && k != i implies !is_first_control_of(
                                before,
                                resp.partial_graph_id,
                                k,
                            ) by {
                                if k > i {
                                    assert(before[i as int].job_id == resp.partial_graph_id);
                                }
                            }
                        }
                    },
                    None => {},
                }
            },
            None => {
                if resp.epoch == self.committed_epoch {
                    self.node_to_collect.remove(&resp.worker_id);
                }
            },
        }
    }

    /// The recovered database, once everything is collected.
    pub fn finish(self) -> (r: RecoveredDatabase)
        requires
            self.spec_is_collected(),
        ensures
            r.database_id == self.database_id,
            r.committed_epoch == self.committed_epoch,
            r.new_epoch == self.new_epoch,
            r.creating_streaming_job_controls == self.creating_streaming_job_controls,
    {
        RecoveredDatabase {
            database_id: self.database_id,
            database_jobs: self.database_jobs,
            subscriptions: self.subscriptions,
            is_paused: self.is_paused,
            new_epoch: self.new_epoch,
            committed_epoch: self.committed_epoch,
            creating_streaming_job_controls: self.creating_streaming_job_controls,
        }
    }

    /// Tells whether the recovery survives the failure of `worker_id`: the initial
    /// barrier and every creating job's epochs must.
    pub fn is_valid_after_worker_err(&mut self, worker_id: WorkerId) -> (r: bool)
        requires
            old(self).wf(),
        ensures
            final(self).wf(),
            r == (survives_worker_err(old(self).node_to_collect@, worker_id) && forall|i: int|
                0 <= i < old(self).creating_streaming_job_controls@.len() ==> (
                #[trigger] old(self).creating_streaming_job_controls@[i]).barrier_control.survives_worker_err(
                    worker_id,
                )),
            final(self).node_to_collect@ == crate::node_to_collect::after_worker_err(
                old(self).node_to_collect@,
                worker_id,
            ),
            final(self).database_id == old(self).database_id,
            final(self).committed_epoch == old(self).committed_epoch,
            final(self).new_epoch == old(self).new_epoch,
            final(self).database_jobs == old(self).database_jobs,
            final(self).creating_streaming_job_controls@.len() == old(self).creating_streaming_job_controls@.len(),
            r ==> forall|i: int|
                0 <= i < old(self).creating_streaming_job_controls@.len() ==> queue_after_worker_err(
                    old(self).creating_streaming_job_controls@[i].barrier_control.queue@,
                    (#[trigger] final(self).creating_streaming_job_controls@[i]).barrier_control.queue@,
                    worker_id,
                ),
    {
        if !is_valid_after_worker_err(&mut self.node_to_collect, worker_id) {
            return false;
        }
        let ghost jobs0 = self.creating_streaming_job_controls@;
        let ghost ntc_ok = survives_worker_err(old(self).node_to_collect@, worker_id);
        let mut i: usize = 0;
        while i < self.creating_streaming_job_controls.len()
            invariant
                i <= self.creating_streaming_job_controls@.len(),
                self.creating_streaming_job_controls@.len() == jobs0.len(),
                jobs0 == old(self).creating_streaming_job_controls@,
                ntc_ok,
                ntc_ok == survives_worker_err(old(self).node_to_collect@, worker_id),
                self.wf(),
                forall|k: int| i <= k < jobs0.len() ==> self.creating_streaming_job_controls@[k] == jobs0[k],
                self.node_to_collect@ == crate::node_to_collect::after_worker_err(old(self).node_to_collect@, worker_id),
                self.database_id == old(self).database_id,
                self.committed_epoch == old(self).committed_epoch,
                self.new_epoch == old(self).new_epoch,
                self.database_jobs == old(self).database_jobs,
                forall|k: int|
                    0 <= k < i ==> queue_after_worker_err(
                        jobs0[k].barrier_control.queue@,
                        (#[trigger] self.creating_streaming_job_controls@[k]).barrier_control.queue@,
                        worker_id,
                    ),
                forall|k: int|
                    0 <= k < i ==> (#[trigger] jobs0[k]).barrier_control.survives_worker_err(worker_id),
            decreases self.creating_streaming_job_controls@.len() - i,
        {
            let ghost before = self.creating_streaming_job_controls@;
            let mut job = self.creating_streaming_job_controls.remove(i);
            let ok = job.is_valid_after_worker_err(worker_id);
            let ghost j = job;
            self.creating_streaming_job_controls.insert(i, job);
            proof {
                assert(self.creating_streaming_job_controls@ =~= before.update(i as int, j));
            }
            if !ok {
                proof {
                    assert(!jobs0[i as int].barrier_control.survives_worker_err(worker_id));
                }
                return false;
            }
            i = i + 1;
        }
        true
    }
}

fn subscriptions_to_add(subscriptions: &Vec<MvDependedSubscription>) -> (r: Vec<SubscriptionUpstreamInfo>)
    ensures
        r@.len() == subscriptions@.len(),
        forall|i: int|
            0 <= i < r@.len() ==> (#[trigger] r@[i]).subscriber_id == subscriptions@[i].subscriber_id
                && r@[i].upstream_mv_table_id == subscriptions@[i].upstream_table_id,
{
    let mut r: Vec<SubscriptionUpstreamInfo> = Vec::new();
    let mut i: usize = 0;
    while i < subscriptions.len()
        invariant
            i <= subscriptions@.len(),
            r@.len() == i,
            forall|k: int|
                0 <= k < i ==> (#[trigger] r@[k]).subscriber_id == subscriptions@[k].subscriber_id
                    && r@[k].upstream_mv_table_id == subscriptions@[k].upstream_table_id,
        decreases subscriptions@.len() - i,
    {
        r.push(
            SubscriptionUpstreamInfo {
                subscriber_id: subscriptions[i].subscriber_id,
                upstream_mv_table_id: subscriptions[i].upstream_table_id,
            },
        );
        i = i + 1;
    }
    r
}

#[verifier::loop_isolation(false)]
fn partition_jobs(jobs: Vec<InflightStreamingJobInfo>, background_jobs: &Vec<BackgroundJob>) -> (r: (
    Vec<InflightStreamingJobInfo>,
    Vec<InflightStreamingJobInfo>,
))
    ensures
        r.0@ == steady_jobs(jobs@, background_jobs@),
        r.1@ == snapshot_jobs(jobs@, background_jobs@),
{
    let ghost jobs0 = jobs@;
    let ghost bgs = background_jobs@;
    let total = jobs.len();
    let mut steady: Vec<InflightStreamingJobInfo> = Vec::new();
    let mut snaps: Vec<InflightStreamingJobInfo> = Vec::new();
    let mut pending = jobs;
    let mut k: usize = 0;
    proof {
        assert(jobs0.take(0) =~= Seq::<InflightStreamingJobInfo>::empty());
        assert(jobs0.skip(0) =~= jobs0);
        reveal(Seq::filter);
    }
    while pending.len() > 0
        invariant
            total == jobs0.len(),
            bgs == background_jobs@,
            k <= jobs0.len(),
            pending@ == jobs0.skip(k as int),
            steady@ == steady_jobs(jobs0.take(k as int), bgs),
            snaps@ == snapshot_jobs(jobs0.take(k as int), bgs),
        decreases pending@.len(),
    {
        assert(pending@.len() == jobs0.len() - k);
        let job = pending.remove(0);
        proof {
            assert(job == jobs0[k as int]);
            assert(pending@ =~= jobs0.skip(k + 1));
            assert(jobs0.take(k + 1) =~= jobs0.take(k as int).push(job));
            lemma_filter_push(jobs0.take(k as int), job, |j: InflightStreamingJobInfo| !is_snapshot_job(bgs, j));
            lemma_filter_push(jobs0.take(k as int), job, |j: InflightStreamingJobInfo| is_snapshot_job(bgs, j));
        }
        let snap = match find_background(background_jobs, job.job_id) {
            Some(i) => background_jobs[i].snapshot_backfill.is_some(),
            None => false,
        };
        assert(snap == is_snapshot_job(bgs, job));
        if snap {
            snaps.push(job);
        } else {
            steady.push(job);
        }
        k = k + 1;
    }
    proof {
        assert(jobs0.take(k as int) =~= jobs0);
    }
    (steady, snaps)
}

/// What became of the snapshot jobs: those caught up with `c`, those behind it, and
/// for each behind job its committed epoch and its upstreams' snapshot epoch.
pub struct SnapshotSplit {
    pub caught_up: Vec<InflightStreamingJobInfo>,
    pub behind: Vec<InflightStreamingJobInfo>,
    pub behind_epochs: Vec<(u64, u64)>,
}

/// Every snapshot job's state tables share a committed epoch, and every one behind
/// `c` has upstreams that agree on a snapshot epoch.
pub open spec fn snapshot_jobs_resolvable(
    snaps: Seq<InflightStreamingJobInfo>,
    bgs: Seq<BackgroundJob>,
    epochs: Seq<(TableId, u64)>,
    c: u64,
) -> bool {
    forall|i: int| 0 <= i < snaps.len() ==> #[trigger] snapshot_job_resolvable(snaps[i], bgs, epochs, c)
}

/// The job's state tables share a committed epoch, and where it is behind `c` its
/// upstreams agree on a snapshot epoch.
pub open spec fn snapshot_job_resolvable(
    job: InflightStreamingJobInfo,
    bgs: Seq<BackgroundJob>,
    epochs: Seq<(TableId, u64)>,
    c: u64,
) -> bool {
    &&& common_epoch(graph_table_ids(job.fragment_infos@), epochs) is Some
    &&& !caught_up(job, epochs, c) ==> snapshot_epoch_of(snapshot_upstreams(bgs, job.job_id)->Some_0) is Some
}

#[verifier::loop_isolation(false)]
fn split_snapshot_jobs(
    snaps: Vec<InflightStreamingJobInfo>,
    background_jobs: &Vec<BackgroundJob>,
    state_table_committed_epochs: &Vec<(TableId, u64)>,
    c: u64,
    subscriptions: &mut Vec<MvDependedSubscription>,
) -> (r: Result<SnapshotSplit, RecoveryError>)
    requires
        forall|i: int| 0 <= i < snaps@.len() ==> is_snapshot_job(background_jobs@, #[trigger] snaps@[i]),
    ensures
        r is Ok <==> snapshot_jobs_resolvable(snaps@, background_jobs@, state_table_committed_epochs@, c),
        r matches Err(e) ==> (committed_epoch_error_explained(e, state_table_committed_epochs@) || (
        snapshot_upstreams(background_jobs@, snapshot_error_job(e)) matches Some(u) && snapshot_error_explained(
            e,
            snapshot_error_job(e),
            u,
        ))),
        r matches Ok(split) ==> {
            &&& split.caught_up@ == snaps@.filter(
                |j: InflightStreamingJobInfo| caught_up(j, state_table_committed_epochs@, c),
            )
            &&& split.behind@ == snaps@.filter(
                |j: InflightStreamingJobInfo| !caught_up(j, state_table_committed_epochs@, c),
            )
            &&& split.behind_epochs@.len() == split.behind@.len()
            &&& forall|i: int|
                0 <= i < split.behind@.len() ==> behind_epochs_of(
                    #[trigger] split.behind@[i],
                    split.behind_epochs@[i],
                    background_jobs@,
                    state_table_committed_epochs@,
                )
        },
{
    let ghost snaps0 = snaps@;
    let ghost bgs = background_jobs@;
    let ghost epochs = state_table_committed_epochs@;
    let total = snaps.len();
    let mut caught: Vec<InflightStreamingJobInfo> = Vec::new();
    let mut behind_list: Vec<InflightStreamingJobInfo> = Vec::new();
    let mut behind_epochs: Vec<(u64, u64)> = Vec::new();
    let mut pending = snaps;
    let mut k2: usize = 0;
    proof {
        assert(snaps0.skip(0) =~= snaps0);
        assert(snaps0.take(0) =~= Seq::<InflightStreamingJobInfo>::empty());
        reveal(Seq::filter);
    }
    while pending.len() > 0
        invariant
            total == snaps0.len(),
            bgs == background_jobs@,
            epochs == state_table_committed_epochs@,
            forall|i: int| 0 <= i < snaps0.len() ==> is_snapshot_job(bgs, #[trigger] snaps0[i]),
            k2 <= snaps0.len(),
            pending@ == snaps0.skip(k2 as int),
            caught@ == snaps0.take(k2 as int).filter(|j: InflightStreamingJobInfo| caught_up(j, epochs, c)),
            behind_list@ == snaps0.take(k2 as int).filter(|j: InflightStreamingJobInfo| !caught_up(j, epochs, c)),
            behind_epochs@.len() == behind_list@.len(),
            forall|i: int|
                0 <= i < behind_list@.len() ==> behind_epochs_of(#[trigger] behind_list@[i], behind_epochs@[i], bgs, epochs),
            forall|i: int| 0 <= i < k2 ==> #[trigger] snapshot_job_resolvable(snaps0[i], bgs, epochs, c),
        decreases pending@.len(),
    {
        assert(pending@.len() == snaps0.len() - k2);
        let info = pending.remove(0);
        proof {
            assert(info == snaps0[k2 as int]);
            assert(pending@ =~= snaps0.skip(k2 + 1));
            assert(snaps0.take(k2 + 1) =~= snaps0.take(k2 as int).push(info));
            lemma_filter_push(snaps0.take(k2 as int), info, |j: InflightStreamingJobInfo| caught_up(j, epochs, c));
            lemma_filter_push(snaps0.take(k2 as int), info, |j: InflightStreamingJobInfo| !caught_up(j, epochs, c));
            assert(is_snapshot_job(bgs, info));
        }
        let job_tables = existing_table_ids(&info.fragment_infos);
        let committed_epoch = match resolve_jobs_committed_epoch(state_table_committed_epochs, &job_tables) {
            Ok(e) => e,
            Err(e) => {
                proof {
                    assert(!snapshot_job_resolvable(snaps0[k2 as int], bgs, epochs, c));
                    assert(!snapshot_jobs_resolvable(snaps0, bgs, epochs, c));
                }
                return Err(e);
            },
        };
        if committed_epoch == c {
            caught.push(info);
        } else {
            let job_id = info.job_id;
            let bi = match find_background(background_jobs, job_id) {
                Some(i) => i,
                None => {
                    proof {
                        assert(false);
                    }
                    return Err(RecoveryError::NoUpstream(job_id));
                },
            };
            let upstreams = match &background_jobs[bi].snapshot_backfill {
                Some(u) => u,
                None => {
                    proof {
                        assert(false);
                    }
                    return Err(RecoveryError::NoUpstream(job_id));
                },
            };
            assert(upstreams@ == snapshot_upstreams(bgs, job_id)->Some_0);
            let snapshot_epoch = match resolve_snapshot_epoch(job_id, upstreams) {
                Ok(e) => e,
                Err(e) => {
                    proof {
                        assert(!snapshot_job_resolvable(snaps0[k2 as int], bgs, epochs, c));
                        assert(!snapshot_jobs_resolvable(snaps0, bgs, epochs, c));
                        assert(snapshot_error_job(e) == job_id);
                    }
                    return Err(e);
                },
            };
            let retention_epoch = if snapshot_epoch > committed_epoch {
                snapshot_epoch
            } else {
                committed_epoch
            };
            let mut u: usize = 0;
            while u < upstreams.len()
                invariant
                    u <= upstreams@.len(),
                decreases upstreams@.len() - u,
            {
                subscriptions.push(
                    MvDependedSubscription {
                        upstream_table_id: upstreams[u].upstream_table_id,
                        subscriber_id: job_id,
                        retention_epoch,
                    },
                );
                u = u + 1;
            }
            let ghost bl = behind_list@;
            let ghost be = behind_epochs@;
            behind_list.push(info);
            behind_epochs.push((committed_epoch, snapshot_epoch));
            proof {
                assert forall|i: int| 0 <= i < behind_list@.len() implies behind_epochs_of(
                    #[trigger] behind_list@[i],
                    behind_epochs@[i],
                    bgs,
                    epochs,
                ) by {
                    if i < bl.len() {
                        assert(behind_list@[i] == bl[i]);
                        assert(behind_epochs@[i] == be[i]);
                    }
                }
            }
        }
        proof {
            assert(snapshot_job_resolvable(snaps0[k2 as int], bgs, epochs, c));
        }
        k2 = k2 + 1;
    }
    proof {
        assert(snaps0.take(k2 as int) =~= snaps0);
    }
    Ok(SnapshotSplit { caught_up: caught, behind: behind_list, behind_epochs })
}

/// The job that a snapshot-epoch error names.
pub open spec fn snapshot_error_job(e: RecoveryError) -> TableId {
    match e {
        RecoveryError::SnapshotEpochMissing { job_id, .. } => job_id,
        RecoveryError::SnapshotEpochMismatch { job_id } => job_id,
        RecoveryError::NoUpstream(job_id) => job_id,
        _ => 0,
    }
}

impl ControlStreamManager {
    /// The first message for a new control stream: for each database, its steady-state
    /// graph with its subscriptions, then one graph per creating job.
    pub fn collect_init_request(
        initial_inflight_infos: &Vec<(DatabaseId, Vec<SubscriptionUpstreamInfo>, Vec<TableId>)>,
        term_id: String,
    ) -> (r: InitRequest)
        requires
            forall|i: int, j: int|
                0 <= i < initial_inflight_infos@.len() && 0 <= j < initial_inflight_infos@[i].2@.len()
                    ==> valid_job_graph(Some(#[trigger] initial_inflight_infos@[i].2@[j])),
        ensures
            r.term_id@ == term_id@,
            r.databases@.len() == initial_inflight_infos@.len(),
            forall|i: int|
                0 <= i < r.databases@.len() ==> {
                    let d = #[trigger] r.databases@[i];
                    let (database_id, subscriptions, jobs) = initial_inflight_infos@[i];
                    &&& d.database_id == database_id
                    &&& d.graphs@.len() == jobs@.len() + 1
                    &&& d.graphs@[0].partial_graph_id == DATABASE_PARTIAL_GRAPH_ID
                    &&& d.graphs@[0].subscriptions@ == subscriptions@
                    &&& forall|j: int|
                        0 <= j < jobs@.len() ==> (#[trigger] d.graphs@[j + 1]).partial_graph_id
                            == jobs@[j] && d.graphs@[j + 1].subscriptions@.len() == 0
                },
    {
        let mut databases: Vec<DatabaseInitialPartialGraph> = Vec::new();
        let mut i: usize = 0;
        while i < initial_inflight_infos.len()
            invariant
                i <= initial_inflight_infos@.len(),
                databases@.len() == i,
                forall|a: int, b: int|
                    0 <= a < initial_inflight_infos@.len() && 0 <= b < initial_inflight_infos@[a].2@.len()
                        ==> valid_job_graph(Some(#[trigger] initial_inflight_infos@[a].2@[b])),
                forall|k: int|
                    0 <= k < i ==> {
                        let d = #[trigger] databases@[k];
                        let (database_id, subscriptions, jobs) = initial_inflight_infos@[k];
                        &&& d.database_id == database_id
                        &&& d.graphs@.len() == jobs@.len() + 1
                        &&& d.graphs@[0].partial_graph_id == DATABASE_PARTIAL_GRAPH_ID
                        &&& d.graphs@[0].subscriptions@ == subscriptions@
                        &&& forall|j: int|
                            0 <= j < jobs@.len() ==> (#[trigger] d.graphs@[j + 1]).partial_graph_id
                                == jobs@[j] && d.graphs@[j + 1].subscriptions@.len() == 0
                    },
            decreases initial_inflight_infos@.len() - i,
        {
            let (database_id, subscriptions, jobs) = &initial_inflight_infos[i];
            let mut graphs: Vec<InitialPartialGraph> = Vec::new();
            graphs.push(
                InitialPartialGraph {
                    partial_graph_id: to_partial_graph_id(None),
                    subscriptions: crate::protocol::copy_subscriptions(subscriptions),
                },
            );
            let mut j: usize = 0;
            while j < jobs.len()
                invariant
                    i < initial_inflight_infos@.len(),
                    *jobs == initial_inflight_infos@[i as int].2,
                    j <= jobs@.len(),
                    graphs@.len() == j + 1,
                    graphs@[0].partial_graph_id == DATABASE_PARTIAL_GRAPH_ID,
                    graphs@[0].subscriptions@ == subscriptions@,
                    forall|b: int| 0 <= b < jobs@.len() ==> valid_job_graph(Some(#[trigger] jobs@[b])),
                    forall|b: int|
                        0 <= b < j ==> (#[trigger] graphs@[b + 1]).partial_graph_id == jobs@[b]
                            && graphs@[b + 1].subscriptions@.len() == 0,
                decreases jobs@.len() - j,
            {
                assert(valid_job_graph(Some(jobs@[j as int])));
                graphs.push(
                    InitialPartialGraph {
                        partial_graph_id: to_partial_graph_id(Some(jobs[j])),
                        subscriptions: Vec::new(),
                    },
                );
                j = j + 1;
            }
            databases.push(DatabaseInitialPartialGraph { database_id: *database_id, graphs });
            i = i + 1;
        }
        InitRequest { databases, term_id }
    }

    /// Every worker holding an actor of the jobs is connected; else the first one that
    /// is not.
    fn check_jobs_connected(&self, jobs: &Vec<InflightStreamingJobInfo>) -> (r: Result<(), ControlStreamError>)
        ensures
            r is Ok <==> jobs_workers_connected(jobs@, self.connected_ids()),
            r matches Err(e) ==> e matches ControlStreamError::UnconnectedWorker(w)
                && !self.connected_ids().contains(w),
    {
        let mut i: usize = 0;
        while i < jobs.len()
            invariant
                i <= jobs@.len(),
                forall|j: int| 0 <= j < i ==> all_workers_connected((#[trigger] jobs@[j]).fragment_infos@, self.connected_ids()),
            decreases jobs@.len() - i,
        {
            match self.check_workers_connected(&jobs[i].fragment_infos) {
                Ok(()) => {},
                Err(e) => {
                    return Err(e);
                },
            }
            i = i + 1;
        }
        Ok(())
    }

    /// Rebuilds each snapshot job behind the steady state as a creating job, from its
    /// committed epoch and its upstreams' snapshot epoch, up to the first that cannot be.
    #[verifier::loop_isolation(false)]
    fn recover_behind_jobs(
        &mut self,
        database_id: DatabaseId,
        behind: Vec<InflightStreamingJobInfo>,
        behind_epochs: Vec<(u64, u64)>,
        background_jobs: &Vec<BackgroundJob>,
        state_table_committed_epochs: &Vec<(TableId, u64)>,
        state_table_log_epochs: &Vec<(TableId, Vec<LogEpochs>)>,
        database_jobs: &Vec<InflightStreamingJobInfo>,
        curr_epoch: u64,
        mutation: &AddMutation,
    ) -> (r: Result<Vec<CreatingStreamingJobControl>, RecoveryError>)
        requires
            old(self).wf(),
            behind@.len() == behind_epochs@.len(),
            forall|i: int|
                0 <= i < behind@.len() ==> behind_epochs_of(
                    #[trigger] behind@[i],
                    behind_epochs@[i],
                    background_jobs@,
                    state_table_committed_epochs@,
                ),
        ensures
            final(self).wf(),
            final(self).connected_nodes == old(self).connected_nodes,
            final(self).outbox@.len() >= old(self).outbox@.len(),
            final(self).outbox@.subrange(0, old(self).outbox@.len() as int) == old(self).outbox@,
            r is Ok <==> forall|i: int|
                0 <= i < behind@.len() ==> behind_job_recoverable(
                    #[trigger] behind@[i],
                    background_jobs@,
                    state_table_committed_epochs@,
                    state_table_log_epochs@,
                    database_jobs@,
                    old(self).connected_ids(),
                ),
            r matches Ok(v) ==> v@.len() == behind@.len() && forall|i: int|
                0 <= i < behind@.len() ==> rebuilt_from(
                    #[trigger] v@[i],
                    behind@[i],
                    background_jobs@,
                    state_table_committed_epochs@,
                ),
            r matches Err(e) ==> match e {
                RecoveryError::InvalidJobId(j) => j == DATABASE_PARTIAL_GRAPH_ID,
                RecoveryError::CreatingJob(ce) => match ce {
                    CreatingJobError::ControlStream(x) => x matches ControlStreamError::UnconnectedWorker(w)
                        && !old(self).connected_ids().contains(w),
                    CreatingJobError::EpochNotIncreasing { .. } => false,
                    _ => true,
                },
                _ => false,
            },
    {
        let ghost behind0 = behind@;
        let ghost bepochs0 = behind_epochs@;
        let ghost bgs = background_jobs@;
        let ghost epochs = state_table_committed_epochs@;
        let ghost logs = state_table_log_epochs@;
        let ghost db = database_jobs@;
        let ghost conn = old(self).connected_ids();
        let ghost out0 = old(self).outbox@;
        let total = behind.len();
        let mut pending = behind;
        let mut pending_epochs = behind_epochs;
        let mut controls: Vec<CreatingStreamingJobControl> = Vec::new();
        let mut k: usize = 0;
        proof {
            assert(behind0.skip(0) =~= behind0);
            assert(bepochs0.skip(0) =~= bepochs0);
            assert(self.outbox@.subrange(0, out0.len() as int) =~= out0);
        }
        while pending.len() > 0
            invariant
                self.wf(),
                self.connected_nodes == old(self).connected_nodes,
                self.connected_ids() == conn,
                self.outbox@.len() >= out0.len(),
                self.outbox@.subrange(0, out0.len() as int) == out0,
                total == behind0.len(),
                k <= behind0.len(),
                pending@ == behind0.skip(k as int),
                pending_epochs@ == bepochs0.skip(k as int),
                controls@.len() == k,
                forall|i: int| 0 <= i < k ==> rebuilt_from(#[trigger] controls@[i], behind0[i], bgs, epochs),
                forall|i: int| 0 <= i < k ==> #[trigger] behind_job_recoverable(behind0[i], bgs, epochs, logs, db, conn),
            decreases pending@.len(),
        {
            assert(pending@.len() == behind0.len() - k);
            let info = pending.remove(0);
            let (committed_epoch, snapshot_epoch) = pending_epochs.remove(0);
            proof {
                assert(info == behind0[k as int]);
                assert(pending@ =~= behind0.skip(k + 1));
                assert(pending_epochs@ =~= bepochs0.skip(k + 1));
                assert(behind_epochs_of(behind0[k as int], bepochs0[k as int], bgs, epochs));
            }
            let job_id = info.job_id;
            if job_id == DATABASE_PARTIAL_GRAPH_ID {
                proof {
                    assert(!behind_job_recoverable(behind0[k as int], bgs, epochs, logs, db, conn));
                }
                return Err(RecoveryError::InvalidJobId(job_id));
            }
            let bi = match find_background(background_jobs, job_id) {
                Some(i) => i,
                None => {
                    proof {
                        assert(false);
                    }
                    return Err(RecoveryError::InvalidJobId(DATABASE_PARTIAL_GRAPH_ID));
                },
            };
            let upstreams = match &background_jobs[bi].snapshot_backfill {
                Some(u) => u,
                None => {
                    proof {
                        assert(false);
                    }
                    return Err(RecoveryError::InvalidJobId(DATABASE_PARTIAL_GRAPH_ID));
                },
            };
            assert(upstreams@ == snapshot_upstreams(bgs, job_id)->Some_0);
            let ids = upstream_table_ids(upstreams);
            assert(ids@.len() > 0);
            if !contains_job(database_jobs, ids[0]) {
                proof {
                    assert(!behind_job_recoverable(behind0[k as int], bgs, epochs, logs, db, conn));
                }
                return Err(RecoveryError::CreatingJob(CreatingJobError::UpstreamLogMissing(ids[0])));
            }
            let builds = actors_to_build(&info.fragment_infos);
            let ghost out_before = self.outbox@;
            let recovered = match CreatingStreamingJobControl::recover(
                database_id,
                job_id,
                background_jobs[bi].definition.clone(),
                ids,
                state_table_log_epochs,
                snapshot_epoch,
                committed_epoch,
                curr_epoch,
                info,
                &background_jobs[bi].snapshot_backfill_actors,
                builds,
                Mutation::Add(mutation.clone()),
                self,
            ) {
                Ok(c) => c,
                Err(e) => {
                    proof {
                        assert(!behind_job_recoverable(behind0[k as int], bgs, epochs, logs, db, conn));
                        assert(self.outbox@.subrange(0, out0.len() as int) =~= out_before.subrange(0, out0.len() as int));
                    }
                    return Err(RecoveryError::CreatingJob(e));
                },
            };
            proof {
                assert(self.outbox@.subrange(0, out0.len() as int) =~= out_before.subrange(0, out0.len() as int));
                assert(behind_job_recoverable(behind0[k as int], bgs, epochs, logs, db, conn));
            }
            controls.push(recovered);
            k = k + 1;
        }
        proof {
            assert(k == behind0.len());
        }
        Ok(controls)
    }

    /// Recovers a database from its persisted state: creates its steady-state graph,
    /// starts it from the epoch that all its state tables committed with an initial
    /// barrier to the next epoch of the clock, and rebuilds each snapshot-backfill job
    /// that had not caught up yet as a creating job. A snapshot-backfill job that had
    /// caught up joins the steady-state graph. It succeeds exactly when
    /// `initial_recovery_succeeds` holds of its inputs.
    pub fn inject_database_initial_barrier(
        &mut self,
        database_id: DatabaseId,
        jobs: Vec<InflightStreamingJobInfo>,
        state_table_committed_epochs: &Vec<(TableId, u64)>,
        state_table_log_epochs: &Vec<(TableId, Vec<LogEpochs>)>,
        background_jobs: &Vec<BackgroundJob>,
        subscriptions: Vec<MvDependedSubscription>,
        is_paused: bool,
        physical_now: u64,
    ) -> (r: Result<DatabaseInitialBarrierCollector, RecoveryError>)
        requires
            old(self).wf(),
        ensures
            final(self).wf(),
            final(self).connected_nodes == old(self).connected_nodes,
            final(self).outbox@.len() >= old(self).outbox@.len() + old(self).connected_nodes@.len(),
            final(self).outbox@.subrange(
                0,
                (old(self).outbox@.len() + old(self).connected_nodes@.len()) as int,
            ) == old(self).outbox@ + database_graph_messages(old(self).connected_ids(), database_id),
            r is Ok <==> initial_recovery_succeeds(
                jobs@,
                background_jobs@,
                state_table_committed_epochs@,
                state_table_log_epochs@,
                old(self).connected_ids(),
                physical_now,
            ),
            r matches Err(e) ==> recovery_error_explained(
                e,
                background_jobs@,
                state_table_committed_epochs@,
                old(self).connected_ids(),
                physical_now,
            ),
            r matches Ok(c) ==> {
                &&& final(self).outbox@.len() >= old(self).outbox@.len() + 2 * old(self).connected_nodes@.len()
                &&& forall|k: int|
                    0 <= k < old(self).connected_nodes@.len() ==> is_initial_barrier_for(
                        #[trigger] final(self).outbox@[old(self).outbox@.len() + old(self).connected_nodes@.len() + k],
                        old(self).connected_ids()[k],
                        database_id,
                        c.committed_epoch,
                        c.new_epoch,
                    )
            },
            r matches Ok(c) ==> {
                let c0 = common_epoch(
                    jobs_table_ids(steady_jobs(jobs@, background_jobs@)),
                    state_table_committed_epochs@,
                )->Some_0;
                let behind = behind_jobs(jobs@, background_jobs@, state_table_committed_epochs@, c0);
                &&& c.wf()
                &&& c.database_id == database_id
                &&& c.is_paused == is_paused
                &&& c.committed_epoch == c0
                &&& Some(c.new_epoch) == next_epoch_spec(c.committed_epoch, physical_now)
                &&& c.new_epoch > c.committed_epoch
                &&& c.database_jobs@ == recovered_database_jobs(
                    jobs@,
                    background_jobs@,
                    state_table_committed_epochs@,
                    c0,
                )
                &&& forall|w: WorkerId|
                    c.node_to_collect@.contains_key(w) <==> old(self).connected_ids().contains(w)
                &&& c.creating_streaming_job_controls@.len() == behind.len()
                &&& forall|i: int|
                    0 <= i < behind.len() ==> rebuilt_from(
                        #[trigger] c.creating_streaming_job_controls@[i],
                        behind[i],
                        background_jobs@,
                        state_table_committed_epochs@,
                    )
            },
    {
        self.add_partial_graph(database_id, None);
        let ghost out_pg = self.outbox@;
        let ghost n = old(self).connected_nodes@.len();
        let ghost conn = old(self).connected_ids();
        let ghost jobs0 = jobs@;
        let ghost bgs = background_jobs@;
        let ghost epochs = state_table_committed_epochs@;
        let ghost logs = state_table_log_epochs@;
        proof {
            assert(self.connected_ids() == conn);
            assert(out_pg.subrange(0, (old(self).outbox@.len() + n) as int) =~= out_pg);
        }
        let (steady, snaps) = partition_jobs(jobs, background_jobs);
        let tables = jobs_tables(&steady);
        let prev_epoch = match resolve_jobs_committed_epoch(state_table_committed_epochs, &tables) {
            Ok(e) => e,
            Err(e) => {
                return Err(e);
            },
        };
        let curr_epoch = match next_epoch(prev_epoch, physical_now) {
            Some(e) => e,
            None => {
                proof {
                    assert(committed_epoch_of(epochs, tables@[0]) == Some(prev_epoch));
                    assert(next_epoch_spec(prev_epoch, physical_now) is None);
                }
                return Err(RecoveryError::ClockNotAdvanced);
            },
        };
        let ghost c0 = prev_epoch;
        proof {
            assert forall|i: int| 0 <= i < snaps@.len() implies is_snapshot_job(bgs, #[trigger] snaps@[i]) by {
                jobs0.lemma_filter_pred(|j: InflightStreamingJobInfo| is_snapshot_job(bgs, j), i);
            }
        }
        let mut subscriptions = subscriptions;
        let split = match split_snapshot_jobs(
            snaps,
            background_jobs,
            state_table_committed_epochs,
            prev_epoch,
            &mut subscriptions,
        ) {
            Ok(split) => split,
            Err(e) => {
                proof {
                    let sj = snapshot_jobs(jobs0, bgs);
                    let i = choose|i: int| 0 <= i < sj.len() && !#[trigger] snapshot_job_resolvable(sj[i], bgs, epochs, c0);
                    if common_epoch(graph_table_ids(sj[i].fragment_infos@), epochs) is Some {
                        let bpred = |j: InflightStreamingJobInfo| !caught_up(j, epochs, c0);
                        sj.lemma_filter_contains(bpred, i);
                        let bj = sj.filter(bpred);
                        let x = choose|x: int| 0 <= x < bj.len() && bj[x] == sj[i];
                        assert(!behind_job_recoverable(bj[x], bgs, epochs, logs, recovered_database_jobs(jobs0, bgs, epochs, c0), conn));
                    }
                }
                return Err(e);
            },
        };
        let SnapshotSplit { caught_up: mut caught, behind, behind_epochs } = split;
        let mut database_jobs = steady;
        database_jobs.append(&mut caught);
        assert(database_jobs@ == recovered_database_jobs(jobs0, bgs, epochs, c0));
        proof {
            assert(common_epoch(jobs_table_ids(steady_jobs(jobs0, bgs)), epochs) == Some(c0));
            assert(self.connected_ids() == conn);
        }
        match self.check_jobs_connected(&database_jobs) {
            Ok(()) => {},
            Err(e) => {
                proof {
                    assert(!jobs_workers_connected(recovered_database_jobs(jobs0, bgs, epochs, c0), conn));
                    assert(!initial_recovery_succeeds(jobs0, bgs, epochs, logs, conn, physical_now));
                }
                return Err(RecoveryError::ControlStream(e));
            },
        }
        let mutation = AddMutation {
            added_actors: Vec::new(),
            pause: is_paused,
            subscriptions_to_add: Vec::new(),
            backfill_nodes_to_pause: Vec::new(),
        };
        let barrier_info = BarrierInfo { prev_epoch, curr_epoch, kind: BarrierKind::Initial };
        let fragments = all_fragments(&database_jobs);
        proof {
            assert forall|a: int, b: int|
                0 <= a < fragments@.len() && 0 <= b < fragments@[a].actors@.len() implies conn.contains(
                #[trigger] fragments@[a].actors@[b].worker_id,
            ) by {
                assert(actors_of_some_job(fragments@[a].actors@, database_jobs@));
                let (x, f) = choose|x: int, f: int|
                    0 <= x < database_jobs@.len() && 0 <= f < database_jobs@[x].fragment_infos@.len()
                        && fragments@[a].actors@ == (#[trigger] database_jobs@[x].fragment_infos@[f]).actors@;
                assert(all_workers_connected(database_jobs@[x].fragment_infos@, conn));
                assert(database_jobs@[x].fragment_infos@[f].actors@[b].worker_id == fragments@[a].actors@[b].worker_id);
            }
        }
        let builds = actors_to_build(&fragments);
        let subs = subscriptions_to_add(&subscriptions);
        let node_to_collect = match self.inject_barrier(
            database_id,
            None,
            Some(Mutation::Add(mutation.clone())),
            &barrier_info,
            &fragments,
            &fragments,
            Some(builds),
            subs,
            Vec::new(),
        ) {
            Ok(n) => n,
            Err(e) => {
                proof {
                    assert(false);
                }
                return Err(RecoveryError::ControlStream(e));
            },
        };
        let ghost out_b = self.outbox@;
        proof {
            assert(out_b.subrange(0, (old(self).outbox@.len() + n) as int) =~= out_pg.subrange(0, (old(self).outbox@.len() + n) as int));
            assert forall|k: int| 0 <= k < n implies is_initial_barrier_for(
                #[trigger] out_b[old(self).outbox@.len() + n + k],
                old(self).connected_ids()[k],
                database_id,
                prev_epoch,
                curr_epoch,
            ) by {
                assert(out_b[out_pg.len() + k] == out_b[old(self).outbox@.len() + n + k]);
            }
            assert(behind@ == behind_jobs(jobs0, bgs, epochs, c0));
        }
        let creating_streaming_job_controls = match self.recover_behind_jobs(
            database_id,
            behind,
            behind_epochs,
            background_jobs,
            state_table_committed_epochs,
            state_table_log_epochs,
            &database_jobs,
            curr_epoch,
            &mutation,
        ) {
            Ok(v) => v,
            Err(e) => {
                proof {
                    let fo = self.outbox@;
                    assert(fo.subrange(0, (old(self).outbox@.len() + n) as int) =~= out_b.subrange(0, (old(self).outbox@.len() + n) as int));
                }
                return Err(e);
            },
        };
        proof {
            let sj = snapshot_jobs(jobs0, bgs);
            assert forall|i: int| 0 <= i < sj.len() implies common_epoch(
                graph_table_ids((#[trigger] sj[i]).fragment_infos@),
                epochs,
            ) is Some by {
                assert(snapshot_job_resolvable(sj[i], bgs, epochs, c0));
            }
            assert(initial_recovery_succeeds(jobs0, bgs, epochs, logs, conn, physical_now));
            let fo = self.outbox@;
            let m = (old(self).outbox@.len() + n) as int;
            assert(fo.subrange(0, m) =~= out_b.subrange(0, m));
            assert forall|k: int| 0 <= k < n implies is_initial_barrier_for(
                #[trigger] fo[old(self).outbox@.len() + n + k],
                old(self).connected_ids()[k],
                database_id,
                prev_epoch,
                curr_epoch,
            ) by {
                assert(fo[old(self).outbox@.len() + n + k] == out_b[old(self).outbox@.len() + n + k]);
            }
        }
        Ok(DatabaseInitialBarrierCollector {
            database_id,
            node_to_collect,
            database_jobs,
            subscriptions,
            is_paused,
            new_epoch: curr_epoch,
            creating_streaming_job_controls,
            committed_epoch: prev_epoch,
        })
    }
}

} // verus!
