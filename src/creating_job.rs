//! The control of one job being bootstrapped from a snapshot: its own partial graph,
//! its epoch ledger, and its bootstrap state.
use vstd::prelude::*;
use crate::barrier_control::CreatingStreamingJobBarrierControl;
use crate::command::{is_merge_of, merges_job, Command};
use crate::control_stream::{
    all_workers_connected, builds_of, is_barrier_for, ControlStreamError, ControlStreamManager,
    valid_job_graph,
};
use crate::graph_info::has_worker;
use crate::protocol::{mutation_view, MutationView, StreamingControlStreamRequest};
use crate::epoch::{BarrierInfoView, BarrierKindView};
use crate::epoch::{
    physical_time, ActorId, BarrierInfo, BarrierKind, DatabaseId, FragmentId, TableId, WorkerId,
    MAX_PHYSICAL_TIME,
};
use crate::graph_info::{existing_table_ids, InflightFragmentInfo, InflightStreamingJobInfo};
use crate::progress::BackfillProgressTracker;
use crate::protocol::{ActorToBuild, AddMutation, BarrierCompleteResponse, Mutation};
use crate::status::{new_fake_barrier, CreatingStreamingJobStatus, FakeBarrierKind};
use crate::upstream_log::{
    resolve_upstream_log_epochs, resolved_barriers, log_resumable, lemma_replay_nonempty, LogEpochs,
    LogResolveError,
};
use crate::epoch::{barrier_views, epoch_at};
use crate::status::{batch_views, saturating_sub, fake_barrier};
use crate::text::{decimal, decimal_string};
use vstd::string::StringExecFns;

verus! {

/// Whether the user waits for a job's creation or it runs in the background.
#[derive(Clone, Copy, PartialEq, Eq, Debug)]
pub enum CreateType {
    Foreground,
    Background,
}

/// Why a barrier of a creating job could not be injected or its state recovered.
#[derive(Clone, Copy, PartialEq, Eq, Debug)]
pub enum CreatingJobError {
    /// The multiplexer refused the barrier.
    ControlStream(ControlStreamError),
    /// The barrier's epoch does not follow the epochs already in flight.
    EpochNotIncreasing { last: u64, epoch: u64 },
    /// The upstream log cannot be replayed from the committed epoch.
    UpstreamLog(LogResolveError),
    /// The job names no upstream table.
    NoUpstreamTable,
    /// No log is persisted for the job's upstream table.
    UpstreamLogMissing(TableId),
    /// The committed epoch leaves no room for fabricated epochs after it.
    FakeEpochExhausted,
}

/// How an epoch handed out for commit relates to the job's life.
#[derive(Clone, Copy, PartialEq, Eq, Debug)]
pub enum CompleteJobType {
    /// The first epoch of the job to commit.
    First,
    Normal,
    /// The last epoch: the job is merged and done.
    Finished,
}

/// What the ledger needs to create a snapshot-backfill job.
pub struct CreateStreamingJobCommandInfo {
    pub job_id: TableId,
    pub database_id: DatabaseId,
    pub definition: String,
    pub create_type: CreateType,
    pub fragment_infos: Vec<InflightFragmentInfo>,
    pub added_actors: Vec<ActorId>,
    pub snapshot_backfill_actors: Vec<ActorId>,
    pub actors_to_create: Vec<ActorToBuild>,
    pub backfill_nodes_to_pause: Vec<FragmentId>,
}

/// `new` is the job `old` after recording `resp`: its ledger collects the response and
/// its stage applies the backfill progress it carries; all else stays.
pub open spec fn job_collected(
    old: CreatingStreamingJobControl,
    new: CreatingStreamingJobControl,
    resp: BarrierCompleteResponse,
) -> bool {
    &&& crate::barrier_control::collected(old.barrier_control, new.barrier_control, resp)
    &&& crate::status::progress_applied(old.status, new.status, resp.create_mview_progress@)
    &&& new.graph_info == old.graph_info
    &&& new.job_id == old.job_id
    &&& new.database_id == old.database_id
    &&& new.backfill_epoch == old.backfill_epoch
    &&& new.upstream_lag == old.upstream_lag
}

/// The fragments a barrier syncs the state tables of, if any.
pub open spec fn applied_fragments(g: Option<&InflightStreamingJobInfo>) -> Seq<InflightFragmentInfo> {
    match g {
        Some(x) => x.fragment_infos@,
        None => Seq::empty(),
    }
}

/// `n` asks every connected worker, and only those, to acknowledge a barrier on the
/// fragments `pre`, marking the workers that hold none of their actors.
pub open spec fn collects_from(
    n: Map<WorkerId, bool>,
    pre: Seq<InflightFragmentInfo>,
    connected: Seq<WorkerId>,
) -> bool {
    &&& forall|w: WorkerId| n.contains_key(w) <==> connected.contains(w)
    &&& forall|w: WorkerId| #[trigger] n.contains_key(w) ==> n[w] == !has_worker(pre, w)
}

/// `new_out` is `old_out` followed by one barrier for each connected worker, in order,
/// on the partial graph of `job_id` with no subscription changes.
pub open spec fn job_barrier_sent(
    old_out: Seq<(WorkerId, StreamingControlStreamRequest)>,
    new_out: Seq<(WorkerId, StreamingControlStreamRequest)>,
    connected: Seq<WorkerId>,
    database_id: DatabaseId,
    job_id: TableId,
    barrier: BarrierInfoView,
    pre: Seq<InflightFragmentInfo>,
    applied: Seq<InflightFragmentInfo>,
    builds: Seq<ActorToBuild>,
    mutation: Option<MutationView>,
) -> bool {
    &&& new_out.len() == old_out.len() + connected.len()
    &&& new_out.subrange(0, old_out.len() as int) == old_out
    &&& forall|k: int|
        0 <= k < connected.len() ==> is_barrier_for(
            #[trigger] new_out[old_out.len() + k],
            connected[k],
            database_id,
            job_id,
            barrier,
            pre,
            applied,
            builds,
            Seq::empty(),
            Seq::empty(),
            mutation,
        )
}

/// The messages that create the partial graph of `job_id` on every connected worker.
pub open spec fn create_graph_messages(
    connected: Seq<WorkerId>,
    database_id: DatabaseId,
    job_id: TableId,
) -> Seq<(WorkerId, StreamingControlStreamRequest)> {
    connected.map_values(
        |w: WorkerId|
            (
                w,
                StreamingControlStreamRequest::CreatePartialGraph {
                    database_id,
                    partial_graph_id: job_id,
                },
            ),
    )
}

/// One job being bootstrapped.
pub struct CreatingStreamingJobControl {
    pub database_id: DatabaseId,
    pub job_id: TableId,
    pub definition: String,
    pub create_type: CreateType,
    pub snapshot_backfill_upstream_tables: Vec<TableId>,
    pub backfill_epoch: u64,
    pub graph_info: InflightStreamingJobInfo,
    pub barrier_control: CreatingStreamingJobBarrierControl,
    pub status: CreatingStreamingJobStatus,
    /// How far the job lags behind the upstream, in epoch units.
    pub upstream_lag: u64,
}

impl CreatingStreamingJobControl {
    pub open spec fn wf(&self) -> bool {
        &&& self.barrier_control.wf()
        &&& self.status.wf()
        &&& valid_job_graph(Some(self.job_id))
        &&& self.barrier_control.job_id == self.job_id
        &&& self.barrier_control.backfill_epoch == self.backfill_epoch
        &&& self.status matches CreatingStreamingJobStatus::Finishing(f) ==> {
            &&& self.barrier_control.injected@.len() > 0
            &&& self.barrier_control.injected@.last() == f
        }
    }

    /// Injects one barrier of the job's own graph and enqueues it in the ledger; nothing
    /// is sent where its epoch does not follow the epochs already enqueued.
    fn inject_barrier(
        database_id: DatabaseId,
        table_id: TableId,
        control_stream_manager: &mut ControlStreamManager,
        barrier_control: &mut CreatingStreamingJobBarrierControl,
        pre_applied_graph_info: &InflightStreamingJobInfo,
        applied_graph_info: Option<&InflightStreamingJobInfo>,
        barrier_info: BarrierInfo,
        new_actors: Option<Vec<ActorToBuild>>,
        mutation: Option<Mutation>,
    ) -> (r: Result<(), CreatingJobError>)
        requires
            old(control_stream_manager).wf(),
            old(barrier_control).wf(),
            valid_job_graph(Some(table_id)),
        ensures
            final(control_stream_manager).wf(),
            final(barrier_control).wf(),
            final(control_stream_manager).connected_nodes == old(control_stream_manager).connected_nodes,
            final(barrier_control).job_id == old(barrier_control).job_id,
            final(barrier_control).backfill_epoch == old(barrier_control).backfill_epoch,
            final(barrier_control).completing == old(barrier_control).completing,
            final(barrier_control).committed == old(barrier_control).committed,
            final(barrier_control).is_first_committed == old(barrier_control).is_first_committed,
            final(barrier_control).queue@.len() >= old(barrier_control).queue@.len(),
            final(control_stream_manager).workers == old(control_stream_manager).workers,
            r is Err <==> (!old(barrier_control).can_enqueue(barrier_info.prev_epoch)
                || !all_workers_connected(
                pre_applied_graph_info.fragment_infos@,
                old(control_stream_manager).connected_ids(),
            )),
            r is Ok ==> final(barrier_control).injected@ == old(barrier_control).injected@.push(
                barrier_info.prev_epoch,
            ),
            r is Ok ==> {
                let q = final(barrier_control).queue@;
                &&& q.len() == old(barrier_control).queue@.len() + 1
                &&& q.subrange(0, old(barrier_control).queue@.len() as int) == old(barrier_control).queue@
                &&& q.last().epoch == barrier_info.prev_epoch
                &&& q.last().kind@ == barrier_info.kind@
                &&& q.last().resps@.len() == 0
                &&& collects_from(
                    q.last().node_to_collect@,
                    pre_applied_graph_info.fragment_infos@,
                    old(control_stream_manager).connected_ids(),
                )
                &&& job_barrier_sent(
                    old(control_stream_manager).outbox@,
                    final(control_stream_manager).outbox@,
                    old(control_stream_manager).connected_ids(),
                    database_id,
                    table_id,
                    barrier_info@,
                    pre_applied_graph_info.fragment_infos@,
                    applied_fragments(applied_graph_info),
                    builds_of(new_actors),
                    mutation_view(mutation),
                )
            },
            r is Err ==> *final(barrier_control) == *old(barrier_control),
            r is Err ==> final(control_stream_manager).outbox == old(control_stream_manager).outbox,
            r matches Err(CreatingJobError::ControlStream(ce)) ==> ce matches ControlStreamError::UnconnectedWorker(w)
                && !old(control_stream_manager).connected_ids().contains(w),
            r matches Err(e) ==> (e is ControlStream || (e is EpochNotIncreasing
                && !old(barrier_control).can_enqueue(barrier_info.prev_epoch))),
            !old(barrier_control).can_enqueue(barrier_info.prev_epoch) ==> r
                == Err::<(), CreatingJobError>(CreatingJobError::EpochNotIncreasing {
                last: old(barrier_control).last_enqueued_epoch->Some_0,
                epoch: barrier_info.prev_epoch,
            }),
    {
        if !barrier_control.accepts_epoch(barrier_info.prev_epoch) {
            let last = match barrier_control.last_enqueued_epoch {
                Some(l) => l,
                None => 0,
            };
            return Err(CreatingJobError::EpochNotIncreasing { last, epoch: barrier_info.prev_epoch });
        }
        let empty: Vec<InflightFragmentInfo> = Vec::new();
        let applied = match applied_graph_info {
            Some(g) => &g.fragment_infos,
            None => &empty,
        };
        let node_to_collect = match control_stream_manager.inject_barrier(
            database_id,
            Some(table_id),
            mutation,
            &barrier_info,
            &pre_applied_graph_info.fragment_infos,
            applied,
            new_actors,
            Vec::new(),
            Vec::new(),
        ) {
            Ok(n) => n,
            Err(e) => {
                return Err(CreatingJobError::ControlStream(e));
            },
        };
        barrier_control.enqueue_epoch(
            barrier_info.prev_epoch,
            node_to_collect,
            barrier_info.kind.duplicate(),
        );
        Ok(())
    }

    /// Starts bootstrapping a job: its partial graph is created on every worker, and a
    /// fabricated initial barrier adds its actors. The job begins by consuming its
    /// snapshot. It fails, after creating the partial graph, exactly when a worker
    /// holding one of its actors is not connected.
    pub fn new(
        info: CreateStreamingJobCommandInfo,
        snapshot_backfill_upstream_tables: Vec<TableId>,
        backfill_epoch: u64,
        control_stream_manager: &mut ControlStreamManager,
    ) -> (r: Result<Self, CreatingJobError>)
        requires
            old(control_stream_manager).wf(),
            valid_job_graph(Some(info.job_id)),
        ensures
            final(control_stream_manager).wf(),
            final(control_stream_manager).connected_nodes == old(control_stream_manager).connected_nodes,
            r is Err <==> !all_workers_connected(
                info.fragment_infos@,
                old(control_stream_manager).connected_ids(),
            ),
            r is Err ==> final(control_stream_manager).outbox@ == old(control_stream_manager).outbox@
                + create_graph_messages(
                old(control_stream_manager).connected_ids(),
                info.database_id,
                info.job_id,
            ),
            r matches Ok(job) ==> {
                &&& job.wf()
                &&& job.job_id == info.job_id
                &&& job.database_id == info.database_id
                &&& job.backfill_epoch == backfill_epoch
                &&& job.graph_info.fragment_infos == info.fragment_infos
                &&& job.barrier_control.injected@ == seq![0u64]
                &&& !job.barrier_control.is_first_committed
                &&& job.barrier_control.queue@.len() == 1
                &&& job.barrier_control.queue@[0].epoch == 0
                &&& job.barrier_control.queue@[0].kind@ == BarrierKindView::Initial
                &&& collects_from(
                    job.barrier_control.queue@[0].node_to_collect@,
                    info.fragment_infos@,
                    old(control_stream_manager).connected_ids(),
                )
                &&& job_barrier_sent(
                    old(control_stream_manager).outbox@ + create_graph_messages(
                        old(control_stream_manager).connected_ids(),
                        info.database_id,
                        info.job_id,
                    ),
                    final(control_stream_manager).outbox@,
                    old(control_stream_manager).connected_ids(),
                    info.database_id,
                    info.job_id,
                    fake_barrier(0, Seq::empty(), FakeBarrierKind::Initial),
                    info.fragment_infos@,
                    info.fragment_infos@,
                    info.actors_to_create@,
                    Some(
                        MutationView::Add {
                            added_actors: info.added_actors@,
                            pause: false,
                            subscriptions_to_add: Seq::empty(),
                            backfill_nodes_to_pause: info.backfill_nodes_to_pause@,
                        },
                    ),
                )
                &&& job.status matches CreatingStreamingJobStatus::ConsumingSnapshot {
                    prev_epoch_fake_physical_time: t,
                    pending_upstream_barriers: up,
                    backfill_epoch: be,
                    pending_non_checkpoint_barriers: pend,
                    snapshot_backfill_actors: acts,
                    snapshot_tracker: tr,
                } && t == 1 && up@.len() == 0 && be == backfill_epoch && pend@.len() == 0
                    && acts@ == info.snapshot_backfill_actors@
                    && tr.ongoing_actors@ == info.snapshot_backfill_actors@.map_values(
                    |a: ActorId| (a, 0u64),
                )
            },
    {
        let job_id = info.job_id;
        let database_id = info.database_id;
        let ghost info0 = info;
        let mut barrier_control = CreatingStreamingJobBarrierControl::new(job_id, backfill_epoch, false);
        let mut prev_epoch_fake_physical_time: u64 = 0;
        let mut pending_non_checkpoint_barriers: Vec<u64> = Vec::new();
        let initial_barrier_info = new_fake_barrier(
            &mut prev_epoch_fake_physical_time,
            &mut pending_non_checkpoint_barriers,
            FakeBarrierKind::Initial,
        );
        assert(initial_barrier_info.prev_epoch == 0);
        let CreateStreamingJobCommandInfo {
            definition,
            create_type,
            fragment_infos,
            added_actors,
            snapshot_backfill_actors,
            actors_to_create,
            backfill_nodes_to_pause,
            ..
        } = info;
        let graph_info = InflightStreamingJobInfo { job_id, fragment_infos };
        let initial_mutation = Mutation::Add(
            AddMutation {
                added_actors,
                pause: false,
                subscriptions_to_add: Vec::new(),
                backfill_nodes_to_pause,
            },
        );
        let ghost connected = control_stream_manager.connected_ids();
        control_stream_manager.add_partial_graph(database_id, Some(job_id));
        proof {
            assert(control_stream_manager.connected_ids() == connected);
        }
        match Self::inject_barrier(
            database_id,
            job_id,
            control_stream_manager,
            &mut barrier_control,
            &graph_info,
            Some(&graph_info),
            initial_barrier_info,
            Some(actors_to_create),
            Some(initial_mutation),
        ) {
            Ok(()) => {},
            Err(e) => {
                return Err(e);
            },
        }
        assert(barrier_control.injected@ =~= seq![0u64]);
        let snapshot_tracker = BackfillProgressTracker::new(&snapshot_backfill_actors, 0);
        Ok(CreatingStreamingJobControl {
            database_id,
            job_id,
            definition,
            create_type,
            snapshot_backfill_upstream_tables,
            backfill_epoch,
            graph_info,
            barrier_control,
            status: CreatingStreamingJobStatus::ConsumingSnapshot {
                prev_epoch_fake_physical_time,
                pending_upstream_barriers: Vec::new(),
                snapshot_tracker,
                snapshot_backfill_actors,
                backfill_epoch,
                pending_non_checkpoint_barriers,
            },
            upstream_lag: 0,
        })
    }
}

/// The log of the first upstream table among `logs`, if there is one.
pub open spec fn upstream_log_of(tables: Seq<TableId>, logs: Seq<(TableId, Vec<LogEpochs>)>) -> Option<
    Seq<LogEpochs>,
> {
    if tables.len() == 0 {
        None
    } else if exists|i: int| 0 <= i < logs.len() && #[trigger] logs[i].0 == tables[0] {
        let i = choose|i: int| 0 <= i < logs.len() && #[trigger] logs[i].0 == tables[0] && forall|k: int|
            0 <= k < i ==> logs[k].0 != tables[0];
        Some(logs[i].1@)
    } else {
        None
    }
}

fn find_upstream_log<'a>(tables: &Vec<TableId>, logs: &'a Vec<(TableId, Vec<LogEpochs>)>) -> (r: Result<
    &'a Vec<LogEpochs>,
    CreatingJobError,
>)
    ensures
        r is Ok <==> upstream_log_of(tables@, logs@) is Some,
        r matches Ok(l) ==> upstream_log_of(tables@, logs@) == Some(l@),
        r matches Err(e) ==> (e is NoUpstreamTable || e is UpstreamLogMissing),
{
    if tables.len() == 0 {
        return Err(CreatingJobError::NoUpstreamTable);
    }
    let table_id = tables[0];
    let mut i: usize = 0;
    while i < logs.len()
        invariant
            i <= logs@.len(),
            tables@.len() > 0,
            table_id == tables@[0],
            forall|k: int| 0 <= k < i ==> logs@[k].0 != table_id,
        decreases logs@.len() - i,
    {
        if logs[i].0 == table_id {
            proof {
                assert(logs@[i as int].0 == tables@[0]);
                let c = choose|c: int| 0 <= c < logs@.len() && #[trigger] logs@[c].0 == tables@[0] && forall|k: int|
                    0 <= k < c ==> logs@[k].0 != tables@[0];
                assert(c == i) by {
                    if c < i {
                        assert(logs@[c].0 != table_id);
                    }
                    if c > i {
                        assert(logs@[i as int].0 != tables@[0]);
                    }
                }
            }
            return Ok(&logs[i].1);
        }
        i = i + 1;
    }
    Err(CreatingJobError::UpstreamLogMissing(table_id))
}

/// Rebuilds the snapshot stage of a job recovered before its snapshot caught up: a
/// fabricated initial barrier right after the committed epoch, and the upstream's log
/// from the backfill epoch kept aside.
fn recover_consuming_snapshot(
    log: &Vec<LogEpochs>,
    backfill_epoch: u64,
    committed_epoch: u64,
    upstream_curr_epoch: u64,
    snapshot_backfill_actors: &Vec<ActorId>,
) -> (r: Result<(CreatingStreamingJobStatus, BarrierInfo), CreatingJobError>)
    ensures
        r is Ok <==> (committed_epoch / 65536 < MAX_PHYSICAL_TIME && log_resumable(log@, backfill_epoch)),
        r matches Err(e) ==> (e is FakeEpochExhausted || e is UpstreamLog),
        r matches Ok((status, first)) ==> {
            &&& status.wf()
            &&& first@ == fake_barrier((committed_epoch / 65536) as nat, Seq::empty(), FakeBarrierKind::Initial)
            &&& status matches CreatingStreamingJobStatus::ConsumingSnapshot {
                prev_epoch_fake_physical_time: t,
                pending_upstream_barriers: up,
                backfill_epoch: be,
                pending_non_checkpoint_barriers: pend,
                ..
            } && t == committed_epoch / 65536 + 1 && be == backfill_epoch && pend@.len() == 0
                && barrier_views(up@) == resolved_barriers(log@, backfill_epoch, upstream_curr_epoch)
            &&& status matches CreatingStreamingJobStatus::ConsumingSnapshot { snapshot_backfill_actors: acts, .. }
                && acts@ == snapshot_backfill_actors@
            &&& status matches CreatingStreamingJobStatus::ConsumingSnapshot { snapshot_tracker: tr, .. }
                && tr.ongoing_actors@ == snapshot_backfill_actors@.map_values(|a: ActorId| (a, 0u64))
        },
{
    let mut prev_epoch_fake_physical_time = physical_time(committed_epoch);
    if prev_epoch_fake_physical_time >= MAX_PHYSICAL_TIME {
        return Err(CreatingJobError::FakeEpochExhausted);
    }
    let mut pending_non_checkpoint_barriers: Vec<u64> = Vec::new();
    let barrier_info = new_fake_barrier(
        &mut prev_epoch_fake_physical_time,
        &mut pending_non_checkpoint_barriers,
        FakeBarrierKind::Initial,
    );
    let pending_upstream_barriers = match resolve_upstream_log_epochs(
        log,
        backfill_epoch,
        upstream_curr_epoch,
    ) {
        Ok(v) => v,
        Err(e) => {
            return Err(CreatingJobError::UpstreamLog(e));
        },
    };
    let snapshot_tracker = BackfillProgressTracker::new(snapshot_backfill_actors, 0);
    Ok((
        CreatingStreamingJobStatus::ConsumingSnapshot {
            prev_epoch_fake_physical_time,
            pending_upstream_barriers,
            snapshot_tracker,
            snapshot_backfill_actors: crate::epoch::copy_ids(snapshot_backfill_actors),
            backfill_epoch,
            pending_non_checkpoint_barriers,
        },
        barrier_info,
    ))
}

/// The persisted state can be resumed: below the backfill epoch the log must replay
/// from the backfill epoch and leave room for fabricated epochs; otherwise it must
/// replay from the committed epoch.
pub open spec fn recoverable(log: Seq<LogEpochs>, committed_epoch: u64, backfill_epoch: u64) -> bool {
    &&& committed_epoch < backfill_epoch ==> committed_epoch / 65536 < MAX_PHYSICAL_TIME
        && log_resumable(log, backfill_epoch)
    &&& committed_epoch >= backfill_epoch ==> log_resumable(log, committed_epoch)
}

/// The initial barrier a recovered job starts its graph with: a fabricated one right
/// after the committed epoch while consuming the snapshot, else the first barrier of
/// the log replay.
pub open spec fn recovery_first_barrier(
    log: Seq<LogEpochs>,
    committed_epoch: u64,
    backfill_epoch: u64,
    upstream_curr_epoch: u64,
) -> BarrierInfoView {
    if committed_epoch < backfill_epoch {
        fake_barrier((committed_epoch / 65536) as nat, Seq::empty(), FakeBarrierKind::Initial)
    } else {
        let all = resolved_barriers(log, committed_epoch, upstream_curr_epoch);
        BarrierInfoView {
            prev_epoch: all[0].prev_epoch,
            curr_epoch: all[0].curr_epoch,
            kind: BarrierKindView::Initial,
        }
    }
}

/// The lag that a log-store stage resumed at `committed_epoch` starts its actors at:
/// from the committed epoch to the previous epoch of the last barrier left to replay.
pub open spec fn log_store_lag(all: Seq<BarrierInfoView>, committed_epoch: u64) -> u64 {
    if all.len() > 1 {
        saturating_sub(all.last().prev_epoch, committed_epoch)
    } else {
        0
    }
}

/// Rebuilds the log-store stage of a job recovered after its snapshot caught up: the
/// upstream's log from the committed epoch, whose first barrier becomes the initial one.
fn recover_consuming_log_store(
    log: &Vec<LogEpochs>,
    committed_epoch: u64,
    upstream_curr_epoch: u64,
    snapshot_backfill_actors: &Vec<ActorId>,
) -> (r: Result<(CreatingStreamingJobStatus, BarrierInfo), CreatingJobError>)
    ensures
        r is Ok <==> log_resumable(log@, committed_epoch),
        r matches Err(e) ==> e is UpstreamLog,
        r matches Ok((status, first)) ==> {
            let all = resolved_barriers(log@, committed_epoch, upstream_curr_epoch);
            &&& status.wf()
            &&& first.prev_epoch == all[0].prev_epoch
            &&& first.curr_epoch == all[0].curr_epoch
            &&& first.kind is Initial
            &&& all.len() >= 1
            &&& status matches CreatingStreamingJobStatus::ConsumingLogStore {
                barriers_to_inject: batch,
                log_store_progress_tracker: tr,
            } && batch is Some && batch_views(batch) == all.drop_first() && tr.ongoing_actors@
                == snapshot_backfill_actors@.map_values(
                |a: ActorId| (a, log_store_lag(all, committed_epoch)),
            )
        },
{
    let mut barriers_to_inject = match resolve_upstream_log_epochs(
        log,
        committed_epoch,
        upstream_curr_epoch,
    ) {
        Ok(v) => v,
        Err(e) => {
            return Err(CreatingJobError::UpstreamLog(e));
        },
    };
    proof {
        lemma_replay_nonempty(log@, committed_epoch, upstream_curr_epoch);
    }
    let ghost all = barrier_views(barriers_to_inject@);
    let first = barriers_to_inject.remove(0);
    proof {
        assert(barrier_views(barriers_to_inject@) =~= all.drop_first());
    }
    let first_barrier = BarrierInfo {
        prev_epoch: first.prev_epoch,
        curr_epoch: first.curr_epoch,
        kind: BarrierKind::Initial,
    };
    let lag = if barriers_to_inject.len() > 0 {
        let last_prev = barriers_to_inject[barriers_to_inject.len() - 1].prev_epoch;
        proof {
            assert(barrier_views(barriers_to_inject@).last() == all.last());
        }
        if last_prev >= committed_epoch {
            last_prev - committed_epoch
        } else {
            0
        }
    } else {
        0
    };
    let log_store_progress_tracker = BackfillProgressTracker::new(snapshot_backfill_actors, lag);
    Ok((
        CreatingStreamingJobStatus::ConsumingLogStore {
            log_store_progress_tracker,
            barriers_to_inject: Some(barriers_to_inject),
        },
        first_barrier,
    ))
}

impl CreatingStreamingJobControl {
    /// Rebuilds a creating job after a full recovery from its persisted committed epoch
    /// and backfill epoch alone: below the backfill epoch it resumes consuming its
    /// snapshot, otherwise it resumes consuming the upstream's log from the committed
    /// epoch. Its partial graph is created again and its first barrier injected.
    pub fn recover(
        database_id: DatabaseId,
        job_id: TableId,
        definition: String,
        snapshot_backfill_upstream_tables: Vec<TableId>,
        upstream_table_log_epochs: &Vec<(TableId, Vec<LogEpochs>)>,
        backfill_epoch: u64,
        committed_epoch: u64,
        upstream_curr_epoch: u64,
        graph_info: InflightStreamingJobInfo,
        snapshot_backfill_actors: &Vec<ActorId>,
        new_actors: Vec<ActorToBuild>,
        initial_mutation: Mutation,
        control_stream_manager: &mut ControlStreamManager,
    ) -> (r: Result<Self, CreatingJobError>)
        requires
            old(control_stream_manager).wf(),
            valid_job_graph(Some(job_id)),
        ensures
            final(control_stream_manager).wf(),
            final(control_stream_manager).connected_nodes == old(control_stream_manager).connected_nodes,
            final(control_stream_manager).outbox@.len() >= old(control_stream_manager).outbox@.len(),
            final(control_stream_manager).outbox@.subrange(0, old(control_stream_manager).outbox@.len() as int)
                == old(control_stream_manager).outbox@,
            r matches Err(CreatingJobError::ControlStream(ce)) ==> ce matches ControlStreamError::UnconnectedWorker(w)
                && !old(control_stream_manager).connected_ids().contains(w),
            !(r matches Err(CreatingJobError::EpochNotIncreasing { .. })),
            r is Ok <==> ({
                &&& upstream_log_of(snapshot_backfill_upstream_tables@, upstream_table_log_epochs@) is Some
                &&& recoverable(
                    upstream_log_of(snapshot_backfill_upstream_tables@, upstream_table_log_epochs@)->Some_0,
                    committed_epoch,
                    backfill_epoch,
                )
                &&& all_workers_connected(
                    graph_info.fragment_infos@,
                    old(control_stream_manager).connected_ids(),
                )
            }),
            r matches Ok(job) ==> {
                let log = upstream_log_of(
                    snapshot_backfill_upstream_tables@,
                    upstream_table_log_epochs@,
                )->Some_0;
                let first = recovery_first_barrier(log, committed_epoch, backfill_epoch, upstream_curr_epoch);
                &&& job.graph_info == graph_info
                &&& job.barrier_control.queue@.len() == 1
                &&& job.barrier_control.queue@[0].epoch == first.prev_epoch
                &&& job.barrier_control.queue@[0].kind@ == BarrierKindView::Initial
                &&& collects_from(
                    job.barrier_control.queue@[0].node_to_collect@,
                    graph_info.fragment_infos@,
                    old(control_stream_manager).connected_ids(),
                )
                &&& job_barrier_sent(
                    old(control_stream_manager).outbox@ + create_graph_messages(
                        old(control_stream_manager).connected_ids(),
                        database_id,
                        job_id,
                    ),
                    final(control_stream_manager).outbox@,
                    old(control_stream_manager).connected_ids(),
                    database_id,
                    job_id,
                    first,
                    graph_info.fragment_infos@,
                    graph_info.fragment_infos@,
                    new_actors@,
                    Some(initial_mutation@),
                )
                &&& job.status matches CreatingStreamingJobStatus::ConsumingSnapshot { snapshot_tracker: tr, .. }
                    ==> tr.ongoing_actors@ == snapshot_backfill_actors@.map_values(|a: ActorId| (a, 0u64))
                &&& job.status matches CreatingStreamingJobStatus::ConsumingLogStore { log_store_progress_tracker: tr, .. }
                    ==> tr.ongoing_actors@ == snapshot_backfill_actors@.map_values(
                    |a: ActorId| (a, log_store_lag(resolved_barriers(log, committed_epoch, upstream_curr_epoch), committed_epoch)),
                )
            },
            r matches Ok(job) ==> {
                let log = upstream_log_of(
                    snapshot_backfill_upstream_tables@,
                    upstream_table_log_epochs@,
                )->Some_0;
                &&& job.wf()
                &&& job.job_id == job_id
                &&& job.backfill_epoch == backfill_epoch
                &&& job.create_type == CreateType::Background
                &&& job.barrier_control.is_first_committed
                &&& (committed_epoch < backfill_epoch <==> job.status is ConsumingSnapshot)
                &&& (committed_epoch >= backfill_epoch <==> job.status is ConsumingLogStore)
                &&& committed_epoch < backfill_epoch ==> (job.status matches
                    CreatingStreamingJobStatus::ConsumingSnapshot {
                    prev_epoch_fake_physical_time: t,
                    pending_upstream_barriers: up,
                    backfill_epoch: be,
                    pending_non_checkpoint_barriers: pend,
                    snapshot_backfill_actors: acts,
                    ..
                } && t == committed_epoch / 65536 + 1 && barrier_views(up@) == resolved_barriers(
                    log,
                    backfill_epoch,
                    upstream_curr_epoch,
                ) && be == backfill_epoch && pend@.len() == 0 && acts@ == snapshot_backfill_actors@ && job.barrier_control.injected@ == seq![epoch_at((committed_epoch / 65536) as nat) as u64])
                &&& committed_epoch >= backfill_epoch ==> (job.status matches
                    CreatingStreamingJobStatus::ConsumingLogStore { barriers_to_inject: batch, .. }
                    && batch is Some && batch_views(batch) == resolved_barriers(
                    log,
                    committed_epoch,
                    upstream_curr_epoch,
                ).drop_first() && job.barrier_control.injected@ == seq![committed_epoch])
            },
    {
        let mut barrier_control = CreatingStreamingJobBarrierControl::new(job_id, backfill_epoch, true);
        let log = match find_upstream_log(&snapshot_backfill_upstream_tables, upstream_table_log_epochs) {
            Ok(l) => l,
            Err(e) => {
                return Err(e);
            },
        };
        let (status, first_barrier_info) = if committed_epoch < backfill_epoch {
            match recover_consuming_snapshot(
                log,
                backfill_epoch,
                committed_epoch,
                upstream_curr_epoch,
                snapshot_backfill_actors,
            ) {
                Ok(p) => p,
                Err(e) => {
                    return Err(e);
                },
            }
        } else {
            match recover_consuming_log_store(
                log,
                committed_epoch,
                upstream_curr_epoch,
                snapshot_backfill_actors,
            ) {
                Ok(p) => p,
                Err(e) => {
                    return Err(e);
                },
            }
        };
        proof {
            if committed_epoch >= backfill_epoch {
                lemma_replay_nonempty(log@, committed_epoch, upstream_curr_epoch);
            }
        }
        let ghost connected = control_stream_manager.connected_ids();
        let ghost out0 = control_stream_manager.outbox@;
        control_stream_manager.add_partial_graph(database_id, Some(job_id));
        proof {
            assert(control_stream_manager.connected_ids() == connected);
            assert(control_stream_manager.outbox@.subrange(0, out0.len() as int) =~= out0);
        }
        let ghost out1 = control_stream_manager.outbox@;
        let ghost first_prev = first_barrier_info.prev_epoch;
        match Self::inject_barrier(
            database_id,
            job_id,
            control_stream_manager,
            &mut barrier_control,
            &graph_info,
            Some(&graph_info),
            first_barrier_info,
            Some(new_actors),
            Some(initial_mutation),
        ) {
            Ok(()) => {},
            Err(e) => {
                return Err(e);
            },
        }
        proof {
            let out2 = control_stream_manager.outbox@;
            assert(out2.subrange(0, out0.len() as int) =~= out1.subrange(0, out0.len() as int));
            assert(barrier_control.injected@ =~= seq![first_prev]);
            assert(barrier_control.queue@.subrange(0, 0) =~= Seq::<crate::barrier_control::EpochState>::empty());
        }
        Ok(CreatingStreamingJobControl {
            database_id,
            job_id,
            definition,
            create_type: CreateType::Background,
            snapshot_backfill_upstream_tables,
            backfill_epoch,
            graph_info,
            barrier_control,
            status,
            upstream_lag: 0,
        })
    }
}

/// The barriers that the job's graph gets for a new upstream barrier, by stage: one
/// fabricated epoch while consuming the snapshot, the pending batch and the upstream
/// barrier while consuming the log, nothing while finishing.
pub open spec fn barriers_for_upstream_epoch(
    status: CreatingStreamingJobStatus,
    barrier: crate::epoch::BarrierInfoView,
) -> Seq<crate::epoch::BarrierInfoView> {
    match status {
        CreatingStreamingJobStatus::ConsumingSnapshot {
            prev_epoch_fake_physical_time: t,
            pending_non_checkpoint_barriers: pend,
            ..
        } => seq![
            fake_barrier(
                t as nat,
                pend@,
                if barrier.kind is Barrier {
                    FakeBarrierKind::Barrier
                } else {
                    FakeBarrierKind::Checkpoint
                },
            ),
        ],
        CreatingStreamingJobStatus::ConsumingLogStore { barriers_to_inject: batch, .. } => batch_views(
            batch,
        ).push(barrier),
        CreatingStreamingJobStatus::Finishing(_) => Seq::empty(),
    }
}

/// The barriers that `on_new_command` injects into the job's graph: the upstream
/// barrier itself when the command merges the job, else what its stage calls for.
pub open spec fn planned_barriers(
    command: Option<&Command>,
    job_id: TableId,
    status: CreatingStreamingJobStatus,
    barrier: crate::epoch::BarrierInfoView,
) -> Seq<crate::epoch::BarrierInfoView> {
    if merges_job(command, job_id) {
        seq![barrier]
    } else {
        barriers_for_upstream_epoch(status, barrier)
    }
}

/// The previous epochs of the barriers, in order.
pub open spec fn prevs_of(s: Seq<crate::epoch::BarrierInfoView>) -> Seq<u64> {
    s.map_values(|b: crate::epoch::BarrierInfoView| b.prev_epoch)
}

/// The bound below which `start_completing` hands out epochs: while finishing at
/// `finish`, an upstream epoch in flight bounds it only where it comes before `finish`.
pub open spec fn completion_bound(status: CreatingStreamingJobStatus, min_upstream_inflight_epoch: Option<u64>) -> Option<u64> {
    match status {
        CreatingStreamingJobStatus::Finishing(finish) => match min_upstream_inflight_epoch {
            Some(u) => if u < finish { Some(u) } else { None },
            None => None,
        },
        _ => min_upstream_inflight_epoch,
    }
}

impl CreatingStreamingJobControl {
    pub fn is_empty(&self) -> (r: bool)
        ensures
            r == (self.barrier_control.queue@.len() == 0),
    {
        self.barrier_control.is_empty()
    }

    /// Tells whether the job's epochs in flight survive the failure of `worker_id`.
    pub fn is_valid_after_worker_err(&mut self, worker_id: WorkerId) -> (r: bool)
        requires
            old(self).wf(),
        ensures
            final(self).wf(),
            r == old(self).barrier_control.survives_worker_err(worker_id),
            final(self).status == old(self).status,
            final(self).job_id == old(self).job_id,
            final(self).graph_info == old(self).graph_info,
            final(self).barrier_control.queue@.len() == old(self).barrier_control.queue@.len(),
            r ==> forall|i: int|
                0 <= i < old(self).barrier_control.queue@.len() ==> {
                    &&& (#[trigger] final(self).barrier_control.queue@[i]).epoch
                        == old(self).barrier_control.queue@[i].epoch
                    &&& final(self).barrier_control.queue@[i].node_to_collect@
                        == crate::node_to_collect::after_worker_err(
                        old(self).barrier_control.queue@[i].node_to_collect@,
                        worker_id,
                    )
                },
    {
        self.barrier_control.is_valid_after_worker_err(worker_id)
    }

    /// The upstream log epoch that must stay pinned for the job: none once finishing,
    /// else the later of the last collected epoch and the backfill epoch.
    pub fn pinned_upstream_log_epoch(&self) -> (r: Option<u64>)
        ensures
            r == if self.status is Finishing {
                None::<u64>
            } else {
                Some(
                    match self.barrier_control.max_collected_epoch {
                        Some(m) => if m > self.backfill_epoch { m } else { self.backfill_epoch },
                        None => self.backfill_epoch,
                    },
                )
            },
    {
        if self.status.is_finishing() {
            None
        } else {
            let collected = match self.barrier_control.max_collected_epoch() {
                Some(m) => m,
                None => 0,
            };
            Some(if collected > self.backfill_epoch { collected } else { self.backfill_epoch })
        }
    }

    /// Reacts to a new upstream barrier. A command that merges this job starts its
    /// finishing stage at the barrier's previous epoch and injects the barrier as the
    /// last one of the job's graph; otherwise the barriers that the bootstrap state
    /// calls for are injected.
    pub fn on_new_command(
        &mut self,
        control_stream_manager: &mut ControlStreamManager,
        command: Option<&Command>,
        barrier_info: &BarrierInfo,
    ) -> (r: Result<(), CreatingJobError>)
        requires
            old(self).wf(),
            old(control_stream_manager).wf(),
            old(self).status.can_fabricate(),
            !merges_job(command, old(self).job_id) ==> !(barrier_info.kind is Initial),
            merges_job(command, old(self).job_id) ==> old(self).status is ConsumingLogStore,
        ensures
            final(self).wf(),
            final(control_stream_manager).wf(),
            final(self).job_id == old(self).job_id,
            final(self).barrier_control.completing == old(self).barrier_control.completing,
            final(self).upstream_lag == saturating_sub(
                barrier_info.prev_epoch,
                match old(self).barrier_control.max_collected_epoch {
                    Some(m) => if m > old(self).backfill_epoch { m } else { old(self).backfill_epoch },
                    None => old(self).backfill_epoch,
                },
            ),
            r is Ok && merges_job(command, old(self).job_id) ==> final(self).status
                == CreatingStreamingJobStatus::Finishing(barrier_info.prev_epoch),
            r is Err && merges_job(command, old(self).job_id) ==> final(self).status == old(self).status,
            r is Ok && merges_job(command, old(self).job_id) ==> final(self).barrier_control.injected@
                == old(self).barrier_control.injected@.push(barrier_info.prev_epoch),
            r is Ok && !merges_job(command, old(self).job_id) ==> final(self).barrier_control.injected@
                == old(self).barrier_control.injected@ + prevs_of(
                barriers_for_upstream_epoch(old(self).status, barrier_info@),
            ),
            final(self).graph_info == old(self).graph_info,
            final(control_stream_manager).connected_nodes == old(control_stream_manager).connected_nodes,
            all_workers_connected(
                old(self).graph_info.fragment_infos@,
                old(control_stream_manager).connected_ids(),
            ) && crate::barrier_control::strictly_increasing(
                old(self).barrier_control.injected@ + prevs_of(
                    planned_barriers(command, old(self).job_id, old(self).status, barrier_info@),
                ),
            ) ==> r is Ok,
            r is Ok ==> final(control_stream_manager).outbox@.len() == old(
                control_stream_manager,
            ).outbox@.len() + planned_barriers(
                command,
                old(self).job_id,
                old(self).status,
                barrier_info@,
            ).len() * old(control_stream_manager).connected_nodes@.len(),
            r is Ok && merges_job(command, old(self).job_id) ==> job_barrier_sent(
                old(control_stream_manager).outbox@,
                final(control_stream_manager).outbox@,
                old(control_stream_manager).connected_ids(),
                old(self).database_id,
                old(self).job_id,
                barrier_info@,
                old(self).graph_info.fragment_infos@,
                Seq::empty(),
                Seq::empty(),
                None,
            ),
            old(self).status is Finishing && !merges_job(command, old(self).job_id) ==> {
                &&& r is Ok
                &&& final(self).barrier_control == old(self).barrier_control
                &&& final(control_stream_manager).outbox == old(control_stream_manager).outbox
            },
            !merges_job(command, old(self).job_id) ==> {
                &&& (old(self).status is ConsumingSnapshot ==> final(self).status is ConsumingSnapshot)
                &&& (old(self).status is ConsumingLogStore ==> (final(self).status matches
                    CreatingStreamingJobStatus::ConsumingLogStore { barriers_to_inject: b, .. }
                    && b is None))
                &&& (old(self).status is Finishing ==> final(self).status == old(self).status)
            },
    {
        let table_id = self.job_id;
        let start_consume_upstream = is_merge_of(command, table_id);
        let progress_epoch = match self.barrier_control.max_collected_epoch() {
            Some(m) => if m > self.backfill_epoch { m } else { self.backfill_epoch },
            None => self.backfill_epoch,
        };
        self.upstream_lag = if barrier_info.prev_epoch >= progress_epoch {
            barrier_info.prev_epoch - progress_epoch
        } else {
            0
        };
        if start_consume_upstream {
            proof {
                let inj = old(self).barrier_control.injected@;
                let ext = inj + prevs_of(seq![barrier_info@]);
                if inj.len() > 0 && crate::barrier_control::strictly_increasing(ext) {
                    assert(ext[inj.len() - 1] == inj.last());
                    assert(ext[inj.len() as int] == barrier_info.prev_epoch);
                }
            }
            let r = Self::inject_barrier(
                self.database_id,
                self.job_id,
                control_stream_manager,
                &mut self.barrier_control,
                &self.graph_info,
                None,
                barrier_info.duplicate(),
                None,
                None,
            );
            proof {
                let n = old(control_stream_manager).connected_nodes@.len();
                assert(1 * n == n) by (nonlinear_arith);
            }
            if r.is_ok() {
                self.status.start_consume_upstream(barrier_info);
            }
            r
        } else {
            let mut barriers = self.status.on_new_upstream_epoch(barrier_info);
            let ghost all = barrier_views(barriers@.map_values(|p: (BarrierInfo, Option<Mutation>)| p.0));
            proof {
                assert(all =~= barriers_for_upstream_epoch(old(self).status, barrier_info@));
                assert(all.skip(0) =~= all);
                assert(prevs_of(all.take(0)) =~= Seq::<u64>::empty());
                assert(self.barrier_control.injected@ =~= old(self).barrier_control.injected@ + prevs_of(all.take(0)));
            }
            let mut i: usize = 0;
            let n = barriers.len();
            let ghost cn = old(control_stream_manager).connected_nodes@.len();
            let ghost ok_cond = all_workers_connected(
                old(self).graph_info.fragment_infos@,
                old(control_stream_manager).connected_ids(),
            ) && crate::barrier_control::strictly_increasing(
                old(self).barrier_control.injected@ + prevs_of(all),
            );
            assert(0 * cn == 0) by (nonlinear_arith);
            while i < n
                invariant
                    all.len() == n,
                    cn == old(control_stream_manager).connected_nodes@.len(),
                    ok_cond == (all_workers_connected(
                        old(self).graph_info.fragment_infos@,
                        old(control_stream_manager).connected_ids(),
                    ) && crate::barrier_control::strictly_increasing(
                        old(self).barrier_control.injected@ + prevs_of(all),
                    )),
                    self.graph_info == old(self).graph_info,
                    self.database_id == old(self).database_id,
                    control_stream_manager.connected_nodes == old(control_stream_manager).connected_nodes,
                    control_stream_manager.outbox@.len() == old(control_stream_manager).outbox@.len() + i * cn,
                    i == 0 ==> self.barrier_control == old(self).barrier_control
                        && control_stream_manager.outbox == old(control_stream_manager).outbox,
                    barrier_views(barriers@.map_values(|p: (BarrierInfo, Option<Mutation>)| p.0)) == all.skip(i as int),
                    self.barrier_control.injected@ == old(self).barrier_control.injected@ + prevs_of(all.take(i as int)),
                    all == barriers_for_upstream_epoch(old(self).status, barrier_info@),
                    self.wf(),
                    control_stream_manager.wf(),
                    self.job_id == old(self).job_id,
                    self.barrier_control.completing == old(self).barrier_control.completing,
                    i <= n,
                    barriers@.len() == n - i,
                    !merges_job(command, old(self).job_id),
                    old(self).status is ConsumingSnapshot ==> self.status is ConsumingSnapshot,
                    old(self).status is ConsumingLogStore ==> (self.status matches
                        CreatingStreamingJobStatus::ConsumingLogStore { barriers_to_inject: b, .. }
                        && b is None),
                    old(self).status is Finishing ==> self.status == old(self).status,
                    self.upstream_lag == saturating_sub(
                        barrier_info.prev_epoch,
                        match old(self).barrier_control.max_collected_epoch {
                            Some(m) => if m > old(self).backfill_epoch { m } else { old(self).backfill_epoch },
                            None => old(self).backfill_epoch,
                        },
                    ),
                decreases n - i,
            {
                let ghost before = barriers@;
                let (barrier_to_inject, mutation) = barriers.remove(0);
                proof {
                    let v0 = barrier_views(before.map_values(|p: (BarrierInfo, Option<Mutation>)| p.0));
                    assert(v0[0] == all[i as int]);
                    assert(barriers@ =~= before.drop_first());
                    let v1 = barrier_views(barriers@.map_values(|p: (BarrierInfo, Option<Mutation>)| p.0));
                    assert(v1.len() == all.skip(i + 1).len());
                    assert forall|k: int| 0 <= k < v1.len() implies v1[k] == all.skip(i + 1)[k] by {
                        assert(v1[k] == barriers@[k].0@);
                        assert(barriers@[k] == before[k + 1]);
                        assert(v0[k + 1] == before[k + 1].0@);
                        assert(v0[k + 1] == all.skip(i as int)[k + 1]);
                    }
                    assert(v1 =~= all.skip(i + 1));
                    assert(barrier_to_inject@ == all[i as int]);
                    assert(all.take(i + 1) =~= all.take(i as int).push(all[i as int]));
                    assert(prevs_of(all.take(i + 1)) =~= prevs_of(all.take(i as int)).push(all[i as int].prev_epoch));
                }
                let ghost prev = barrier_to_inject.prev_epoch;
                proof {
                    let inj = self.barrier_control.injected@;
                    let ext = old(self).barrier_control.injected@ + prevs_of(all);
                    let ol = old(self).barrier_control.injected@.len();
                    if ok_cond {
                        assert(prevs_of(all)[i as int] == prev);
                        assert(ext[ol + i] == prev);
                        if inj.len() > 0 {
                            assert(inj.len() == ol + i);
                            assert(inj.last() == ext[ol + i - 1]);
                        }
                        assert(self.barrier_control.can_enqueue(prev));
                    }
                }
                match Self::inject_barrier(
                    self.database_id,
                    self.job_id,
                    control_stream_manager,
                    &mut self.barrier_control,
                    &self.graph_info,
                    Some(&self.graph_info),
                    barrier_to_inject,
                    None,
                    mutation,
                ) {
                    Ok(()) => {},
                    Err(e) => {
                        return Err(e);
                    },
                }
                proof {
                    assert(self.barrier_control.injected@ =~= old(self).barrier_control.injected@ + prevs_of(
                        all.take(i + 1),
                    ));
                    assert(i * cn + cn == (i + 1) * cn) by (nonlinear_arith);
                }
                i = i + 1;
            }
            assert(all.take(n as int) =~= all);
            Ok(())
        }
    }

    /// The job is ready to merge into the steady-state graph: its log-store tracker
    /// reports finished and no barrier batch is pending.
    pub fn should_merge_to_upstream(&self) -> (r: Option<&InflightStreamingJobInfo>)
        ensures
            r is Some <==> self.status.log_store_drained(),
            r matches Some(g) ==> g == &self.graph_info,
    {
        match &self.status {
            CreatingStreamingJobStatus::ConsumingLogStore {
                log_store_progress_tracker,
                barriers_to_inject,
            } => {
                if barriers_to_inject.is_none() && log_store_progress_tracker.is_finished() {
                    Some(&self.graph_info)
                } else {
                    None
                }
            },
            _ => None,
        }
    }

    /// Records an acknowledgement with its backfill progress; tells whether the job is
    /// now ready to merge.
    pub fn collect(&mut self, resp: BarrierCompleteResponse) -> (r: bool)
        requires
            old(self).wf(),
        ensures
            final(self).wf(),
            r == final(self).status.log_store_drained(),
            final(self).job_id == old(self).job_id,
            final(self).barrier_control.completing == old(self).barrier_control.completing,
            final(self).barrier_control.injected == old(self).barrier_control.injected,
            old(self).status is Finishing ==> final(self).status == old(self).status,
            old(self).status is ConsumingSnapshot ==> !r,
            crate::barrier_control::collected(old(self).barrier_control, final(self).barrier_control, resp),
            crate::status::progress_applied(old(self).status, final(self).status, resp.create_mview_progress@),
            final(self).graph_info == old(self).graph_info,
            final(self).database_id == old(self).database_id,
            final(self).backfill_epoch == old(self).backfill_epoch,
            final(self).upstream_lag == old(self).upstream_lag,
    {
        self.status.update_progress(&resp.create_mview_progress);
        self.barrier_control.collect(resp);
        self.should_merge_to_upstream().is_some()
    }

    /// Hands out the job's next epoch for commit, if one is ready below the bound that
    /// the upstream's epochs in flight set. The last epoch of a finishing job is
    /// acknowledged at once and ends the job.
    pub fn start_completing(&mut self, min_upstream_inflight_epoch: Option<u64>) -> (r: Option<
        (u64, Vec<BarrierCompleteResponse>, CompleteJobType),
    >)
        requires
            old(self).wf(),
            old(self).barrier_control.completing is None,
        ensures
            final(self).wf(),
            final(self).status == old(self).status,
            final(self).job_id == old(self).job_id,
            r is Some <==> old(self).barrier_control.ready_to_complete(
                completion_bound(old(self).status, min_upstream_inflight_epoch),
            ),
            r matches Some((epoch, resps, kind)) ==> {
                &&& epoch == old(self).barrier_control.queue@[0].epoch
                &&& resps@ == old(self).barrier_control.queue@[0].resps@
                &&& kind == CompleteJobType::Finished ==> final(self).barrier_control.queue@.len() == 0
                    && old(self).barrier_control.queue@.len() == 1
                &&& old(self).barrier_control.queue@[0].is_collected()
                &&& (kind == CompleteJobType::Finished <==> old(self).status == CreatingStreamingJobStatus::Finishing(epoch))
                &&& (kind == CompleteJobType::First <==> (!(old(self).status is Finishing)
                    && !old(self).barrier_control.is_first_committed))
                &&& kind == CompleteJobType::Finished ==> {
                    &&& final(self).barrier_control.completing is None
                    &&& final(self).barrier_control.committed@ == old(self).barrier_control.committed@.push(epoch)
                }
                &&& kind != CompleteJobType::Finished ==> final(self).barrier_control.completing == Some(epoch)
            },
            r is None ==> *final(self) == *old(self),
    {
        let (finished_at_epoch, bound) = match &self.status {
            CreatingStreamingJobStatus::Finishing(finish_at_epoch) => {
                let bound = match min_upstream_inflight_epoch {
                    Some(u) => if u < *finish_at_epoch { Some(u) } else { None },
                    None => None,
                };
                (Some(*finish_at_epoch), bound)
            },
            _ => (None, min_upstream_inflight_epoch),
        };
        match self.barrier_control.start_completing(bound) {
            Some((epoch, resps, is_first_commit)) => {
                let kind = match finished_at_epoch {
                    Some(finish_at_epoch) => {
                        if epoch == finish_at_epoch {
                            proof {
                                let bc = old(self).barrier_control;
                                let inj = bc.injected@;
                                let cl = bc.committed@.len() as int;
                                assert(crate::barrier_control::epochs_of(bc.queue@)[0] == epoch);
                                assert(inj[cl] == epoch);
                                if bc.queue@.len() > 1 {
                                    assert(inj[cl + 1] == crate::barrier_control::epochs_of(bc.queue@)[1]);
                                    assert(inj[cl + 1] > inj[cl]);
                                    assert(inj.last() == inj[inj.len() - 1]);
                                    assert(inj[inj.len() - 1] >= inj[cl + 1]);
                                }
                            }
                            self.barrier_control.ack_completed(epoch);
                            CompleteJobType::Finished
                        } else {
                            CompleteJobType::Normal
                        }
                    },
                    None => {
                        if is_first_commit {
                            CompleteJobType::First
                        } else {
                            CompleteJobType::Normal
                        }
                    },
                };
                Some((epoch, resps, kind))
            },
            None => None,
        }
    }

    /// The epoch handed out for commit is durable.
    pub fn ack_completed(&mut self, completed_epoch: u64)
        requires
            old(self).wf(),
            old(self).barrier_control.completing == Some(completed_epoch),
        ensures
            final(self).wf(),
            final(self).status == old(self).status,
            final(self).barrier_control.queue@ == old(self).barrier_control.queue@.drop_first(),
            final(self).barrier_control.committed@ == old(self).barrier_control.committed@.push(
                completed_epoch,
            ),
            final(self).barrier_control.completing is None,
    {
        self.barrier_control.ack_completed(completed_epoch);
    }

    /// The job has drained every epoch of its finishing stage.
    pub fn is_finished(&self) -> (r: bool)
        ensures
            r == (self.barrier_control.queue@.len() == 0 && self.status is Finishing),
    {
        self.barrier_control.is_empty() && self.status.is_finishing()
    }

    /// The job still consumes its snapshot or the upstream's log.
    pub fn is_consuming(&self) -> (r: bool)
        ensures
            r == !(self.status is Finishing),
    {
        !self.status.is_finishing()
    }

    /// The state tables of the job.
    pub fn state_table_ids(&self) -> (r: Vec<TableId>)
        ensures
            r@ == crate::graph_info::graph_table_ids(self.graph_info.fragment_infos@),
    {
        existing_table_ids(&self.graph_info.fragment_infos)
    }

    pub fn graph_info(&self) -> (r: &InflightStreamingJobInfo)
        ensures
            r == &self.graph_info,
    {
        &self.graph_info
    }
}

/// The progress of a creating job as reported to users.
pub struct DdlProgress {
    pub id: u64,
    pub statement: String,
    pub create_type: String,
    pub progress: String,
}

/// The name of a create type.
pub open spec fn create_type_name(t: CreateType) -> Seq<char> {
    match t {
        CreateType::Foreground => "FOREGROUND"@,
        CreateType::Background => "BACKGROUND"@,
    }
}

/// The progress text of a job in `status` with `inflight` epochs in its ledger.
pub open spec fn progress_text(status: CreatingStreamingJobStatus, inflight: nat) -> Seq<char> {
    match status {
        CreatingStreamingJobStatus::ConsumingSnapshot { snapshot_tracker, .. } => if snapshot_tracker.finished() {
            "Snapshot finished"@
        } else {
            "Snapshot ["@ + decimal(snapshot_tracker.ongoing_actors@.len()) + " actors backfilling]"@
        },
        CreatingStreamingJobStatus::ConsumingLogStore { log_store_progress_tracker, .. } => "LogStore ["@
            + decimal(log_store_progress_tracker.ongoing_actors@.len()) + " actors remaining]"@,
        CreatingStreamingJobStatus::Finishing(_) => "Finishing [epoch count: "@ + decimal(inflight) + "]"@,
    }
}

impl CreatingStreamingJobControl {
    /// The job's progress: its stage, and how much of it is left.
    pub fn gen_ddl_progress(&self) -> (r: DdlProgress)
        ensures
            r.id == self.job_id as u64,
            r.statement@ == self.definition@,
            r.create_type@ == create_type_name(self.create_type),
            r.progress@ == progress_text(self.status, self.barrier_control.queue@.len()),
    {
        let progress = match &self.status {
            CreatingStreamingJobStatus::ConsumingSnapshot { snapshot_tracker, .. } => {
                if snapshot_tracker.is_finished() {
                    String::from_str("Snapshot finished")
                } else {
                    let mut p = String::from_str("Snapshot [");
                    let n = decimal_string(snapshot_tracker.ongoing_count() as u64);
                    p.append(n.as_str());
                    p.append(" actors backfilling]");
                    p
                }
            },
            CreatingStreamingJobStatus::ConsumingLogStore { log_store_progress_tracker, .. } => {
                let mut p = String::from_str("LogStore [");
                let n = decimal_string(log_store_progress_tracker.ongoing_count() as u64);
                p.append(n.as_str());
                p.append(" actors remaining]");
                p
            },
            CreatingStreamingJobStatus::Finishing(_) => {
                let mut p = String::from_str("Finishing [epoch count: ");
                let n = decimal_string(self.barrier_control.inflight_barrier_count() as u64);
                p.append(n.as_str());
                p.append("]");
                p
            },
        };
        let create_type = match self.create_type {
            CreateType::Foreground => String::from_str("FOREGROUND"),
            CreateType::Background => String::from_str("BACKGROUND"),
        };
        DdlProgress { id: self.job_id as u64, statement: self.definition.clone(), create_type, progress }
    }
}

/// A job merges into the steady-state graph exactly when its log-store stage reports
/// finished with no batch pending; once finishing it never does again, so a job
/// cannot be merged twice.
pub proof fn lemma_merge_at_most_once(job: &CreatingStreamingJobControl)
    ensures
        job.status.log_store_drained() <==> (job.status matches
            CreatingStreamingJobStatus::ConsumingLogStore {
            log_store_progress_tracker: t,
            barriers_to_inject: b,
        } && b is None && t.finished()),
        job.status is Finishing ==> !job.status.log_store_drained(),
{
}

pub fn copy_fragments(v: &Vec<InflightFragmentInfo>) -> (r: Vec<InflightFragmentInfo>)
    ensures
        r@.len() == v@.len(),
        forall|i: int|
            0 <= i < v@.len() ==> {
                &&& (#[trigger] r@[i]).fragment_id == v@[i].fragment_id
                &&& r@[i].actors@ == v@[i].actors@
                &&& r@[i].state_table_ids@ == v@[i].state_table_ids@
            },
{
    let mut r: Vec<InflightFragmentInfo> = Vec::new();
    let mut i: usize = 0;
    while i < v.len()
        invariant
            i <= v@.len(),
            r@.len() == i,
            forall|k: int|
                0 <= k < i ==> {
                    &&& (#[trigger] r@[k]).fragment_id == v@[k].fragment_id
                    &&& r@[k].actors@ == v@[k].actors@
                    &&& r@[k].state_table_ids@ == v@[k].state_table_ids@
                },
        decreases v@.len() - i,
    {
        let f = &v[i];
        let mut actors: Vec<crate::graph_info::InflightActorInfo> = Vec::new();
        let mut j: usize = 0;
        while j < f.actors.len()
            invariant
                j <= f.actors@.len(),
                actors@ == f.actors@.subrange(0, j as int),
            decreases f.actors@.len() - j,
        {
            let a = &f.actors[j];
            actors.push(crate::graph_info::InflightActorInfo { actor_id: a.actor_id, worker_id: a.worker_id });
            j = j + 1;
            assert(actors@ =~= f.actors@.subrange(0, j as int));
        }
        assert(actors@ =~= f.actors@);
        r.push(
            InflightFragmentInfo {
                fragment_id: f.fragment_id,
                actors,
                state_table_ids: crate::epoch::copy_ids(&f.state_table_ids),
            },
        );
        i = i + 1;
    }
    r
}

} // verus!
