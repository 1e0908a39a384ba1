use checkpoint_coordinator::command::Command;
use checkpoint_coordinator::control_stream::ControlStreamManager;
use checkpoint_coordinator::creating_job::{
    CompleteJobType, CreateStreamingJobCommandInfo, CreateType, CreatingJobError,
    CreatingStreamingJobControl,
};
use checkpoint_coordinator::epoch::{BarrierInfo, BarrierKind};
use checkpoint_coordinator::graph_info::{InflightActorInfo, InflightFragmentInfo, InflightStreamingJobInfo};
use checkpoint_coordinator::protocol::{
    ActorToBuild, AddMutation, BarrierCompleteResponse, CreateMviewProgress, Mutation,
};
use checkpoint_coordinator::status::{new_fake_barrier, CreatingStreamingJobStatus, FakeBarrierKind};
use checkpoint_coordinator::upstream_log::{resolve_upstream_log_epochs, LogEpochs, LogResolveError};

fn entry(non_checkpoint: &[u64], checkpoint: u64) -> LogEpochs {
    LogEpochs { non_checkpoint_epochs: non_checkpoint.to_vec(), checkpoint_epoch: checkpoint }
}

fn kind_epochs(kind: &BarrierKind) -> Option<Vec<u64>> {
    match kind {
        BarrierKind::Checkpoint(v) => Some(v.clone()),
        _ => None,
    }
}

fn job_graph(job_id: u32) -> InflightStreamingJobInfo {
    InflightStreamingJobInfo {
        job_id,
        fragment_infos: vec![InflightFragmentInfo {
            fragment_id: 1,
            actors: vec![InflightActorInfo { actor_id: 11, worker_id: 1 }],
            state_table_ids: vec![job_id],
        }],
    }
}

fn add_mutation() -> Mutation {
    Mutation::Add(AddMutation {
        added_actors: vec![11],
        pause: false,
        subscriptions_to_add: vec![],
        backfill_nodes_to_pause: vec![],
    })
}

fn progress(actor: u32, done: bool, lag: u64) -> CreateMviewProgress {
    CreateMviewProgress {
        backfill_actor_id: actor,
        done,
        consumed_epoch: 0,
        consumed_rows: 0,
        pending_epoch_lag: lag,
    }
}

fn ack(epoch: u64, progress: Vec<CreateMviewProgress>) -> BarrierCompleteResponse {
    BarrierCompleteResponse {
        worker_id: 1,
        database_id: 1,
        partial_graph_id: 5,
        epoch,
        create_mview_progress: progress,
    }
}

#[test]
fn fake_barriers_tick_one_unit_of_physical_time() {
    let mut t: u64 = 3;
    let mut pending: Vec<u64> = vec![];
    let b = new_fake_barrier(&mut t, &mut pending, FakeBarrierKind::Barrier);
    assert_eq!((b.prev_epoch, b.curr_epoch), (3 << 16, 4 << 16));
    assert!(matches!(b.kind, BarrierKind::Barrier));
    assert_eq!(pending, vec![3 << 16]);
    let c = new_fake_barrier(&mut t, &mut pending, FakeBarrierKind::Checkpoint);
    assert_eq!(kind_epochs(&c.kind), Some(vec![3 << 16, 4 << 16]));
    assert!(pending.is_empty());
    assert_eq!(t, 5);
    let i = new_fake_barrier(&mut t, &mut pending, FakeBarrierKind::Initial);
    assert!(matches!(i.kind, BarrierKind::Initial));
    assert!(pending.is_empty());
}

#[test]
fn upstream_log_replays_from_committed_epoch() {
    let log = vec![entry(&[], 10), entry(&[11, 12], 13)];
    let barriers = resolve_upstream_log_epochs(&log, 10, 20).unwrap();
    let pairs: Vec<(u64, u64)> = barriers.iter().map(|b| (b.prev_epoch, b.curr_epoch)).collect();
    assert_eq!(pairs, vec![(10, 11), (11, 12), (12, 13), (13, 20)]);
    assert_eq!(kind_epochs(&barriers[0].kind), Some(vec![10]));
    assert!(matches!(barriers[1].kind, BarrierKind::Barrier));
    assert!(matches!(barriers[2].kind, BarrierKind::Barrier));
    assert_eq!(kind_epochs(&barriers[3].kind), Some(vec![11, 12]));
}

#[test]
fn upstream_log_skips_entries_before_committed_epoch() {
    let log = vec![entry(&[1], 2), entry(&[], 10), entry(&[], 14)];
    let barriers = resolve_upstream_log_epochs(&log, 10, 15).unwrap();
    let pairs: Vec<(u64, u64)> = barriers.iter().map(|b| (b.prev_epoch, b.curr_epoch)).collect();
    assert_eq!(pairs, vec![(10, 14), (14, 15)]);
    assert_eq!(kind_epochs(&barriers[1].kind), Some(vec![]));
}

#[test]
fn upstream_log_errors() {
    let log = vec![entry(&[], 10), entry(&[11], 12)];
    assert_eq!(resolve_upstream_log_epochs(&log, 13, 20).err(), Some(LogResolveError::CommittedEpochNotReached));
    assert_eq!(resolve_upstream_log_epochs(&log, 11, 20).err(), Some(LogResolveError::CommittedEpochNotCheckpoint));
    let bad = vec![entry(&[], 10), entry(&[9], 12)];
    assert_eq!(resolve_upstream_log_epochs(&bad, 10, 20).err(), Some(LogResolveError::EpochNotIncreasing));
}

fn connected_manager() -> ControlStreamManager {
    let mut csm = ControlStreamManager::new();
    csm.add_connected(1);
    csm
}

fn recover(committed: u64, backfill: u64, csm: &mut ControlStreamManager) -> Result<CreatingStreamingJobControl, CreatingJobError> {
    let logs = vec![(3u32, vec![entry(&[], 100), entry(&[], 200), entry(&[250], 300)])];
    CreatingStreamingJobControl::recover(
        1,
        5,
        "create mv".to_string(),
        vec![3],
        &logs,
        backfill,
        committed,
        400,
        job_graph(5),
        &vec![11],
        vec![ActorToBuild { worker_id: 1, fragment_id: 1, actor_id: 11 }],
        add_mutation(),
        csm,
    )
}

#[test]
fn recovery_below_backfill_epoch_resumes_snapshot() {
    let mut csm = connected_manager();
    let job = recover(199, 200, &mut csm).unwrap();
    match &job.status {
        CreatingStreamingJobStatus::ConsumingSnapshot {
            prev_epoch_fake_physical_time,
            pending_upstream_barriers,
            ..
        } => {
            assert_eq!(*prev_epoch_fake_physical_time, 199 / 65536 + 1);
            let pairs: Vec<(u64, u64)> =
                pending_upstream_barriers.iter().map(|b| (b.prev_epoch, b.curr_epoch)).collect();
            assert_eq!(pairs, vec![(200, 250), (250, 300), (300, 400)]);
        }
        _ => panic!("expected the snapshot stage"),
    }
    assert!(job.barrier_control.is_first_committed);
    assert_eq!(job.create_type, CreateType::Background);
}

#[test]
fn recovery_at_backfill_epoch_resumes_log_store() {
    let mut csm = connected_manager();
    let job = recover(200, 200, &mut csm).unwrap();
    match &job.status {
        CreatingStreamingJobStatus::ConsumingLogStore { barriers_to_inject: Some(batch), .. } => {
            let pairs: Vec<(u64, u64)> = batch.iter().map(|b| (b.prev_epoch, b.curr_epoch)).collect();
            assert_eq!(pairs, vec![(250, 300), (300, 400)]);
        }
        _ => panic!("expected the log-store stage"),
    }
    assert_eq!(job.barrier_control.last_enqueued_epoch, Some(200));
    let later = recover(300, 200, &mut csm).unwrap();
    assert!(matches!(later.status, CreatingStreamingJobStatus::ConsumingLogStore { .. }));
}

#[test]
fn recovery_fails_without_upstream_log() {
    let mut csm = connected_manager();
    let r = CreatingStreamingJobControl::recover(
        1, 5, String::new(), vec![4], &vec![], 200, 100, 400, job_graph(5), &vec![11], vec![],
        add_mutation(), &mut csm,
    );
    assert_eq!(r.err(), Some(CreatingJobError::UpstreamLogMissing(4)));
}

fn new_job(csm: &mut ControlStreamManager) -> CreatingStreamingJobControl {
    let info = CreateStreamingJobCommandInfo {
        job_id: 5,
        database_id: 1,
        definition: "create mv m".to_string(),
        create_type: CreateType::Foreground,
        fragment_infos: job_graph(5).fragment_infos,
        added_actors: vec![11],
        snapshot_backfill_actors: vec![11],
        actors_to_create: vec![ActorToBuild { worker_id: 1, fragment_id: 1, actor_id: 11 }],
        backfill_nodes_to_pause: vec![],
    };
    CreatingStreamingJobControl::new(info, vec![3], 1_000_000, csm).unwrap()
}

#[test]
fn bootstrap_runs_snapshot_log_store_then_merges_once() {
    let mut csm = connected_manager();
    let mut job = new_job(&mut csm);
    assert!(job.is_consuming());
    assert_eq!(job.barrier_control.last_enqueued_epoch, Some(0));
    assert!(matches!(job.barrier_control.queue[0].kind, BarrierKind::Initial));
    assert_eq!(job.barrier_control.queue[0].node_to_collect.get(&1), Some(&false));
    assert_eq!(csm.outbox.len(), 2);
    assert_eq!(job.gen_ddl_progress().progress, "Snapshot [1 actors backfilling]");

    let upstream = BarrierInfo { prev_epoch: 1_000_000, curr_epoch: 2_000_000, kind: BarrierKind::Barrier };
    job.on_new_command(&mut csm, None, &upstream).unwrap();
    assert_eq!(job.barrier_control.last_enqueued_epoch, Some(1 << 16));
    assert!(!job.collect(ack(0, vec![progress(11, true, 0)])));
    assert!(matches!(job.status, CreatingStreamingJobStatus::ConsumingLogStore { .. }));
    assert_eq!(job.gen_ddl_progress().progress, "LogStore [1 actors remaining]");

    let next = BarrierInfo { prev_epoch: 2_000_000, curr_epoch: 3_000_000, kind: BarrierKind::Checkpoint(vec![]) };
    job.on_new_command(&mut csm, None, &next).unwrap();
    assert_eq!(job.barrier_control.last_enqueued_epoch, Some(2_000_000));
    assert!(job.should_merge_to_upstream().is_none());
    assert!(job.collect(ack(1 << 16, vec![progress(11, true, 0)])));
    assert!(job.should_merge_to_upstream().is_some());

    let merge = Command::MergeSnapshotBackfillStreamingJobs(vec![5]);
    let last = BarrierInfo { prev_epoch: 3_000_000, curr_epoch: 4_000_000, kind: BarrierKind::Barrier };
    job.on_new_command(&mut csm, Some(&merge), &last).unwrap();
    assert!(matches!(job.status, CreatingStreamingJobStatus::Finishing(3_000_000)));
    assert!(job.should_merge_to_upstream().is_none());
    assert!(!job.is_consuming());
    assert_eq!(job.pinned_upstream_log_epoch(), None);
}

#[test]
fn finishing_job_ends_at_its_finish_epoch() {
    let mut csm = connected_manager();
    let mut job = new_job(&mut csm);
    assert!(job.start_completing(None).is_none());
    job.collect(ack(0, vec![]));
    let (epoch, _, kind) = job.start_completing(None).unwrap();
    assert_eq!((epoch, kind), (0, CompleteJobType::First));
    job.ack_completed(0);
    assert_eq!(job.pinned_upstream_log_epoch(), Some(1_000_000));
    job.status = CreatingStreamingJobStatus::Finishing(2_000_000);
    job.barrier_control.enqueue_epoch(2_000_000, Default::default(), BarrierKind::Barrier);
    assert_eq!(job.gen_ddl_progress().progress, "Finishing [epoch count: 1]");
    assert!(job.start_completing(Some(500)).is_none());
    let (epoch, _, kind) = job.start_completing(Some(3_000_000)).unwrap();
    assert_eq!((epoch, kind), (2_000_000, CompleteJobType::Finished));
    assert!(job.is_finished());
}

#[test]
fn snapshot_progress_moves_to_log_store_with_exit_batch() {
    let mut csm = connected_manager();
    let mut job = new_job(&mut csm);
    let upstream = BarrierInfo { prev_epoch: 1_000_000, curr_epoch: 2_000_000, kind: BarrierKind::Barrier };
    job.on_new_command(&mut csm, None, &upstream).unwrap();
    job.collect(ack(0, vec![progress(11, false, 4)]));
    assert!(matches!(job.status, CreatingStreamingJobStatus::ConsumingSnapshot { .. }));
    job.collect(ack(0, vec![progress(11, true, 0)]));
    match &job.status {
        CreatingStreamingJobStatus::ConsumingLogStore { barriers_to_inject: Some(batch), log_store_progress_tracker } => {
            assert_eq!(batch.len(), 2);
            assert_eq!((batch[0].prev_epoch, batch[0].curr_epoch), (2 << 16, 1_000_000));
            assert_eq!(kind_epochs(&batch[0].kind), Some(vec![1 << 16, 1_000_000]));
            assert_eq!((batch[1].prev_epoch, batch[1].curr_epoch), (1_000_000, 2_000_000));
            assert_eq!(log_store_progress_tracker.ongoing_actors, vec![(11, 0)]);
        }
        _ => panic!("expected the log-store stage"),
    }
}

#[test]
fn later_replay_is_the_tail_of_an_earlier_one() {
    let log = vec![entry(&[], 100), entry(&[150], 200), entry(&[250, 260], 300)];
    let pairs = |committed: u64| -> Vec<(u64, u64)> {
        resolve_upstream_log_epochs(&log, committed, 400)
            .unwrap()
            .iter()
            .map(|b| (b.prev_epoch, b.curr_epoch))
            .collect()
    };
    let from_earlier = pairs(100);
    let from_later = pairs(200);
    assert_eq!(from_earlier, vec![(100, 150), (150, 200), (200, 250), (250, 260), (260, 300), (300, 400)]);
    assert_eq!(from_later, from_earlier[2..].to_vec());
}

#[test]
fn new_job_fails_when_a_worker_is_not_connected() {
    let mut csm = ControlStreamManager::new();
    csm.add_connected(2);
    let info = CreateStreamingJobCommandInfo {
        job_id: 5,
        database_id: 1,
        definition: String::new(),
        create_type: CreateType::Foreground,
        fragment_infos: job_graph(5).fragment_infos,
        added_actors: vec![11],
        snapshot_backfill_actors: vec![11],
        actors_to_create: vec![],
        backfill_nodes_to_pause: vec![],
    };
    let r = CreatingStreamingJobControl::new(info, vec![3], 1_000_000, &mut csm);
    assert!(matches!(r, Err(CreatingJobError::ControlStream(_))));
    assert_eq!(csm.outbox.len(), 1);
}

#[test]
fn finishing_job_ignores_upstream_barriers() {
    let mut csm = connected_manager();
    let mut job = new_job(&mut csm);
    job.status = CreatingStreamingJobStatus::Finishing(0);
    let sent = csm.outbox.len();
    let upstream = BarrierInfo { prev_epoch: 1_000_000, curr_epoch: 2_000_000, kind: BarrierKind::Barrier };
    assert!(job.on_new_command(&mut csm, None, &upstream).is_ok());
    assert_eq!(csm.outbox.len(), sent);
    assert_eq!(job.barrier_control.inflight_barrier_count(), 1);
}
