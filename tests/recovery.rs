use checkpoint_coordinator::control_stream::ControlStreamManager;
use checkpoint_coordinator::creating_job::CreatingJobError;
use checkpoint_coordinator::graph_info::{InflightActorInfo, InflightFragmentInfo, InflightStreamingJobInfo};
use checkpoint_coordinator::protocol::BarrierCompleteResponse;
use checkpoint_coordinator::recovery::{
    next_epoch, resolve_jobs_committed_epoch, BackgroundJob, RecoveryError, UpstreamSnapshotEpoch,
};
use checkpoint_coordinator::status::CreatingStreamingJobStatus;
use checkpoint_coordinator::upstream_log::LogEpochs;

fn job(job_id: u32, actor: u32, worker: u32) -> InflightStreamingJobInfo {
    InflightStreamingJobInfo {
        job_id,
        fragment_infos: vec![InflightFragmentInfo {
            fragment_id: job_id * 10,
            actors: vec![InflightActorInfo { actor_id: actor, worker_id: worker }],
            state_table_ids: vec![job_id],
        }],
    }
}

fn manager() -> ControlStreamManager {
    let mut csm = ControlStreamManager::new();
    csm.add_connected(1);
    csm.add_connected(2);
    csm
}

const E: u64 = 65536;

#[test]
fn next_epoch_needs_the_clock_past_the_previous_epoch() {
    assert_eq!(next_epoch(10 * E, 10), None);
    assert_eq!(next_epoch(10 * E + 5, 11), Some(11 * E));
    assert_eq!(next_epoch(0, 1), Some(E));
}

#[test]
fn committed_epoch_must_agree_across_tables() {
    let epochs = vec![(1, 100), (2, 100), (3, 200)];
    assert_eq!(resolve_jobs_committed_epoch(&epochs, &vec![1, 2]), Ok(100));
    assert_eq!(
        resolve_jobs_committed_epoch(&epochs, &vec![1, 3]),
        Err(RecoveryError::CommittedEpochMismatch { first: 1, other: 3 })
    );
    assert_eq!(resolve_jobs_committed_epoch(&epochs, &vec![4]), Err(RecoveryError::MissingCommittedEpoch(4)));
    assert_eq!(resolve_jobs_committed_epoch(&epochs, &vec![]), Err(RecoveryError::NoStateTable));
}

#[test]
fn initial_barrier_restarts_the_database_graph() {
    let mut csm = manager();
    let collector = csm
        .inject_database_initial_barrier(
            1,
            vec![job(3, 30, 1)],
            &vec![(3, 10 * E)],
            &vec![],
            &vec![],
            vec![],
            true,
            20,
        )
        .unwrap();
    assert_eq!(collector.committed_epoch, 10 * E);
    assert_eq!(collector.new_epoch, 20 * E);
    assert!(collector.is_paused);
    assert_eq!(collector.node_to_collect.get(&1), Some(&false));
    assert_eq!(collector.node_to_collect.get(&2), Some(&true));
    assert!(collector.creating_streaming_job_controls.is_empty());
    assert_eq!(csm.outbox.len(), 4);
}

#[test]
fn initial_barrier_is_collected_from_every_worker() {
    let mut csm = manager();
    let mut collector = csm
        .inject_database_initial_barrier(1, vec![job(3, 30, 1)], &vec![(3, 10 * E)], &vec![], &vec![], vec![], false, 20)
        .unwrap();
    let resp = |worker_id: u32, epoch: u64| BarrierCompleteResponse {
        worker_id,
        database_id: 1,
        partial_graph_id: u32::MAX,
        epoch,
        create_mview_progress: vec![],
    };
    assert!(!collector.is_collected());
    collector.collect_resp(resp(1, 10 * E));
    collector.collect_resp(resp(2, 99));
    assert!(!collector.is_collected());
    assert!(collector.is_valid_after_worker_err(2));
    assert!(collector.is_collected());
    let recovered = collector.finish();
    assert_eq!(recovered.committed_epoch, 10 * E);
    assert_eq!(recovered.database_jobs.len(), 1);
}

#[test]
fn worker_with_actors_fails_the_initial_barrier() {
    let mut csm = manager();
    let mut collector = csm
        .inject_database_initial_barrier(1, vec![job(3, 30, 1)], &vec![(3, 10 * E)], &vec![], &vec![], vec![], false, 20)
        .unwrap();
    assert!(!collector.is_valid_after_worker_err(1));
}

#[test]
fn snapshot_backfill_job_behind_upstream_is_recovered_as_creating() {
    let mut csm = manager();
    let background = BackgroundJob {
        job_id: 4,
        definition: "create mv m4".to_string(),
        snapshot_backfill: Some(vec![UpstreamSnapshotEpoch { upstream_table_id: 3, snapshot_epoch: Some(8 * E) }]),
        snapshot_backfill_actors: vec![40],
    };
    let logs = vec![(3, vec![LogEpochs { non_checkpoint_epochs: vec![], checkpoint_epoch: 8 * E },
        LogEpochs { non_checkpoint_epochs: vec![], checkpoint_epoch: 10 * E }])];
    let collector = csm
        .inject_database_initial_barrier(
            1,
            vec![job(3, 30, 1), job(4, 40, 2)],
            &vec![(3, 10 * E), (4, 5 * E)],
            &logs,
            &vec![background],
            vec![],
            false,
            20,
        )
        .unwrap();
    assert_eq!(collector.database_jobs.len(), 1);
    assert_eq!(collector.subscriptions.len(), 1);
    assert_eq!(collector.subscriptions[0].retention_epoch, 8 * E);
    assert_eq!(collector.creating_streaming_job_controls.len(), 1);
    let creating = &collector.creating_streaming_job_controls[0];
    assert_eq!(creating.job_id, 4);
    match &creating.status {
        CreatingStreamingJobStatus::ConsumingSnapshot { pending_upstream_barriers, .. } => {
            let pairs: Vec<(u64, u64)> =
                pending_upstream_barriers.iter().map(|b| (b.prev_epoch, b.curr_epoch)).collect();
            assert_eq!(pairs, vec![(8 * E, 10 * E), (10 * E, 20 * E)]);
        }
        _ => panic!("expected the snapshot stage"),
    }
}

#[test]
fn caught_up_snapshot_backfill_job_joins_the_database_graph() {
    let mut csm = manager();
    let background = BackgroundJob {
        job_id: 4,
        definition: String::new(),
        snapshot_backfill: Some(vec![UpstreamSnapshotEpoch { upstream_table_id: 3, snapshot_epoch: Some(8 * E) }]),
        snapshot_backfill_actors: vec![40],
    };
    let collector = csm
        .inject_database_initial_barrier(
            1,
            vec![job(3, 30, 1), job(4, 40, 2)],
            &vec![(3, 10 * E), (4, 10 * E)],
            &vec![],
            &vec![background],
            vec![],
            false,
            20,
        )
        .unwrap();
    assert_eq!(collector.database_jobs.len(), 2);
    assert!(collector.creating_streaming_job_controls.is_empty());
    assert_eq!(collector.node_to_collect.get(&2), Some(&false));
}

#[test]
fn recovery_errors() {
    let mut csm = manager();
    let r = csm.inject_database_initial_barrier(1, vec![job(3, 30, 1)], &vec![(3, 10 * E)], &vec![], &vec![], vec![], false, 10);
    assert_eq!(r.err(), Some(RecoveryError::ClockNotAdvanced));
    let r = csm.inject_database_initial_barrier(1, vec![job(3, 30, 7)], &vec![(3, 10 * E)], &vec![], &vec![], vec![], false, 20);
    assert!(matches!(r.err(), Some(RecoveryError::ControlStream(_))));
    let background = BackgroundJob {
        job_id: 4,
        definition: String::new(),
        snapshot_backfill: Some(vec![UpstreamSnapshotEpoch { upstream_table_id: 3, snapshot_epoch: None }]),
        snapshot_backfill_actors: vec![],
    };
    let r = csm.inject_database_initial_barrier(
        1, vec![job(3, 30, 1), job(4, 40, 2)], &vec![(3, 10 * E), (4, 5 * E)], &vec![], &vec![background], vec![], false, 20,
    );
    assert_eq!(r.err(), Some(RecoveryError::SnapshotEpochMissing { job_id: 4, upstream: 3 }));
    let background = BackgroundJob {
        job_id: 4,
        definition: String::new(),
        snapshot_backfill: Some(vec![UpstreamSnapshotEpoch { upstream_table_id: 3, snapshot_epoch: Some(8 * E) }]),
        snapshot_backfill_actors: vec![],
    };
    let r = csm.inject_database_initial_barrier(
        1, vec![job(3, 30, 1), job(4, 40, 2)], &vec![(3, 10 * E), (4, 5 * E)], &vec![], &vec![background], vec![], false, 20,
    );
    assert_eq!(r.err(), Some(RecoveryError::CreatingJob(CreatingJobError::UpstreamLogMissing(3))));
}

#[test]
fn disagreeing_snapshot_epochs_fail_recovery() {
    let mut csm = manager();
    let background = BackgroundJob {
        job_id: 4,
        definition: String::new(),
        snapshot_backfill: Some(vec![
            UpstreamSnapshotEpoch { upstream_table_id: 3, snapshot_epoch: Some(8 * E) },
            UpstreamSnapshotEpoch { upstream_table_id: 5, snapshot_epoch: Some(9 * E) },
        ]),
        snapshot_backfill_actors: vec![],
    };
    let r = csm.inject_database_initial_barrier(
        1, vec![job(3, 30, 1), job(4, 40, 2)], &vec![(3, 10 * E), (4, 5 * E)], &vec![], &vec![background], vec![], false, 20,
    );
    assert_eq!(r.err(), Some(RecoveryError::SnapshotEpochMismatch { job_id: 4 }));
}

#[test]
fn collector_routes_creating_job_acknowledgements() {
    let mut csm = manager();
    let background = BackgroundJob {
        job_id: 4,
        definition: String::new(),
        snapshot_backfill: Some(vec![UpstreamSnapshotEpoch { upstream_table_id: 3, snapshot_epoch: Some(8 * E) }]),
        snapshot_backfill_actors: vec![40],
    };
    let logs = vec![(3, vec![LogEpochs { non_checkpoint_epochs: vec![], checkpoint_epoch: 8 * E }])];
    let mut collector = csm
        .inject_database_initial_barrier(
            1, vec![job(3, 30, 1), job(4, 40, 2)], &vec![(3, 10 * E), (4, 5 * E)], &logs, &vec![background], vec![], false, 20,
        )
        .unwrap();
    let first_epoch = collector.creating_streaming_job_controls[0].barrier_control.queue[0].epoch;
    collector.collect_resp(BarrierCompleteResponse {
        worker_id: 2,
        database_id: 1,
        partial_graph_id: 4,
        epoch: first_epoch,
        create_mview_progress: vec![],
    });
    let queue = &collector.creating_streaming_job_controls[0].barrier_control.queue;
    assert!(!queue[0].node_to_collect.contains_key(&2));
    assert_eq!(queue[0].resps.len(), 1);
    assert_eq!(collector.node_to_collect.len(), 2);
}
