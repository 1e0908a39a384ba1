use checkpoint_coordinator::command::{Command, CreateStreamingJobType};
use checkpoint_coordinator::control_stream::{HostAddress, WorkerNode};
use checkpoint_coordinator::stream_manager::{
    available_parallelism, cancel_action, create_job_type, recovered_cancel_command,
    validate_cdc_table_backfill_target, validate_reschedule, AutoRefreshSchemaSinkContext,
    CancelAction, CreateOutcome, CreateStep, CreateStreamingJobContext, CreateStreamingJobOption, CreatingState, Fragment, GlobalStreamManager,
    JobParallelismTarget, JobResourceGroupTarget, JobRescheduleTarget, ReplaceStreamJobContext,
    RescheduleAction, RescheduleError, StreamJobError, Subscription, TableParallelism,
};
use checkpoint_coordinator::text::{merge_node_rpc_errors, MergedNodeError, NodeRpcError};

fn target(parallelism: JobParallelismTarget) -> JobRescheduleTarget {
    JobRescheduleTarget { parallelism, resource_group: JobResourceGroupTarget::Keep }
}

fn worker(id: u32, parallelism: u32, schedulable: bool) -> WorkerNode {
    WorkerNode {
        id,
        host: HostAddress { host: format!("w{id}"), port: 5688 },
        parallelism,
        is_streaming_schedulable: schedulable,
    }
}

#[test]
fn cancel_tracked_job_signals_once_then_untracks() {
    let mut manager = GlobalStreamManager::new();
    manager.create_streaming_job(7);
    let plan = manager.cancel_streaming_jobs(&vec![7]);
    assert_eq!(plan.to_signal, vec![7]);
    assert!(plan.recovered.is_empty());
    let again = manager.cancel_streaming_jobs(&vec![7]);
    assert!(again.to_signal.is_empty());
    assert!(again.recovered.is_empty());
    assert_eq!(cancel_action(false, false), CancelAction::IssueCancelCommand);
    let cancel = recovered_cancel_command(7, false, Some(1), vec![70, 71]).unwrap();
    assert!(matches!(cancel, Some((1, Command::CancelStreamJob { job_id: 7, .. }))));
    let result = manager.finish_streaming_job(7, CreateOutcome::Cancelled);
    assert_eq!(result, Err(StreamJobError::Cancelled));
    assert!(!manager.creating_job_info.streaming_jobs.contains_key(&7));
}

#[test]
fn cancel_untracked_job_goes_through_the_ledger() {
    let mut manager = GlobalStreamManager::new();
    manager.create_streaming_job(1);
    let plan = manager.cancel_streaming_jobs(&vec![2, 1, 3]);
    assert_eq!(plan.to_signal, vec![1]);
    assert_eq!(plan.recovered, vec![2, 3]);
    assert!(manager.cancel_streaming_jobs(&vec![]).to_signal.is_empty());
}

#[test]
fn cancel_actions_and_recovered_cancels() {
    assert_eq!(cancel_action(true, false), CancelAction::CancelledInQueue);
    assert_eq!(cancel_action(true, true), CancelAction::CancelledInQueue);
    assert_eq!(cancel_action(false, true), CancelAction::KeepWaiting);
    assert_eq!(recovered_cancel_command(4, true, Some(1), vec![]).err(), Some(StreamJobError::AlreadyCreated(4)));
    assert!(matches!(recovered_cancel_command(4, false, None, vec![]), Ok(None)));
}

#[test]
fn finishing_a_creation_returns_its_outcome() {
    let mut manager = GlobalStreamManager::new();
    manager.create_streaming_job(3);
    assert_eq!(manager.finish_streaming_job(3, CreateOutcome::Created(42)), Ok(42));
    manager.create_streaming_job(4);
    assert_eq!(
        manager.finish_streaming_job(4, CreateOutcome::Failed("boom".to_string())),
        Err(StreamJobError::Failed("boom".to_string()))
    );
    assert_eq!(manager.finish_streaming_job(5, CreateOutcome::ChannelClosed), Err(StreamJobError::NoNotification));
    assert!(manager.creating_job_info.streaming_jobs.is_empty());
}

#[test]
fn reschedule_above_available_parallelism_is_rejected() {
    let workers = vec![worker(1, 4, true), worker(2, 4, false)];
    let available = available_parallelism(&workers);
    assert_eq!(available, 4);
    let r = validate_reschedule(9, target(JobParallelismTarget::Update(TableParallelism::Fixed(6))), false, available, 8, &vec![]);
    assert_eq!(
        r.err(),
        Some(RescheduleError::ExceedsAvailableParallelism { parallelism: 6, available_parallelism: 4 })
    );
}

#[test]
fn reschedule_validation_errors() {
    let fixed = |p| target(JobParallelismTarget::Update(TableParallelism::Fixed(p)));
    assert_eq!(
        validate_reschedule(9, fixed(10), false, 16, 8, &vec![]).err(),
        Some(RescheduleError::ExceedsMaxParallelism { parallelism: 10, max_parallelism: 8 })
    );
    assert_eq!(
        validate_reschedule(9, target(JobParallelismTarget::Update(TableParallelism::Custom)), false, 16, 8, &vec![]).err(),
        Some(RescheduleError::CustomParallelism)
    );
    assert_eq!(
        validate_reschedule(9, fixed(2), false, 16, 8, &vec![5, 6]).err(),
        Some(RescheduleError::RelatedJobCreating { job_id: 9, related: 5 })
    );
    assert!(matches!(validate_reschedule(9, fixed(8), false, 16, 8, &vec![]), Ok(RescheduleAction::GeneratePlan)));
    assert!(matches!(
        validate_reschedule(9, target(JobParallelismTarget::Update(TableParallelism::Adaptive)), false, 32, 8, &vec![]),
        Ok(RescheduleAction::GeneratePlan)
    ));
}

#[test]
fn deferred_reschedule_only_records_targets() {
    let t = JobRescheduleTarget {
        parallelism: JobParallelismTarget::Refresh,
        resource_group: JobResourceGroupTarget::Update("rg".to_string()),
    };
    match validate_reschedule(9, t, true, 4, 8, &vec![]) {
        Ok(RescheduleAction::PostApplyOnly { parallelism, resource_group }) => {
            assert_eq!(parallelism, None);
            assert_eq!(resource_group, Some("rg".to_string()));
        }
        _ => panic!("expected a deferred update"),
    }
}

#[test]
fn cdc_backfill_accepts_only_fixed_parallelism() {
    assert_eq!(validate_cdc_table_backfill_target(&target(JobParallelismTarget::Update(TableParallelism::Fixed(3)))), Ok(()));
    assert_eq!(
        validate_cdc_table_backfill_target(&target(JobParallelismTarget::Update(TableParallelism::Adaptive))),
        Err(RescheduleError::AdaptiveParallelism)
    );
    assert_eq!(validate_cdc_table_backfill_target(&target(JobParallelismTarget::Refresh)), Err(RescheduleError::Refresh));
    let with_group = JobRescheduleTarget {
        parallelism: JobParallelismTarget::Update(TableParallelism::Fixed(3)),
        resource_group: JobResourceGroupTarget::Update("x".to_string()),
    };
    assert_eq!(validate_cdc_table_backfill_target(&with_group), Err(RescheduleError::ResourceGroupUpdate));
}

#[test]
fn drop_command_only_when_something_is_removed() {
    let manager = GlobalStreamManager::new();
    assert!(manager.drop_streaming_jobs(1, vec![], vec![], vec![], vec![9]).is_none());
    match manager.drop_streaming_jobs(1, vec![], vec![4], vec![], vec![]) {
        Some((1, Command::DropStreamingJobs { table_fragments_ids, .. })) => assert_eq!(table_fragments_ids, vec![4]),
        _ => panic!("expected a drop command"),
    }
}

#[test]
fn subscription_and_replace_commands() {
    let manager = GlobalStreamManager::new();
    let sub = Subscription { id: 3, database_id: 2, dependent_table_id: 8, retention_seconds: 60 };
    assert!(matches!(
        manager.create_subscription(&sub),
        (2, Command::CreateSubscription { subscription_id: 3, upstream_mv_table_id: 8, retention_second: 60 })
    ));
    assert!(matches!(
        manager.drop_subscription(2, 3, 8),
        (2, Command::DropSubscription { subscription_id: 3, upstream_mv_table_id: 8 })
    ));
    let ctx = ReplaceStreamJobContext { database_id: 2, job_id: 5, tmp_id: 6, drop_table_connector_state_table_id: Some(11) };
    match manager.replace_stream_job(&ctx) {
        (2, Command::ReplaceStreamJob { job_id: 5, tmp_id: 6, to_drop_state_table_ids }) => {
            assert_eq!(to_drop_state_table_ids, vec![11])
        }
        _ => panic!("expected a replace command"),
    }
}

#[test]
fn create_job_types() {
    assert_eq!(create_job_type(true, Some(3)), CreateStreamingJobType::SnapshotBackfill);
    assert_eq!(create_job_type(false, Some(3)), CreateStreamingJobType::SinkIntoTable { replace_table_id: 3 });
    assert_eq!(create_job_type(false, None), CreateStreamingJobType::Normal);
}

#[test]
fn refreshed_sink_fragment_places_actors_on_their_workers() {
    let ctx = AutoRefreshSchemaSinkContext {
        tmp_sink_id: 1,
        new_fragment: Fragment { fragment_id: 4, actors: vec![40, 41], state_table_ids: vec![9] },
        actor_status: vec![(41, 2), (40, 1)],
    };
    let info = ctx.new_fragment_info();
    assert_eq!(info.fragment_id, 4);
    assert_eq!(info.state_table_ids, vec![9]);
    let placed: Vec<(u32, u32)> = info.actors.iter().map(|a| (a.actor_id, a.worker_id)).collect();
    assert_eq!(placed, vec![(40, 1), (41, 2)]);
}

#[test]
fn merged_worker_errors() {
    let err = |m: &str, score: Option<i32>| NodeRpcError { message: m.to_string(), score };
    assert!(matches!(merge_node_rpc_errors("m".to_string(), vec![]), MergedNodeError::Message(s) if s == "m"));
    match merge_node_rpc_errors("inject".to_string(), vec![(12, err("a", None))]) {
        MergedNodeError::Single { context, worker_id, .. } => {
            assert_eq!(context, "inject, in worker node 12");
            assert_eq!(worker_id, 12);
        }
        _ => panic!("expected one error"),
    }
    match merge_node_rpc_errors("m".to_string(), vec![(1, err("a", Some(1))), (2, err("b", Some(3))), (3, err("c", Some(3)))]) {
        MergedNodeError::Single { worker_id, error, .. } => {
            assert_eq!(worker_id, 2);
            assert_eq!(error.message, "b");
        }
        _ => panic!("expected the best scored error"),
    }
    match merge_node_rpc_errors("m".to_string(), vec![(1, err("a", None)), (20, err("b", None))]) {
        MergedNodeError::Concatenated(s) => assert_eq!(s, "m:  in worker node 1, a; in worker node 20, b;"),
        _ => panic!("expected concatenated errors"),
    }
}

#[test]
fn create_context_decides_type_and_command() {
    let ctx = CreateStreamingJobContext {
        job_id: 8,
        database_id: 2,
        definition: "create mv m".to_string(),
        mv_table_id: Some(8),
        create_type: checkpoint_coordinator::creating_job::CreateType::Foreground,
        snapshot_backfill: false,
        replace_table_job_id: Some(3),
        option: CreateStreamingJobOption {},
    };
    assert_eq!(ctx.job_type(), CreateStreamingJobType::SinkIntoTable { replace_table_id: 3 });
    assert!(matches!(
        ctx.command(),
        (2, Command::CreateStreamingJob {
            job_id: 8,
            database_id: 2,
            job_type: CreateStreamingJobType::SinkIntoTable { replace_table_id: 3 }
        })
    ));
}

#[test]
fn repeated_cancel_ids_signal_once() {
    let mut manager = GlobalStreamManager::new();
    manager.create_streaming_job(7);
    let plan = manager.cancel_streaming_jobs(&vec![7, 8, 7, 8]);
    assert_eq!(plan.to_signal, vec![7]);
    assert_eq!(plan.recovered, vec![8, 8]);
}

#[test]
fn creation_states_end_the_wait_and_untrack_the_job() {
    let mut manager = GlobalStreamManager::new();
    manager.create_streaming_job(7);
    let step = manager.on_creating_state(1, 7, CreatingState::Canceling, false, false, vec![70]);
    match step {
        CreateStep::IssueCancel(1, Command::CancelStreamJob { job_id: 7, actors }) => assert_eq!(actors, vec![70]),
        _ => panic!("expected a cancel command"),
    }
    assert!(manager.creating_job_info.streaming_jobs.contains_key(&7));
    assert_eq!(manager.on_cancel_command(7, Ok(())), Err(StreamJobError::Cancelled));
    assert!(!manager.creating_job_info.streaming_jobs.contains_key(&7));

    manager.create_streaming_job(8);
    assert!(matches!(
        manager.on_creating_state(1, 8, CreatingState::Canceling, false, true, vec![]),
        CreateStep::KeepWaiting
    ));
    assert!(matches!(
        manager.on_creating_state(1, 8, CreatingState::Created { version: 5 }, false, false, vec![]),
        CreateStep::Done(Ok(5))
    ));
    assert!(manager.creating_job_info.streaming_jobs.is_empty());
    manager.create_streaming_job(9);
    assert!(matches!(
        manager.on_creating_state(1, 9, CreatingState::Canceling, true, false, vec![]),
        CreateStep::Done(Err(StreamJobError::Cancelled))
    ));
}
