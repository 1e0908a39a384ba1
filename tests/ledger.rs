use std::collections::HashMap;

use checkpoint_coordinator::barrier_control::CreatingStreamingJobBarrierControl;
use checkpoint_coordinator::control_stream::{
    connect_step, from_partial_graph_id, to_partial_graph_id, ConnectStep, ControlStreamError,
    ControlStreamManager, HostAddress, WorkerNode, DATABASE_PARTIAL_GRAPH_ID,
};
use checkpoint_coordinator::epoch::{BarrierInfo, BarrierKind};
use checkpoint_coordinator::graph_info::{InflightActorInfo, InflightFragmentInfo};
use checkpoint_coordinator::node_to_collect::is_valid_after_worker_err;
use checkpoint_coordinator::protocol::{
    BarrierCompleteResponse, StreamMessage, StreamingControlStreamRequest, SubscriptionUpstreamInfo,
};

fn fragment(fragment_id: u32, actors: &[(u32, u32)], tables: &[u32]) -> InflightFragmentInfo {
    InflightFragmentInfo {
        fragment_id,
        actors: actors
            .iter()
            .map(|&(actor_id, worker_id)| InflightActorInfo { actor_id, worker_id })
            .collect(),
        state_table_ids: tables.to_vec(),
    }
}

fn ack(worker_id: u32, epoch: u64) -> BarrierCompleteResponse {
    BarrierCompleteResponse {
        worker_id,
        database_id: 1,
        partial_graph_id: 7,
        epoch,
        create_mview_progress: vec![],
    }
}

fn initial_barrier(prev: u64, curr: u64) -> BarrierInfo {
    BarrierInfo { prev_epoch: prev, curr_epoch: curr, kind: BarrierKind::Initial }
}

#[test]
fn create_job_one_actor_initial_barrier_commits_first() {
    let mut csm = ControlStreamManager::new();
    csm.add_connected(1);
    let graph = vec![fragment(10, &[(100, 1)], &[7])];
    let barrier = initial_barrier(65536, 131072);
    let node_to_collect = csm
        .inject_barrier(1, Some(7), None, &barrier, &graph, &graph, None, vec![], vec![])
        .unwrap();
    let expected: HashMap<u32, bool> = HashMap::from([(1, false)]);
    assert_eq!(node_to_collect, expected);

    let mut ledger = CreatingStreamingJobBarrierControl::new(7, 0, false);
    ledger.enqueue_epoch(65536, node_to_collect, BarrierKind::Initial);
    ledger.collect(ack(1, 65536));
    assert!(ledger.queue[0].node_to_collect.is_empty());
    let (epoch, resps, first_commit) = ledger.start_completing(None).unwrap();
    assert_eq!(epoch, 65536);
    assert_eq!(resps.len(), 1);
    assert_eq!(resps[0].worker_id, 1);
    assert!(first_commit);
}

#[test]
fn start_completing_waits_for_every_worker() {
    let mut ledger = CreatingStreamingJobBarrierControl::new(7, 0, false);
    ledger.enqueue_epoch(10, HashMap::from([(1, false), (2, true)]), BarrierKind::Barrier);
    assert!(ledger.start_completing(None).is_none());
    ledger.collect(ack(1, 10));
    assert!(ledger.start_completing(None).is_none());
    ledger.collect(ack(2, 10));
    assert_eq!(ledger.start_completing(None).map(|r| r.0), Some(10));
}

#[test]
fn start_completing_respects_upper_bound() {
    let mut ledger = CreatingStreamingJobBarrierControl::new(7, 0, true);
    ledger.enqueue_epoch(10, HashMap::new(), BarrierKind::Barrier);
    assert!(ledger.start_completing(Some(10)).is_none());
    let (epoch, _, first_commit) = ledger.start_completing(Some(11)).unwrap();
    assert_eq!(epoch, 10);
    assert!(!first_commit);
}

#[test]
fn duplicate_and_unexpected_acks_are_ignored() {
    let mut ledger = CreatingStreamingJobBarrierControl::new(7, 0, false);
    ledger.enqueue_epoch(10, HashMap::from([(1, false)]), BarrierKind::Barrier);
    ledger.collect(ack(9, 10));
    ledger.collect(ack(1, 99));
    assert_eq!(ledger.queue[0].node_to_collect.len(), 1);
    ledger.collect(ack(1, 10));
    ledger.collect(ack(1, 10));
    assert!(ledger.queue[0].node_to_collect.is_empty());
    assert_eq!(ledger.queue[0].resps.len(), 1);
    assert_eq!(ledger.max_collected_epoch(), Some(10));
}

#[test]
fn epochs_commit_in_injection_order() {
    let mut ledger = CreatingStreamingJobBarrierControl::new(7, 0, false);
    ledger.enqueue_epoch(10, HashMap::from([(1, false)]), BarrierKind::Barrier);
    ledger.enqueue_epoch(20, HashMap::from([(1, false)]), BarrierKind::Barrier);
    ledger.collect(ack(1, 20));
    assert!(ledger.start_completing(None).is_none());
    assert_eq!(ledger.max_collected_epoch(), None);
    ledger.collect(ack(1, 10));
    assert_eq!(ledger.max_collected_epoch(), Some(20));
    let (first, _, first_commit) = ledger.start_completing(None).unwrap();
    assert_eq!(first, 10);
    assert!(first_commit);
    ledger.ack_completed(10);
    let (second, _, first_commit) = ledger.start_completing(None).unwrap();
    assert_eq!(second, 20);
    assert!(!first_commit);
    ledger.ack_completed(20);
    assert!(ledger.is_empty());
    assert_eq!(ledger.inflight_barrier_count(), 0);
}

#[test]
fn accepts_only_increasing_epochs() {
    let mut ledger = CreatingStreamingJobBarrierControl::new(7, 0, false);
    assert!(ledger.accepts_epoch(0));
    ledger.enqueue_epoch(10, HashMap::new(), BarrierKind::Barrier);
    assert!(!ledger.accepts_epoch(10));
    assert!(!ledger.accepts_epoch(5));
    assert!(ledger.accepts_epoch(11));
}

#[test]
fn actorless_worker_disconnect_keeps_epochs_valid() {
    let mut ledger = CreatingStreamingJobBarrierControl::new(7, 0, false);
    ledger.enqueue_epoch(10, HashMap::from([(1, false), (2, true)]), BarrierKind::Barrier);
    ledger.enqueue_epoch(20, HashMap::from([(1, false), (2, true)]), BarrierKind::Barrier);
    assert!(ledger.is_valid_after_worker_err(2));
    assert!(!ledger.queue[0].node_to_collect.contains_key(&2));
    assert!(!ledger.queue[1].node_to_collect.contains_key(&2));
    assert!(ledger.is_valid_after_worker_err(3));
}

#[test]
fn worker_with_actors_disconnect_invalidates_epochs() {
    let mut ledger = CreatingStreamingJobBarrierControl::new(7, 0, false);
    ledger.enqueue_epoch(10, HashMap::from([(1, false), (2, true)]), BarrierKind::Barrier);
    assert!(!ledger.is_valid_after_worker_err(1));
}

#[test]
fn node_to_collect_after_worker_err() {
    let mut n: HashMap<u32, bool> = HashMap::from([(1, true), (2, false)]);
    assert!(is_valid_after_worker_err(&mut n, 1));
    assert!(!n.contains_key(&1));
    assert!(!is_valid_after_worker_err(&mut n, 2));
    assert!(n.contains_key(&2));
    assert!(is_valid_after_worker_err(&mut n, 3));
}

#[test]
fn inject_barrier_fails_atomically_on_unconnected_worker() {
    let mut csm = ControlStreamManager::new();
    csm.add_connected(1);
    let graph = vec![fragment(10, &[(100, 1), (101, 2)], &[])];
    let barrier = initial_barrier(10, 20);
    let r = csm.inject_barrier(1, None, None, &barrier, &graph, &graph, None, vec![], vec![]);
    assert_eq!(r.unwrap_err(), ControlStreamError::UnconnectedWorker(2));
    assert!(csm.outbox.is_empty());
}

#[test]
fn inject_barrier_sends_one_request_per_connected_worker() {
    let mut csm = ControlStreamManager::new();
    csm.add_connected(1);
    csm.add_connected(2);
    let graph = vec![fragment(10, &[(100, 1), (101, 1)], &[5, 6])];
    let barrier = BarrierInfo { prev_epoch: 10, curr_epoch: 20, kind: BarrierKind::Checkpoint(vec![10]) };
    let subs = vec![SubscriptionUpstreamInfo { subscriber_id: 3, upstream_mv_table_id: 5 }];
    let n = csm
        .inject_barrier(4, None, None, &barrier, &graph, &graph, None, subs, vec![])
        .unwrap();
    assert_eq!(n, HashMap::from([(1, false), (2, true)]));
    let out = csm.take_outbox();
    assert_eq!(out.len(), 2);
    assert!(csm.outbox.is_empty());
    match &out[0] {
        (1, StreamingControlStreamRequest::InjectBarrier(req)) => {
            assert_eq!(req.request_id.len(), 36);
            assert_eq!(req.prev_epoch, 10);
            assert_eq!(req.curr_epoch, 20);
            assert_eq!(req.database_id, 4);
            assert_eq!(req.actor_ids_to_collect, vec![100, 101]);
            assert_eq!(req.table_ids_to_sync, vec![5, 6]);
            assert_eq!(req.partial_graph_id, DATABASE_PARTIAL_GRAPH_ID);
            assert_eq!(req.subscriptions_to_add.len(), 1);
        }
        _ => panic!("expected a barrier for worker 1"),
    }
    match &out[1] {
        (2, StreamingControlStreamRequest::InjectBarrier(req)) => {
            assert!(req.actor_ids_to_collect.is_empty());
            assert_ne!(req.request_id, match &out[0].1 {
                StreamingControlStreamRequest::InjectBarrier(first) => first.request_id.clone(),
                _ => String::new(),
            });
        }
        _ => panic!("expected a barrier for worker 2"),
    }
}

#[test]
fn partial_graph_ids_round_trip() {
    assert_eq!(to_partial_graph_id(None), u32::MAX);
    assert_eq!(to_partial_graph_id(Some(42)), 42);
    assert_eq!(from_partial_graph_id(42), Some(42));
    assert_eq!(from_partial_graph_id(u32::MAX), None);
}

#[test]
fn connect_retries_with_backoff_then_gives_up() {
    assert_eq!(connect_step(1, true), ConnectStep::Connected);
    assert_eq!(connect_step(1, false), ConnectStep::RetryAfter(500));
    assert_eq!(connect_step(2, false), ConnectStep::RetryAfter(3000));
    assert_eq!(connect_step(4, false), ConnectStep::RetryAfter(3000));
    assert_eq!(connect_step(5, false), ConnectStep::GiveUpAfter(3000));
}

#[test]
fn shutdown_response_drops_the_worker() {
    let mut csm = ControlStreamManager::new();
    csm.add_connected(1);
    csm.add_connected(2);
    let r = csm.on_stream_message(1, StreamMessage::Shutdown);
    assert_eq!(r.err(), Some(ControlStreamError::ShuttingDown(1)));
    assert!(!csm.is_connected(1));
    assert!(csm.is_connected(2));
    let r = csm.on_stream_message(2, StreamMessage::BarrierComplete(ack(2, 10)));
    assert!(r.is_ok());
    assert!(csm.is_connected(2));
    let r = csm.on_stream_message(2, StreamMessage::EndOfStream);
    assert_eq!(r.err(), Some(ControlStreamError::EndOfStream(2)));
    assert!(!csm.is_connected(2));
}

#[test]
fn reset_reconnects_and_reports_failures() {
    let mut csm = ControlStreamManager::new();
    csm.add_connected(9);
    let node = |id: u32| WorkerNode {
        id,
        host: HostAddress { host: format!("w{id}"), port: 5688 },
        parallelism: 4,
        is_streaming_schedulable: true,
    };
    let failed = csm.reset(vec![node(1), node(2), node(3)], &vec![true, false, true]);
    assert_eq!(failed, vec![2]);
    assert!(csm.is_connected(1));
    assert!(!csm.is_connected(2));
    assert!(csm.is_connected(3));
    assert!(!csm.is_connected(9));
    assert_eq!(csm.host_addr(2).map(|h| h.host), Some("w2".to_string()));
}

#[test]
fn register_worker_checks_the_address() {
    let mut csm = ControlStreamManager::new();
    let node = WorkerNode {
        id: 1,
        host: HostAddress { host: "a".to_string(), port: 1 },
        parallelism: 1,
        is_streaming_schedulable: true,
    };
    assert_eq!(csm.register_worker(node.clone()), Ok(true));
    csm.add_connected(1);
    assert_eq!(csm.register_worker(node.clone()), Ok(false));
    let moved = WorkerNode { host: HostAddress { host: "b".to_string(), port: 1 }, ..node };
    assert_eq!(csm.register_worker(moved), Err(ControlStreamError::HostMismatch(1)));
}

#[test]
fn partial_graph_control_messages_reach_every_worker() {
    let mut csm = ControlStreamManager::new();
    csm.add_connected(1);
    csm.add_connected(2);
    csm.remove_partial_graph(1, vec![]);
    assert!(csm.outbox.is_empty());
    csm.add_partial_graph(1, Some(5));
    csm.remove_partial_graph(1, vec![5, 6]);
    let sent = csm.reset_database(1, 3);
    assert_eq!(sent, vec![1, 2]);
    assert_eq!(csm.outbox.len(), 6);
    assert!(matches!(
        csm.outbox[0],
        (1, StreamingControlStreamRequest::CreatePartialGraph { database_id: 1, partial_graph_id: 5 })
    ));
    match &csm.outbox[3] {
        (2, StreamingControlStreamRequest::RemovePartialGraph { partial_graph_ids, .. }) => {
            assert_eq!(partial_graph_ids, &vec![5, 6])
        }
        _ => panic!("expected a removal for worker 2"),
    }
    assert!(matches!(
        csm.outbox[5],
        (2, StreamingControlStreamRequest::ResetDatabase { database_id: 1, reset_request_id: 3 })
    ));
}

#[test]
fn init_request_lists_database_graph_then_jobs() {
    let subs = vec![SubscriptionUpstreamInfo { subscriber_id: 1, upstream_mv_table_id: 2 }];
    let req = ControlStreamManager::collect_init_request(&vec![(3, subs, vec![8, 9])], "term".to_string());
    assert_eq!(req.term_id, "term");
    assert_eq!(req.databases.len(), 1);
    let graphs = &req.databases[0].graphs;
    assert_eq!(req.databases[0].database_id, 3);
    assert_eq!(graphs.len(), 3);
    assert_eq!(graphs[0].partial_graph_id, u32::MAX);
    assert_eq!(graphs[0].subscriptions.len(), 1);
    assert_eq!(graphs[1].partial_graph_id, 8);
    assert_eq!(graphs[2].partial_graph_id, 9);
    assert!(graphs[2].subscriptions.is_empty());
}
