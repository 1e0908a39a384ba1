//! Messages exchanged with workers over their control streams.
use vstd::prelude::*;
use crate::epoch::{ActorId, BarrierKind, DatabaseId, FragmentId, TableId, WorkerId};

verus! {

/// Backfill progress that an actor reports with its acknowledgement.
pub struct CreateMviewProgress {
    pub backfill_actor_id: ActorId,
    /// The actor has finished its backfill.
    pub done: bool,
    pub consumed_epoch: u64,
    pub consumed_rows: u64,
    /// How many epochs of buffered upstream log the actor still has to replay.
    pub pending_epoch_lag: u64,
}

/// A worker's acknowledgement of one epoch of one partial graph.
pub struct BarrierCompleteResponse {
    pub worker_id: WorkerId,
    pub database_id: DatabaseId,
    pub partial_graph_id: u32,
    pub epoch: u64,
    pub create_mview_progress: Vec<CreateMviewProgress>,
}


/// A subscription on an upstream materialized view.
#[derive(Clone, Copy, PartialEq, Eq, Debug)]
pub struct SubscriptionUpstreamInfo {
    pub subscriber_id: u32,
    pub upstream_mv_table_id: TableId,
}

/// The mutation that adds actors to the graph.
#[derive(Clone, Debug)]
pub struct AddMutation {
    pub added_actors: Vec<ActorId>,
    pub pause: bool,
    pub subscriptions_to_add: Vec<SubscriptionUpstreamInfo>,
    pub backfill_nodes_to_pause: Vec<FragmentId>,
}

/// A structural change that a barrier carries.
#[derive(Clone, Debug)]
pub enum Mutation {
    Add(AddMutation),
    Stop { actors: Vec<ActorId> },
    StartFragmentBackfill { fragment_ids: Vec<FragmentId> },
    DropSubscriptions { info: Vec<SubscriptionUpstreamInfo> },
    Pause,
    Resume,
}

/// The mathematical value of a [`Mutation`].
pub enum MutationView {
    Add {
        added_actors: Seq<ActorId>,
        pause: bool,
        subscriptions_to_add: Seq<SubscriptionUpstreamInfo>,
        backfill_nodes_to_pause: Seq<FragmentId>,
    },
    Stop { actors: Seq<ActorId> },
    StartFragmentBackfill { fragment_ids: Seq<FragmentId> },
    DropSubscriptions { info: Seq<SubscriptionUpstreamInfo> },
    Pause,
    Resume,
}

impl View for Mutation {
    type V = MutationView;

    open spec fn view(&self) -> MutationView {
        match self {
            Mutation::Add(a) => MutationView::Add {
                added_actors: a.added_actors@,
                pause: a.pause,
                subscriptions_to_add: a.subscriptions_to_add@,
                backfill_nodes_to_pause: a.backfill_nodes_to_pause@,
            },
            Mutation::Stop { actors } => MutationView::Stop { actors: actors@ },
            Mutation::StartFragmentBackfill { fragment_ids } => MutationView::StartFragmentBackfill {
                fragment_ids: fragment_ids@,
            },
            Mutation::DropSubscriptions { info } => MutationView::DropSubscriptions { info: info@ },
            Mutation::Pause => MutationView::Pause,
            Mutation::Resume => MutationView::Resume,
        }
    }
}

/// The value of an optional mutation.
pub open spec fn mutation_view(m: Option<Mutation>) -> Option<MutationView> {
    match m {
        Some(x) => Some(x@),
        None => None,
    }
}

fn copy_u32s(v: &Vec<u32>) -> (r: Vec<u32>)
    ensures
        r@ == v@,
{
    crate::epoch::copy_ids(v)
}

impl Mutation {
    pub fn duplicate(&self) -> (r: Mutation)
        ensures
            r@ == self@,
    {
        match self {
            Mutation::Add(a) => Mutation::Add(
                AddMutation {
                    added_actors: copy_u32s(&a.added_actors),
                    pause: a.pause,
                    subscriptions_to_add: copy_subscriptions(&a.subscriptions_to_add),
                    backfill_nodes_to_pause: copy_u32s(&a.backfill_nodes_to_pause),
                },
            ),
            Mutation::Stop { actors } => Mutation::Stop { actors: copy_u32s(actors) },
            Mutation::StartFragmentBackfill { fragment_ids } => Mutation::StartFragmentBackfill {
                fragment_ids: copy_u32s(fragment_ids),
            },
            Mutation::DropSubscriptions { info } => Mutation::DropSubscriptions {
                info: copy_subscriptions(info),
            },
            Mutation::Pause => Mutation::Pause,
            Mutation::Resume => Mutation::Resume,
        }
    }
}

/// An actor that a worker must build, and its fragment.
#[derive(Clone, Copy, PartialEq, Eq, Debug)]
pub struct ActorToBuild {
    pub worker_id: WorkerId,
    pub fragment_id: FragmentId,
    pub actor_id: ActorId,
}

/// The barrier sent to one worker for one partial graph.
pub struct InjectBarrierRequest {
    pub request_id: String,
    pub prev_epoch: u64,
    pub curr_epoch: u64,
    pub kind: BarrierKind,
    pub mutation: Option<Mutation>,
    pub database_id: DatabaseId,
    pub actor_ids_to_collect: Vec<ActorId>,
    pub table_ids_to_sync: Vec<TableId>,
    pub partial_graph_id: u32,
    pub actors_to_build: Vec<ActorToBuild>,
    pub subscriptions_to_add: Vec<SubscriptionUpstreamInfo>,
    pub subscriptions_to_remove: Vec<SubscriptionUpstreamInfo>,
}

/// One partial graph that a worker learns of when it connects.
pub struct InitialPartialGraph {
    pub partial_graph_id: u32,
    pub subscriptions: Vec<SubscriptionUpstreamInfo>,
}

/// The partial graphs of one database that a worker learns of when it connects.
pub struct DatabaseInitialPartialGraph {
    pub database_id: DatabaseId,
    pub graphs: Vec<InitialPartialGraph>,
}

/// The first message on a new control stream.
pub struct InitRequest {
    pub databases: Vec<DatabaseInitialPartialGraph>,
    pub term_id: String,
}

/// A message to a worker.
pub enum StreamingControlStreamRequest {
    InjectBarrier(InjectBarrierRequest),
    CreatePartialGraph { database_id: DatabaseId, partial_graph_id: u32 },
    RemovePartialGraph { database_id: DatabaseId, partial_graph_ids: Vec<u32> },
    ResetDatabase { database_id: DatabaseId, reset_request_id: u32 },
}

/// What a worker's response stream yielded.
pub enum StreamMessage {
    /// The stream ended.
    EndOfStream,
    /// The stream failed.
    StreamError(String),
    /// A response without a body.
    Empty,
    /// The worker is shutting down.
    Shutdown,
    /// An init response, which is only expected before the stream is handed over.
    Init,
    /// An acknowledgement of a barrier.
    BarrierComplete(BarrierCompleteResponse),
    /// A database finished resetting.
    ResetDatabase { database_id: DatabaseId, reset_request_id: u32 },
}

/// A response taken from a worker's stream.
pub enum ControlResponse {
    BarrierComplete(BarrierCompleteResponse),
    ResetDatabase { database_id: DatabaseId, reset_request_id: u32 },
}

pub fn copy_subscriptions(v: &Vec<SubscriptionUpstreamInfo>) -> (r: Vec<SubscriptionUpstreamInfo>)
    ensures
        r@ == v@,
{
    let mut r: Vec<SubscriptionUpstreamInfo> = Vec::new();
    let mut i: usize = 0;
    while i < v.len()
        invariant
            i <= v@.len(),
            r@ == v@.subrange(0, i as int),
        decreases v@.len() - i,
    {
        r.push(v[i]);
        i = i + 1;
        assert(r@ =~= v@.subrange(0, i as int));
    }
    assert(r@ =~= v@);
    r
}

} // verus!
