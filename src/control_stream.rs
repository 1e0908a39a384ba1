//! The multiplexer of control streams: one stream per connected worker, shared by every
//! partial graph, carrying barriers out and acknowledgements back.
use std::collections::HashMap;
use vstd::prelude::*;
use crate::epoch::{copy_ids, BarrierInfo, BarrierInfoView, DatabaseId, TableId, WorkerId};
use crate::graph_info::{
    actors_on_worker, existing_table_ids, graph_actors_of_worker, graph_table_ids, has_worker,
    InflightFragmentInfo,
};
use crate::node_to_collect::NodeToCollect;
use crate::protocol::{
    copy_subscriptions, mutation_view, ActorToBuild, ControlResponse, InjectBarrierRequest, Mutation,
    MutationView, StreamMessage,
    StreamingControlStreamRequest, SubscriptionUpstreamInfo,
};

verus! {

broadcast use vstd::std_specs::hash::group_hash_axioms;

/// The partial graph id of the database's steady-state graph.
pub const DATABASE_PARTIAL_GRAPH_ID: u32 = 0xFFFF_FFFF;

/// How many times a new worker is tried before it is given up.
pub const MAX_CONNECT_RETRY: u64 = 5;

/// The first delay between connection attempts, in milliseconds.
pub const CONNECT_BACKOFF_BASE_MS: u64 = 100;

/// The factor applied to each connection backoff delay.
pub const CONNECT_BACKOFF_FACTOR: u64 = 5;

/// The longest delay between connection attempts, in milliseconds.
pub const CONNECT_BACKOFF_MAX_MS: u64 = 3000;

/// The partial graph id of a creating job, or of the steady-state graph.
pub open spec fn partial_graph_id_of(job_id: Option<TableId>) -> u32 {
    match job_id {
        Some(t) => t,
        None => DATABASE_PARTIAL_GRAPH_ID,
    }
}

/// A job id that can name a partial graph of its own.
pub open spec fn valid_job_graph(job_id: Option<TableId>) -> bool {
    job_id matches Some(t) ==> t != DATABASE_PARTIAL_GRAPH_ID
}

pub fn to_partial_graph_id(job_id: Option<TableId>) -> (r: u32)
    requires
        valid_job_graph(job_id),
    ensures
        r == partial_graph_id_of(job_id),
{
    match job_id {
        Some(t) => t,
        None => DATABASE_PARTIAL_GRAPH_ID,
    }
}

pub fn from_partial_graph_id(partial_graph_id: u32) -> (r: Option<TableId>)
    ensures
        r == if partial_graph_id == DATABASE_PARTIAL_GRAPH_ID {
            None::<TableId>
        } else {
            Some(partial_graph_id)
        },
{
    if partial_graph_id == DATABASE_PARTIAL_GRAPH_ID {
        None
    } else {
        Some(partial_graph_id)
    }
}

/// A partial graph id names the job it was made from.
pub proof fn lemma_partial_graph_id_round_trip(job_id: Option<TableId>)
    requires
        valid_job_graph(job_id),
    ensures
        (if partial_graph_id_of(job_id) == DATABASE_PARTIAL_GRAPH_ID {
            None::<TableId>
        } else {
            Some(partial_graph_id_of(job_id))
        }) == job_id,
{
}

/// Relies on uuid's `Uuid::new_v4` and its `Display`: a fresh random id, written in
/// the 36-character hyphenated form.
#[verifier::external_body]
fn new_request_id() -> (r: String)
    ensures
        r@.len() == 36,
{
    uuid::Uuid::new_v4().to_string()
}

fn duplicate_mutation(m: &Option<Mutation>) -> (r: Option<Mutation>)
    ensures
        mutation_view(r) == mutation_view(*m),
{
    match m {
        Some(x) => Some(x.duplicate()),
        None => None,
    }
}

/// The network address of a worker.
#[derive(Clone, Debug)]
pub struct HostAddress {
    pub host: String,
    pub port: i32,
}

/// A worker known to the cluster.
#[derive(Clone, Debug)]
pub struct WorkerNode {
    pub id: WorkerId,
    pub host: HostAddress,
    pub parallelism: u32,
    pub is_streaming_schedulable: bool,
}

fn same_host(a: &HostAddress, b: &HostAddress) -> (r: bool)
    ensures
        r == (a.host@ == b.host@ && a.port == b.port),
{
    a.port == b.port && a.host == b.host
}

/// The ids of the workers among `nodes` whose `opened` flag is `want`, in order.
pub open spec fn worker_ids_where(nodes: Seq<WorkerNode>, opened: Seq<bool>, want: bool) -> Seq<WorkerId>
    decreases nodes.len(),
{
    if nodes.len() == 0 || opened.len() == 0 {
        Seq::empty()
    } else {
        let rest = worker_ids_where(nodes.drop_last(), opened.drop_last(), want);
        if opened.last() == want {
            rest.push(nodes.last().id)
        } else {
            rest
        }
    }
}

proof fn lemma_ids_where_from(nodes: Seq<WorkerNode>, opened: Seq<bool>, want: bool)
    ensures
        forall|w: WorkerId|
            worker_ids_where(nodes, opened, want).contains(w) ==> exists|k: int|
                0 <= k < nodes.len() && #[trigger] nodes[k].id == w,
    decreases nodes.len(),
{
    if nodes.len() > 0 && opened.len() > 0 {
        lemma_ids_where_from(nodes.drop_last(), opened.drop_last(), want);
        let rest = worker_ids_where(nodes.drop_last(), opened.drop_last(), want);
        assert forall|w: WorkerId| worker_ids_where(nodes, opened, want).contains(w) implies exists|k: int|
            0 <= k < nodes.len() && #[trigger] nodes[k].id == w by {
            let all = worker_ids_where(nodes, opened, want);
            let i = choose|i: int| 0 <= i < all.len() && all[i] == w;
            if i < rest.len() {
                assert(rest[i] == w);
                assert(rest.contains(w));
                let k = choose|k: int| 0 <= k < nodes.drop_last().len() && #[trigger] nodes.drop_last()[k].id == w;
                assert(nodes[k].id == w);
            } else {
                assert(nodes[nodes.len() - 1].id == w);
            }
        }
    }
}

/// A worker with a live control stream.
pub struct ControlStreamNode {
    pub worker_id: WorkerId,
}

/// Why the multiplexer refused or lost a worker.
#[derive(Clone, Copy, PartialEq, Eq, Debug)]
pub enum ControlStreamError {
    /// A worker that holds actors of the graph has no control stream.
    UnconnectedWorker(WorkerId),
    /// The worker's response stream ended.
    EndOfStream(WorkerId),
    /// The worker's response stream failed.
    StreamFailed(WorkerId),
    /// The worker sent a response without a body.
    EmptyResponse(WorkerId),
    /// The worker is shutting down.
    ShuttingDown(WorkerId),
    /// The worker sent an init response after the stream was handed over.
    UnexpectedInit(WorkerId),
    /// A worker rejoined under the same id with another address.
    HostMismatch(WorkerId),
}

/// What to do after one attempt to open a control stream to a new worker.
#[derive(Clone, Copy, PartialEq, Eq, Debug)]
pub enum ConnectStep {
    /// The stream is open.
    Connected,
    /// Wait this many milliseconds, then try again.
    RetryAfter(u64),
    /// Wait this many milliseconds, then give the worker up.
    GiveUpAfter(u64),
}

/// The delay before retry `k` (from 0) of a backoff from `base` milliseconds, where each
/// delay is `factor` times the current step, steps grow by the factor `base`, and no
/// delay exceeds `max_ms` (a capped delay leaves the step where it is).
pub open spec fn backoff_step(base: nat, factor: nat, max_ms: nat, k: nat) -> nat
    decreases k,
{
    if k == 0 {
        base
    } else {
        let prev = backoff_step(base, factor, max_ms, (k - 1) as nat);
        if saturating_mul(prev, factor) > max_ms {
            prev
        } else {
            saturating_mul(prev, base)
        }
    }
}

/// `a * b`, or `u64::MAX` where that does not fit.
pub open spec fn saturating_mul(a: nat, b: nat) -> nat {
    if a * b > u64::MAX {
        u64::MAX as nat
    } else {
        a * b
    }
}

/// The `k`-th delay of the backoff, in milliseconds.
pub open spec fn backoff_delay(base: nat, factor: nat, max_ms: nat, k: nat) -> nat {
    let d = saturating_mul(backoff_step(base, factor, max_ms, k), factor);
    if d > max_ms {
        max_ms
    } else {
        d
    }
}

/// Relies on tokio-retry's `ExponentialBackoff` (`from_millis`, `factor`, `max_delay`
/// and `Iterator::next`): the first `count` delays, in milliseconds.
#[verifier::external_body]
fn backoff_delays_ms(base: u64, factor: u64, max_ms: u64, count: usize) -> (r: Vec<u64>)
    ensures
        r@.len() == count,
        forall|k: int|
            0 <= k < count ==> r@[k] == backoff_delay(
                base as nat,
                factor as nat,
                max_ms as nat,
                k as nat,
            ),
{
    tokio_retry::strategy::ExponentialBackoff::from_millis(base).factor(factor).max_delay(
        std::time::Duration::from_millis(max_ms),
    ).take(count).map(|d| d.as_millis() as u64).collect()
}

/// What follows attempt `attempt` (from 1) to open a control stream to a new worker.
pub open spec fn connect_step_spec(attempt: nat, succeeded: bool) -> ConnectStep {
    let delay = backoff_delay(
        CONNECT_BACKOFF_BASE_MS as nat,
        CONNECT_BACKOFF_FACTOR as nat,
        CONNECT_BACKOFF_MAX_MS as nat,
        (attempt - 1) as nat,
    ) as u64;
    if succeeded {
        ConnectStep::Connected
    } else if attempt < MAX_CONNECT_RETRY {
        ConnectStep::RetryAfter(delay)
    } else {
        ConnectStep::GiveUpAfter(delay)
    }
}

/// Decides what follows attempt `attempt` (from 1) to open a control stream to a new
/// worker: a failed attempt waits out the backoff delay, and the last one gives up.
pub fn connect_step(attempt: u64, succeeded: bool) -> (r: ConnectStep)
    requires
        1 <= attempt <= MAX_CONNECT_RETRY,
    ensures
        r == connect_step_spec(attempt as nat, succeeded),
{
    if succeeded {
        return ConnectStep::Connected;
    }
    let delays = backoff_delays_ms(
        CONNECT_BACKOFF_BASE_MS,
        CONNECT_BACKOFF_FACTOR,
        CONNECT_BACKOFF_MAX_MS,
        attempt as usize,
    );
    let delay = delays[(attempt - 1) as usize];
    if attempt < MAX_CONNECT_RETRY {
        ConnectStep::RetryAfter(delay)
    } else {
        ConnectStep::GiveUpAfter(delay)
    }
}

/// The actors among `s` that `worker_id` must build, in order.
pub open spec fn builds_on_worker(s: Seq<ActorToBuild>, worker_id: WorkerId) -> Seq<ActorToBuild>
    decreases s.len(),
{
    if s.len() == 0 {
        Seq::empty()
    } else {
        let rest = builds_on_worker(s.drop_last(), worker_id);
        if s.last().worker_id == worker_id {
            rest.push(s.last())
        } else {
            rest
        }
    }
}

/// The actors to build that a barrier carries, if any.
pub open spec fn builds_of(new_actors: Option<Vec<ActorToBuild>>) -> Seq<ActorToBuild> {
    match new_actors {
        Some(v) => v@,
        None => Seq::empty(),
    }
}

fn builds_for(new_actors: &Option<Vec<ActorToBuild>>, worker_id: WorkerId) -> (r: Vec<ActorToBuild>)
    ensures
        r@ == builds_on_worker(builds_of(*new_actors), worker_id),
{
    let mut r: Vec<ActorToBuild> = Vec::new();
    match new_actors {
        Some(v) => {
            let mut i: usize = 0;
            while i < v.len()
                invariant
                    i <= v@.len(),
                    r@ == builds_on_worker(v@.subrange(0, i as int), worker_id),
                decreases v@.len() - i,
            {
                proof {
                    assert(v@.subrange(0, i + 1).drop_last() =~= v@.subrange(0, i as int));
                }
                if v[i].worker_id == worker_id {
                    r.push(v[i]);
                }
                i = i + 1;
            }
            assert(v@.subrange(0, v@.len() as int) =~= v@);
        },
        None => {},
    }
    r
}

/// Every worker that holds an actor of the fragments has a control stream.
pub open spec fn all_workers_connected(
    fragments: Seq<InflightFragmentInfo>,
    connected: Seq<WorkerId>,
) -> bool {
    forall|i: int, j: int|
        0 <= i < fragments.len() && 0 <= j < fragments[i].actors@.len() ==> connected.contains(
            #[trigger] fragments[i].actors@[j].worker_id,
        )
}

/// `msg` is the barrier for `worker_id` that `inject_barrier` sends.
pub open spec fn is_barrier_for(
    msg: (WorkerId, StreamingControlStreamRequest),
    worker_id: WorkerId,
    database_id: DatabaseId,
    partial_graph_id: u32,
    barrier: BarrierInfoView,
    pre_applied: Seq<InflightFragmentInfo>,
    applied: Seq<InflightFragmentInfo>,
    new_actors: Seq<ActorToBuild>,
    subscriptions_to_add: Seq<SubscriptionUpstreamInfo>,
    subscriptions_to_remove: Seq<SubscriptionUpstreamInfo>,
    mutation: Option<MutationView>,
) -> bool {
    &&& msg.0 == worker_id
    &&& msg.1 matches StreamingControlStreamRequest::InjectBarrier(req) && {
        &&& req.request_id@.len() == 36
        &&& req.prev_epoch == barrier.prev_epoch
        &&& req.curr_epoch == barrier.curr_epoch
        &&& req.kind@ == barrier.kind
        &&& mutation_view(req.mutation) == mutation
        &&& req.database_id == database_id
        &&& req.actor_ids_to_collect@ == graph_actors_of_worker(pre_applied, worker_id)
        &&& req.table_ids_to_sync@ == graph_table_ids(applied)
        &&& req.partial_graph_id == partial_graph_id
        &&& req.actors_to_build@ == builds_on_worker(new_actors, worker_id)
        &&& req.subscriptions_to_add@ == subscriptions_to_add
        &&& req.subscriptions_to_remove@ == subscriptions_to_remove
    }
}

/// A worker that holds no actor of the graph a barrier went to is recorded as
/// trivially satisfied, so its failure never makes that barrier's epoch invalid.
pub proof fn lemma_actorless_worker_survives_barrier(
    node_to_collect: Map<WorkerId, bool>,
    pre_applied: Seq<InflightFragmentInfo>,
    worker_id: WorkerId,
)
    requires
        forall|w: WorkerId|
            #[trigger] node_to_collect.contains_key(w) ==> node_to_collect[w] == !has_worker(
                pre_applied,
                w,
            ),
        !has_worker(pre_applied, worker_id),
    ensures
        crate::node_to_collect::survives_worker_err(node_to_collect, worker_id),
{
}

/// The subscriptions that a mutation adds.
pub open spec fn subscriptions_added(m: Option<Mutation>) -> Seq<SubscriptionUpstreamInfo> {
    match m {
        Some(Mutation::Add(a)) => a.subscriptions_to_add@,
        _ => Seq::empty(),
    }
}

/// The subscriptions that a mutation drops.
pub open spec fn subscriptions_removed(m: Option<Mutation>) -> Seq<SubscriptionUpstreamInfo> {
    match m {
        Some(Mutation::DropSubscriptions { info }) => info@,
        _ => Seq::empty(),
    }
}

/// The control streams of the cluster and the messages waiting to go out on them.
pub struct ControlStreamManager {
    pub connected_nodes: Vec<ControlStreamNode>,
    pub workers: Vec<WorkerNode>,
    /// Messages for workers, oldest first, each with the worker it goes to.
    pub outbox: Vec<(WorkerId, StreamingControlStreamRequest)>,
}

impl ControlStreamManager {
    /// The ids of the connected workers, in order of connection.
    pub open spec fn connected_ids(&self) -> Seq<WorkerId> {
        self.connected_nodes@.map_values(|n: ControlStreamNode| n.worker_id)
    }

    pub open spec fn wf(&self) -> bool {
        self.connected_ids().no_duplicates()
    }

    pub fn new() -> (r: Self)
        ensures
            r.wf(),
            r.connected_nodes@.len() == 0,
            r.workers@.len() == 0,
            r.outbox@.len() == 0,
    {
        ControlStreamManager { connected_nodes: Vec::new(), workers: Vec::new(), outbox: Vec::new() }
    }

    pub fn is_connected(&self, worker_id: WorkerId) -> (r: bool)
        ensures
            r == self.connected_ids().contains(worker_id),
    {
        let mut i: usize = 0;
        while i < self.connected_nodes.len()
            invariant
                i <= self.connected_nodes@.len(),
                forall|k: int| 0 <= k < i ==> self.connected_ids()[k] != worker_id,
            decreases self.connected_nodes@.len() - i,
        {
            if self.connected_nodes[i].worker_id == worker_id {
                assert(self.connected_ids()[i as int] == worker_id);
                return true;
            }
            i = i + 1;
        }
        false
    }

    /// Drops every stream, worker and pending message.
    pub fn clear(&mut self)
        ensures
            final(self).wf(),
            final(self).connected_nodes@.len() == 0,
            final(self).workers@.len() == 0,
            final(self).outbox@.len() == 0,
    {
        *self = ControlStreamManager::new();
    }

    /// Takes the messages waiting to go out.
    pub fn take_outbox(&mut self) -> (r: Vec<(WorkerId, StreamingControlStreamRequest)>)
        ensures
            r@ == old(self).outbox@,
            final(self).outbox@.len() == 0,
            final(self).connected_nodes == old(self).connected_nodes,
            final(self).workers == old(self).workers,
    {
        let mut taken: Vec<(WorkerId, StreamingControlStreamRequest)> = Vec::new();
        taken.append(&mut self.outbox);
        taken
    }

    /// Records an open control stream to `worker_id`.
    pub fn add_connected(&mut self, worker_id: WorkerId)
        requires
            old(self).wf(),
            !old(self).connected_ids().contains(worker_id),
        ensures
            final(self).wf(),
            final(self).connected_ids() == old(self).connected_ids().push(worker_id),
            final(self).workers == old(self).workers,
            final(self).outbox == old(self).outbox,
    {
        self.connected_nodes.push(ControlStreamNode { worker_id });
        proof {
            assert(self.connected_ids() =~= old(self).connected_ids().push(worker_id));
        }
    }

    /// Forgets the control stream of `worker_id`.
    pub fn remove_connected(&mut self, worker_id: WorkerId)
        requires
            old(self).wf(),
        ensures
            final(self).wf(),
            !final(self).connected_ids().contains(worker_id),
            forall|w: WorkerId|
                w != worker_id ==> (final(self).connected_ids().contains(w)
                    <==> old(self).connected_ids().contains(w)),
            final(self).workers == old(self).workers,
            final(self).outbox == old(self).outbox,
    {
        let ghost old_ids = self.connected_ids();
        let mut i: usize = 0;
        while i < self.connected_nodes.len()
            invariant
                i <= self.connected_nodes@.len(),
                self.connected_ids() == old_ids,
                old_ids == old(self).connected_ids(),
                old_ids.no_duplicates(),
                self.workers == old(self).workers,
                self.outbox == old(self).outbox,
                forall|k: int| 0 <= k < i ==> old_ids[k] != worker_id,
            decreases self.connected_nodes@.len() - i,
        {
            if self.connected_nodes[i].worker_id == worker_id {
                assert(old_ids[i as int] == worker_id);
                self.connected_nodes.remove(i);
                proof {
                    let new_ids = self.connected_ids();
                    assert(new_ids =~= old_ids.remove(i as int));
                    assert forall|a: int, b: int|
                        0 <= a < b < new_ids.len() implies new_ids[a] != new_ids[b] by {
                        let oa = if a < i { a } else { a + 1 };
                        let ob = if b < i { b } else { b + 1 };
                        assert(new_ids[a] == old_ids[oa]);
                        assert(new_ids[b] == old_ids[ob]);
                    }
                    assert forall|w: WorkerId| w != worker_id implies (#[trigger] new_ids.contains(w)
                        <==> old_ids.contains(w)) by {
                        if old_ids.contains(w) {
                            let k = choose|k: int| 0 <= k < old_ids.len() && old_ids[k] == w;
                            assert(k != i);
                            let nk = if k < i { k } else { k - 1 };
                            assert(new_ids[nk] == w);
                        }
                        if new_ids.contains(w) {
                            let k = choose|k: int| 0 <= k < new_ids.len() && new_ids[k] == w;
                            let ok = if k < i { k } else { k + 1 };
                            assert(old_ids[ok] == w);
                        }
                    }
                    assert(!new_ids.contains(worker_id)) by {
                        if new_ids.contains(worker_id) {
                            let k = choose|k: int| 0 <= k < new_ids.len() && new_ids[k] == worker_id;
                            let ok = if k < i { k } else { k + 1 };
                            assert(old_ids[ok] == worker_id);
                            assert(old_ids[i as int] == worker_id);
                        }
                    }
                }
                return;
            }
            i = i + 1;
        }
    }

    /// Checks that every worker holding an actor of the fragments is connected.
    pub(crate) fn check_workers_connected(&self, fragments: &Vec<InflightFragmentInfo>) -> (r: Result<
        (),
        ControlStreamError,
    >)
        ensures
            r is Ok <==> all_workers_connected(fragments@, self.connected_ids()),
            r matches Err(e) ==> e matches ControlStreamError::UnconnectedWorker(w)
                && !self.connected_ids().contains(w),
    {
        let mut i: usize = 0;
        while i < fragments.len()
            invariant
                i <= fragments@.len(),
                forall|a: int, b: int|
                    0 <= a < i && 0 <= b < fragments@[a].actors@.len()
                        ==> self.connected_ids().contains(
                        #[trigger] fragments@[a].actors@[b].worker_id,
                    ),
            decreases fragments@.len() - i,
        {
            let actors = &fragments[i].actors;
            let mut j: usize = 0;
            while j < actors.len()
                invariant
                    i < fragments@.len(),
                    actors == fragments@[i as int].actors,
                    j <= actors@.len(),
                    forall|a: int, b: int|
                        0 <= a < i && 0 <= b < fragments@[a].actors@.len()
                            ==> self.connected_ids().contains(
                            #[trigger] fragments@[a].actors@[b].worker_id,
                        ),
                    forall|b: int|
                        0 <= b < j ==> self.connected_ids().contains(
                            #[trigger] actors@[b].worker_id,
                        ),
                decreases actors@.len() - j,
            {
                let w = actors[j].worker_id;
                if !self.is_connected(w) {
                    assert(fragments@[i as int].actors@[j as int].worker_id == w);
                    return Err(ControlStreamError::UnconnectedWorker(w));
                }
                j = j + 1;
            }
            i = i + 1;
        }
        Ok(())
    }

    /// Sends the barrier to every connected worker, with the actors of `pre_applied` on
    /// that worker to collect and the state tables of `applied` to sync. Returns who must
    /// acknowledge it: every connected worker, marked `true` where it holds no actor of
    /// `pre_applied`. Fails, sending nothing, where a worker holding such an actor is not
    /// connected.
    pub fn inject_barrier(
        &mut self,
        database_id: DatabaseId,
        creating_table_id: Option<TableId>,
        mutation: Option<Mutation>,
        barrier_info: &BarrierInfo,
        pre_applied: &Vec<InflightFragmentInfo>,
        applied: &Vec<InflightFragmentInfo>,
        new_actors: Option<Vec<ActorToBuild>>,
        subscriptions_to_add: Vec<SubscriptionUpstreamInfo>,
        subscriptions_to_remove: Vec<SubscriptionUpstreamInfo>,
    ) -> (r: Result<NodeToCollect, ControlStreamError>)
        requires
            old(self).wf(),
            valid_job_graph(creating_table_id),
        ensures
            final(self).wf(),
            final(self).connected_nodes == old(self).connected_nodes,
            final(self).workers == old(self).workers,
            r is Err <==> !all_workers_connected(pre_applied@, old(self).connected_ids()),
            r is Err ==> final(self).outbox == old(self).outbox,
            r matches Err(e) ==> e matches ControlStreamError::UnconnectedWorker(w)
                && !old(self).connected_ids().contains(w),
            r matches Ok(n) ==> {
                &&& forall|w: WorkerId| n@.contains_key(w) <==> old(self).connected_ids().contains(w)
                &&& forall|w: WorkerId|
                    #[trigger] n@.contains_key(w) ==> n@[w] == !has_worker(pre_applied@, w)
                &&& final(self).outbox@.len() == old(self).outbox@.len()
                    + old(self).connected_nodes@.len()
                &&& final(self).outbox@.subrange(0, old(self).outbox@.len() as int)
                    == old(self).outbox@
                &&& forall|k: int|
                    0 <= k < old(self).connected_nodes@.len() ==> is_barrier_for(
                        #[trigger] final(self).outbox@[old(self).outbox@.len() + k],
                        old(self).connected_ids()[k],
                        database_id,
                        partial_graph_id_of(creating_table_id),
                        barrier_info@,
                        pre_applied@,
                        applied@,
                        builds_of(new_actors),
                        subscriptions_to_add@,
                        subscriptions_to_remove@,
                        mutation_view(mutation),
                    )
            },
    {
        let partial_graph_id = to_partial_graph_id(creating_table_id);
        match self.check_workers_connected(pre_applied) {
            Ok(()) => {},
            Err(e) => {
                return Err(e);
            },
        }
        let table_ids_to_sync = existing_table_ids(applied);
        let ghost ids = self.connected_ids();
        let ghost old_len = self.outbox@.len();
        let mut node_need_collect: NodeToCollect = HashMap::new();
        let mut k: usize = 0;
        while k < self.connected_nodes.len()
            invariant
                k <= self.connected_nodes@.len(),
                ids == self.connected_ids(),
                ids == old(self).connected_ids(),
                ids.no_duplicates(),
                self.connected_nodes == old(self).connected_nodes,
                self.workers == old(self).workers,
                old_len == old(self).outbox@.len(),
                table_ids_to_sync@ == graph_table_ids(applied@),
                partial_graph_id == partial_graph_id_of(creating_table_id),
                forall|w: WorkerId|
                    node_need_collect@.contains_key(w) <==> ids.subrange(0, k as int).contains(w),
                forall|w: WorkerId|
                    #[trigger] node_need_collect@.contains_key(w) ==> node_need_collect@[w]
                        == !has_worker(pre_applied@, w),
                self.outbox@.len() == old_len + k,
                self.outbox@.subrange(0, old_len as int) == old(self).outbox@,
                forall|j: int|
                    0 <= j < k ==> is_barrier_for(
                        #[trigger] self.outbox@[old_len + j],
                        ids[j],
                        database_id,
                        partial_graph_id,
                        barrier_info@,
                        pre_applied@,
                        applied@,
                        builds_of(new_actors),
                        subscriptions_to_add@,
                        subscriptions_to_remove@,
                        mutation_view(mutation),
                    ),
            decreases self.connected_nodes@.len() - k,
        {
            let node_id = self.connected_nodes[k].worker_id;
            assert(node_id == ids[k as int]);
            let actor_ids_to_collect = actors_on_worker(pre_applied, node_id);
            let is_empty = actor_ids_to_collect.len() == 0;
            let req = InjectBarrierRequest {
                request_id: new_request_id(),
                prev_epoch: barrier_info.prev_epoch,
                curr_epoch: barrier_info.curr_epoch,
                kind: barrier_info.kind.duplicate(),
                mutation: duplicate_mutation(&mutation),
                database_id,
                actor_ids_to_collect,
                table_ids_to_sync: copy_ids(&table_ids_to_sync),
                partial_graph_id,
                actors_to_build: builds_for(&new_actors, node_id),
                subscriptions_to_add: copy_subscriptions(&subscriptions_to_add),
                subscriptions_to_remove: copy_subscriptions(&subscriptions_to_remove),
            };
            let ghost before = self.outbox@;
            self.outbox.push((node_id, StreamingControlStreamRequest::InjectBarrier(req)));
            node_need_collect.insert(node_id, is_empty);
            proof {
                let s0 = ids.subrange(0, k as int);
                let s1 = ids.subrange(0, k + 1);
                assert(s1 =~= s0.push(node_id));
                assert forall|w: WorkerId| #[trigger] s1.contains(w) <==> (s0.contains(w) || w == node_id) by {
                    if w == node_id {
                        assert(s1[k as int] == w);
                    } else if s0.contains(w) {
                        let i = choose|i: int| 0 <= i < s0.len() && s0[i] == w;
                        assert(s1[i] == w);
                    } else if s1.contains(w) {
                        let i = choose|i: int| 0 <= i < s1.len() && s1[i] == w;
                        assert(s0[i] == w);
                    }
                }
                assert(self.outbox@ == before.push(self.outbox@.last()));
                assert(self.outbox@.subrange(0, old_len as int) =~= before.subrange(0, old_len as int));
            }
            k = k + 1;
        }
        proof {
            assert(ids.subrange(0, ids.len() as int) =~= ids);
        }
        Ok(node_need_collect)
    }

    /// Tells every connected worker to create the partial graph of `creating_job_id`.
    pub fn add_partial_graph(&mut self, database_id: DatabaseId, creating_job_id: Option<TableId>)
        requires
            old(self).wf(),
            valid_job_graph(creating_job_id),
        ensures
            final(self).wf(),
            final(self).connected_nodes == old(self).connected_nodes,
            final(self).workers == old(self).workers,
            final(self).outbox@ == old(self).outbox@ + old(self).connected_ids().map_values(
                |w: WorkerId|
                    (
                        w,
                        StreamingControlStreamRequest::CreatePartialGraph {
                            database_id,
                            partial_graph_id: partial_graph_id_of(creating_job_id),
                        },
                    ),
            ),
    {
        let partial_graph_id = to_partial_graph_id(creating_job_id);
        let ghost ids = self.connected_ids();
        let ghost f = |w: WorkerId|
            (w, StreamingControlStreamRequest::CreatePartialGraph { database_id, partial_graph_id });
        let mut k: usize = 0;
        while k < self.connected_nodes.len()
            invariant
                k <= self.connected_nodes@.len(),
                ids == self.connected_ids(),
                ids == old(self).connected_ids(),
                self.connected_nodes == old(self).connected_nodes,
                self.workers == old(self).workers,
                partial_graph_id == partial_graph_id_of(creating_job_id),
                f == |w: WorkerId|
                    (w, StreamingControlStreamRequest::CreatePartialGraph { database_id, partial_graph_id }),
                self.outbox@ == old(self).outbox@ + ids.subrange(0, k as int).map_values(f),
            decreases self.connected_nodes@.len() - k,
        {
            let w = self.connected_nodes[k].worker_id;
            self.outbox.push(
                (w, StreamingControlStreamRequest::CreatePartialGraph { database_id, partial_graph_id }),
            );
            proof {
                assert(ids.subrange(0, k + 1).map_values(f) =~= ids.subrange(0, k as int).map_values(
                    f,
                ).push(f(w)));
            }
            k = k + 1;
        }
        assert(ids.subrange(0, ids.len() as int) =~= ids);
    }

    /// Tells every connected worker to remove the partial graphs of the jobs; nothing is
    /// sent for no jobs.
    pub fn remove_partial_graph(&mut self, database_id: DatabaseId, creating_job_ids: Vec<TableId>)
        requires
            old(self).wf(),
            forall|i: int|
                0 <= i < creating_job_ids@.len() ==> #[trigger] creating_job_ids@[i]
                    != DATABASE_PARTIAL_GRAPH_ID,
        ensures
            final(self).wf(),
            final(self).connected_nodes == old(self).connected_nodes,
            final(self).workers == old(self).workers,
            creating_job_ids@.len() == 0 ==> final(self).outbox == old(self).outbox,
            creating_job_ids@.len() > 0 ==> {
                &&& final(self).outbox@.len() == old(self).outbox@.len()
                    + old(self).connected_nodes@.len()
                &&& final(self).outbox@.subrange(0, old(self).outbox@.len() as int)
                    == old(self).outbox@
                &&& forall|k: int|
                    0 <= k < old(self).connected_nodes@.len() ==> {
                        &&& (#[trigger] final(self).outbox@[old(self).outbox@.len() + k]).0
                            == old(self).connected_ids()[k]
                        &&& final(self).outbox@[old(self).outbox@.len() + k].1 matches
                            StreamingControlStreamRequest::RemovePartialGraph {
                            database_id: d,
                            partial_graph_ids: ids,
                        } && d == database_id && ids@ == creating_job_ids@
                    }
            },
    {
        if creating_job_ids.len() == 0 {
            return;
        }
        let ghost ids = self.connected_ids();
        let ghost old_len = self.outbox@.len();
        let mut k: usize = 0;
        while k < self.connected_nodes.len()
            invariant
                k <= self.connected_nodes@.len(),
                ids == self.connected_ids(),
                ids == old(self).connected_ids(),
                self.connected_nodes == old(self).connected_nodes,
                self.workers == old(self).workers,
                old_len == old(self).outbox@.len(),
                self.outbox@.len() == old_len + k,
                self.outbox@.subrange(0, old_len as int) == old(self).outbox@,
                forall|j: int|
                    0 <= j < k ==> {
                        &&& (#[trigger] self.outbox@[old_len + j]).0 == ids[j]
                        &&& self.outbox@[old_len + j].1 matches
                            StreamingControlStreamRequest::RemovePartialGraph {
                            database_id: d,
                            partial_graph_ids: gids,
                        } && d == database_id && gids@ == creating_job_ids@
                    },
            decreases self.connected_nodes@.len() - k,
        {
            let w = self.connected_nodes[k].worker_id;
            let ghost before = self.outbox@;
            self.outbox.push(
                (
                    w,
                    StreamingControlStreamRequest::RemovePartialGraph {
                        database_id,
                        partial_graph_ids: copy_ids(&creating_job_ids),
                    },
                ),
            );
            proof {
                assert(self.outbox@.subrange(0, old_len as int) =~= before.subrange(0, old_len as int));
            }
            k = k + 1;
        }
    }

    /// Tells every connected worker to reset the database; returns the workers told.
    pub fn reset_database(&mut self, database_id: DatabaseId, reset_request_id: u32) -> (r: Vec<
        WorkerId,
    >)
        requires
            old(self).wf(),
        ensures
            final(self).wf(),
            r@ == old(self).connected_ids(),
            final(self).connected_nodes == old(self).connected_nodes,
            final(self).workers == old(self).workers,
            final(self).outbox@ == old(self).outbox@ + old(self).connected_ids().map_values(
                |w: WorkerId|
                    (w, StreamingControlStreamRequest::ResetDatabase { database_id, reset_request_id }),
            ),
    {
        let ghost ids = self.connected_ids();
        let ghost f = |w: WorkerId|
            (w, StreamingControlStreamRequest::ResetDatabase { database_id, reset_request_id });
        let mut sent: Vec<WorkerId> = Vec::new();
        let mut k: usize = 0;
        while k < self.connected_nodes.len()
            invariant
                k <= self.connected_nodes@.len(),
                ids == self.connected_ids(),
                ids == old(self).connected_ids(),
                self.connected_nodes == old(self).connected_nodes,
                self.workers == old(self).workers,
                f == |w: WorkerId|
                    (w, StreamingControlStreamRequest::ResetDatabase { database_id, reset_request_id }),
                self.outbox@ == old(self).outbox@ + ids.subrange(0, k as int).map_values(f),
                sent@ == ids.subrange(0, k as int),
            decreases self.connected_nodes@.len() - k,
        {
            let w = self.connected_nodes[k].worker_id;
            self.outbox.push(
                (w, StreamingControlStreamRequest::ResetDatabase { database_id, reset_request_id }),
            );
            sent.push(w);
            proof {
                assert(ids.subrange(0, k + 1).map_values(f) =~= ids.subrange(0, k as int).map_values(
                    f,
                ).push(f(w)));
                assert(sent@ =~= ids.subrange(0, k + 1));
            }
            k = k + 1;
        }
        assert(ids.subrange(0, ids.len() as int) =~= ids);
        sent
    }

    /// Takes what a worker's response stream yielded. Anything but an acknowledgement or
    /// a reset response is an error, and the worker's stream is dropped.
    pub fn on_stream_message(&mut self, worker_id: WorkerId, msg: StreamMessage) -> (r: Result<
        ControlResponse,
        ControlStreamError,
    >)
        requires
            old(self).wf(),
        ensures
            final(self).wf(),
            final(self).workers == old(self).workers,
            final(self).outbox == old(self).outbox,
            r is Ok <==> (msg is BarrierComplete || msg is ResetDatabase),
            r is Ok ==> final(self).connected_nodes == old(self).connected_nodes,
            r is Err ==> !final(self).connected_ids().contains(worker_id) && forall|w: WorkerId|
                w != worker_id ==> (final(self).connected_ids().contains(w)
                    <==> old(self).connected_ids().contains(w)),
            msg matches StreamMessage::BarrierComplete(resp) ==> r == Ok::<
                ControlResponse,
                ControlStreamError,
            >(ControlResponse::BarrierComplete(resp)),
            msg matches StreamMessage::EndOfStream ==> r == Err::<ControlResponse, ControlStreamError>(
                ControlStreamError::EndOfStream(worker_id),
            ),
            msg matches StreamMessage::StreamError(_) ==> r == Err::<
                ControlResponse,
                ControlStreamError,
            >(ControlStreamError::StreamFailed(worker_id)),
            msg matches StreamMessage::Empty ==> r == Err::<ControlResponse, ControlStreamError>(
                ControlStreamError::EmptyResponse(worker_id),
            ),
            msg matches StreamMessage::Shutdown ==> r == Err::<ControlResponse, ControlStreamError>(
                ControlStreamError::ShuttingDown(worker_id),
            ),
            msg matches StreamMessage::Init ==> r == Err::<ControlResponse, ControlStreamError>(
                ControlStreamError::UnexpectedInit(worker_id),
            ),
    {
        let result = match msg {
            StreamMessage::BarrierComplete(resp) => Ok(ControlResponse::BarrierComplete(resp)),
            StreamMessage::ResetDatabase { database_id, reset_request_id } => Ok(
                ControlResponse::ResetDatabase { database_id, reset_request_id },
            ),
            StreamMessage::EndOfStream => Err(ControlStreamError::EndOfStream(worker_id)),
            StreamMessage::StreamError(_) => Err(ControlStreamError::StreamFailed(worker_id)),
            StreamMessage::Empty => Err(ControlStreamError::EmptyResponse(worker_id)),
            StreamMessage::Shutdown => Err(ControlStreamError::ShuttingDown(worker_id)),
            StreamMessage::Init => Err(ControlStreamError::UnexpectedInit(worker_id)),
        };
        if result.is_err() {
            self.remove_connected(worker_id);
        }
        result
    }

    /// Registers a worker that joined. Returns whether a control stream must be opened
    /// to it; a known id must come back with the same address.
    pub fn register_worker(&mut self, node: WorkerNode) -> (r: Result<bool, ControlStreamError>)
        requires
            old(self).wf(),
        ensures
            final(self).wf(),
            final(self).connected_nodes == old(self).connected_nodes,
            final(self).outbox == old(self).outbox,
            r matches Ok(needs_connect) ==> needs_connect == !old(self).connected_ids().contains(
                node.id,
            ),
            (forall|i: int| 0 <= i < old(self).workers@.len() ==> (#[trigger] old(self).workers@[i]).id != node.id)
                ==> r is Ok && final(self).workers@ == old(self).workers@.push(node),
            (exists|i: int| 0 <= i < old(self).workers@.len() && (#[trigger] old(self).workers@[i]).id == node.id)
                ==> final(self).workers == old(self).workers,
            r == Err::<bool, ControlStreamError>(ControlStreamError::HostMismatch(node.id)) <==> exists|i: int|
                0 <= i < old(self).workers@.len() && (#[trigger] old(self).workers@[i]).id == node.id && !(
                old(self).workers@[i].host.host@ == node.host.host@ && old(self).workers@[i].host.port
                    == node.host.port) && forall|k: int| 0 <= k < i ==> old(self).workers@[k].id != node.id,
    {
        let mut i: usize = 0;
        while i < self.workers.len()
            invariant
                i <= self.workers@.len(),
                self.workers == old(self).workers,
                self.connected_nodes == old(self).connected_nodes,
                self.outbox == old(self).outbox,
                self.wf(),
                forall|j: int| 0 <= j < i ==> (#[trigger] self.workers@[j]).id != node.id,
            decreases self.workers@.len() - i,
        {
            if self.workers[i].id == node.id {
                if !same_host(&self.workers[i].host, &node.host) {
                    return Err(ControlStreamError::HostMismatch(node.id));
                }
                return Ok(!self.is_connected(node.id));
            }
            i = i + 1;
        }
        let id = node.id;
        self.workers.push(node);
        Ok(!self.is_connected(id))
    }

    /// Rebuilds the stream set from scratch after recovery: `nodes` become the known
    /// workers, and `opened[i]` tells whether a stream to `nodes[i]` could be opened.
    /// Returns the workers that could not be reached.
    pub fn reset(&mut self, nodes: Vec<WorkerNode>, opened: &Vec<bool>) -> (r: Vec<WorkerId>)
        requires
            nodes@.len() == opened@.len(),
            forall|a: int, b: int| 0 <= a < b < nodes@.len() ==> nodes@[a].id != nodes@[b].id,
        ensures
            final(self).wf(),
            final(self).workers@ == nodes@,
            final(self).outbox == old(self).outbox,
            final(self).connected_ids() == worker_ids_where(nodes@, opened@, true),
            r@ == worker_ids_where(nodes@, opened@, false),
    {
        let mut connected: Vec<ControlStreamNode> = Vec::new();
        let mut failed: Vec<WorkerId> = Vec::new();
        let mut i: usize = 0;
        while i < nodes.len()
            invariant
                i <= nodes@.len(),
                nodes@.len() == opened@.len(),
                forall|a: int, b: int| 0 <= a < b < nodes@.len() ==> nodes@[a].id != nodes@[b].id,
                connected@.map_values(|n: ControlStreamNode| n.worker_id) == worker_ids_where(
                    nodes@.subrange(0, i as int),
                    opened@.subrange(0, i as int),
                    true,
                ),
                connected@.map_values(|n: ControlStreamNode| n.worker_id).no_duplicates(),
                failed@ == worker_ids_where(
                    nodes@.subrange(0, i as int),
                    opened@.subrange(0, i as int),
                    false,
                ),
            decreases nodes@.len() - i,
        {
            let id = nodes[i].id;
            let ghost n0 = nodes@.subrange(0, i as int);
            let ghost o0 = opened@.subrange(0, i as int);
            proof {
                assert(nodes@.subrange(0, i + 1).drop_last() =~= n0);
                assert(opened@.subrange(0, i + 1).drop_last() =~= o0);
            }
            if opened[i] {
                proof {
                    lemma_ids_where_from(n0, o0, true);
                    assert forall|k: int| 0 <= k < n0.len() implies n0[k].id != id by {
                        assert(nodes@[k].id != nodes@[i as int].id);
                    }
                }
                let ghost before = connected@.map_values(|n: ControlStreamNode| n.worker_id);
                connected.push(ControlStreamNode { worker_id: id });
                proof {
                    let after = connected@.map_values(|n: ControlStreamNode| n.worker_id);
                    assert(after =~= before.push(id));
                    assert forall|a: int, b: int| 0 <= a < b < after.len() implies after[a] != after[b] by {
                        if b == after.len() - 1 {
                            assert(before.contains(after[a]));
                        }
                    }
                }
            } else {
                failed.push(id);
            }
            i = i + 1;
        }
        proof {
            assert(nodes@.subrange(0, nodes@.len() as int) =~= nodes@);
            assert(opened@.subrange(0, opened@.len() as int) =~= opened@);
        }
        self.workers = nodes;
        self.connected_nodes = connected;
        failed
    }

    /// The address of a registered worker.
    pub fn host_addr(&self, worker_id: WorkerId) -> (r: Option<HostAddress>)
        ensures
            r is Some <==> exists|i: int| 0 <= i < self.workers@.len() && (#[trigger] self.workers@[i]).id == worker_id,
    {
        let mut i: usize = 0;
        while i < self.workers.len()
            invariant
                i <= self.workers@.len(),
                forall|k: int| 0 <= k < i ==> (#[trigger] self.workers@[k]).id != worker_id,
            decreases self.workers@.len() - i,
        {
            if self.workers[i].id == worker_id {
                return Some(self.workers[i].host.clone());
            }
            i = i + 1;
        }
        None
    }

    /// Injects the barrier of a command into the steady-state graph of a database. The
    /// subscriptions that the command's mutation adds or drops travel with the barrier.
    pub fn inject_command_ctx_barrier(
        &mut self,
        database_id: DatabaseId,
        mutation: Option<Mutation>,
        barrier_info: &BarrierInfo,
        pre_applied_graph_info: &Vec<InflightFragmentInfo>,
        applied_graph_info: &Vec<InflightFragmentInfo>,
        actors_to_create: Option<Vec<ActorToBuild>>,
    ) -> (r: Result<NodeToCollect, ControlStreamError>)
        requires
            old(self).wf(),
        ensures
            final(self).wf(),
            r is Err <==> !all_workers_connected(pre_applied_graph_info@, old(self).connected_ids()),
            r is Err ==> final(self).outbox == old(self).outbox,
            r matches Ok(n) ==> forall|w: WorkerId|
                #[trigger] n@.contains_key(w) <==> old(self).connected_ids().contains(w),
            r matches Ok(n) ==> forall|w: WorkerId|
                #[trigger] n@.contains_key(w) ==> n@[w] == !has_worker(pre_applied_graph_info@, w),
            r is Ok ==> {
                &&& final(self).outbox@.len() == old(self).outbox@.len()
                    + old(self).connected_nodes@.len()
                &&& final(self).outbox@.subrange(0, old(self).outbox@.len() as int)
                    == old(self).outbox@
                &&& forall|k: int|
                    0 <= k < old(self).connected_nodes@.len() ==> is_barrier_for(
                        #[trigger] final(self).outbox@[old(self).outbox@.len() + k],
                        old(self).connected_ids()[k],
                        database_id,
                        DATABASE_PARTIAL_GRAPH_ID,
                        barrier_info@,
                        pre_applied_graph_info@,
                        applied_graph_info@,
                        builds_of(actors_to_create),
                        subscriptions_added(mutation),
                        subscriptions_removed(mutation),
                        mutation_view(mutation),
                    )
            },
    {
        let subscriptions_to_add = match &mutation {
            Some(Mutation::Add(add)) => copy_subscriptions(&add.subscriptions_to_add),
            _ => Vec::new(),
        };
        let subscriptions_to_remove = match &mutation {
            Some(Mutation::DropSubscriptions { info }) => copy_subscriptions(info),
            _ => Vec::new(),
        };
        self.inject_barrier(
            database_id,
            None,
            mutation,
            barrier_info,
            pre_applied_graph_info,
            applied_graph_info,
            actors_to_create,
            subscriptions_to_add,
            subscriptions_to_remove,
        )
    }
}

} // verus!
