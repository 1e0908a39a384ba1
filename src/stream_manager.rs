//! The job lifecycle: one tracked execution per creating job, cancellation, drops,
//! subscriptions, replacement and rescheduling, each decided here and carried out by
//! the caller as ledger commands.
use std::collections::HashMap;
use vstd::prelude::*;
use crate::command::{Command, CreateStreamingJobType};
use crate::control_stream::WorkerNode;
use crate::epoch::{copy_ids, ActorId, DatabaseId, FragmentId, TableId, WorkerId};
use crate::graph_info::{InflightActorInfo, InflightFragmentInfo};

verus! {

broadcast use vstd::std_specs::hash::group_hash_axioms;

/// One in-flight creation of a job, with the channel that can still cancel it.
pub struct StreamingJobExecution {
    pub id: TableId,
    /// The cancellation channel has not been used yet.
    pub has_shutdown_tx: bool,
}

impl StreamingJobExecution {
    pub fn new(id: TableId) -> (r: Self)
        ensures
            r.id == id,
            r.has_shutdown_tx,
    {
        StreamingJobExecution { id, has_shutdown_tx: true }
    }
}

/// The terminal outcomes a creation task reports to the call that waits on it.
pub enum CreatingState {
    Failed { reason: String },
    /// The job is being cancelled; the waiting call acknowledges when done.
    Canceling,
    Created { version: u64 },
}

/// The jobs being created through this manager, by id.
pub struct CreatingStreamingJobInfo {
    pub streaming_jobs: HashMap<TableId, StreamingJobExecution>,
}

/// What `cancel_jobs` decided for a list of job ids.
pub struct CancelPlan {
    /// Tracked jobs whose cancellation channel was taken: signal `Canceling` on it.
    pub to_signal: Vec<TableId>,
    /// Jobs that are not tracked here: cancel them through the ledger.
    pub recovered: Vec<TableId>,
}

impl CreatingStreamingJobInfo {
    pub open spec fn tracks(&self, id: TableId) -> bool {
        self.streaming_jobs@.contains_key(id)
    }

    /// The job is tracked and its cancellation channel is still unused.
    pub open spec fn can_signal(&self, id: TableId) -> bool {
        self.streaming_jobs@.contains_key(id) && self.streaming_jobs@[id].has_shutdown_tx
    }

    pub fn new() -> (r: Self)
        ensures
            r.streaming_jobs@ == Map::<TableId, StreamingJobExecution>::empty(),
    {
        CreatingStreamingJobInfo { streaming_jobs: HashMap::new() }
    }

    /// Tracks a job's execution, replacing an earlier one of the same id.
    pub fn add_job(&mut self, job: StreamingJobExecution)
        ensures
            final(self).streaming_jobs@ == old(self).streaming_jobs@.insert(job.id, job),
    {
        let id = job.id;
        self.streaming_jobs.insert(id, job);
    }

    /// Stops tracking a job.
    pub fn delete_job(&mut self, job_id: TableId)
        ensures
            final(self).streaming_jobs@ == old(self).streaming_jobs@.remove(job_id),
    {
        self.streaming_jobs.remove(&job_id);
    }

    /// Splits the jobs to cancel: a tracked job whose channel is unused has it taken, to
    /// be signalled; a tracked job whose channel was already taken is left alone; a job
    /// not tracked is left to the ledger. The channel is taken once, so no job is
    /// signalled twice.
    pub fn cancel_jobs(&mut self, job_ids: &Vec<TableId>) -> (r: CancelPlan)
        ensures
            final(self).streaming_jobs@.dom() == old(self).streaming_jobs@.dom(),
            r.to_signal@ == first_signalled(job_ids@, *old(self)),
            r.recovered@ == job_ids@.filter(|id: TableId| !old(self).tracks(id)),
            forall|id: TableId| job_ids@.contains(id) ==> !final(self).can_signal(id),
            forall|id: TableId|
                !job_ids@.contains(id) ==> (final(self).can_signal(id) <==> old(self).can_signal(id)),
    {
        let mut to_signal: Vec<TableId> = Vec::new();
        let mut recovered: Vec<TableId> = Vec::new();
        let mut k: usize = 0;
        while k < job_ids.len()
            invariant
                k <= job_ids@.len(),
                self.streaming_jobs@.dom() == old(self).streaming_jobs@.dom(),
                to_signal@ == first_signalled(job_ids@.subrange(0, k as int), *old(self)),
                recovered@ == job_ids@.subrange(0, k as int).filter(|id: TableId| !old(self).tracks(id)),
                forall|i: int| 0 <= i < k ==> !self.can_signal(#[trigger] job_ids@[i]),
                forall|id: TableId|
                    !job_ids@.subrange(0, k as int).contains(id) ==> (self.can_signal(id)
                        <==> old(self).can_signal(id)),
            decreases job_ids@.len() - k,
        {
            let id = job_ids[k];
            let ghost s0 = job_ids@.subrange(0, k as int);
            proof {
                assert(job_ids@.subrange(0, k + 1) =~= s0.push(id));
                reveal(Seq::filter);
                assert(s0.push(id).drop_last() =~= s0);
                assert(s0.push(id).last() == id);
                assert(s0.push(id).filter(|x: TableId| !old(self).tracks(x)) == if !old(self).tracks(id) {
                    s0.filter(|x: TableId| !old(self).tracks(x)).push(id)
                } else {
                    s0.filter(|x: TableId| !old(self).tracks(x))
                });
                if s0.contains(id) {
                    let i = choose|i: int| 0 <= i < s0.len() && s0[i] == id;
                    assert(job_ids@[i] == id);
                    assert(!self.can_signal(id));
                } else {
                    assert(self.can_signal(id) == old(self).can_signal(id));
                }
            }
            let entry = self.streaming_jobs.get(&id);
            match entry {
                Some(job) => {
                    if job.has_shutdown_tx {
                        let taken = StreamingJobExecution { id: job.id, has_shutdown_tx: false };
                        self.streaming_jobs.insert(id, taken);
                        to_signal.push(id);
                        proof {
                            assert(self.streaming_jobs@.dom() =~= old(self).streaming_jobs@.dom());
                        }
                    }
                },
                None => {
                    recovered.push(id);
                },
            }
            proof {
                assert forall|x: TableId| !job_ids@.subrange(0, k + 1).contains(x) implies (self.can_signal(x)
                    <==> old(self).can_signal(x)) by {
                    if x != id {
                        assert(!s0.contains(x)) by {
                            if s0.contains(x) {
                                let i = choose|i: int| 0 <= i < s0.len() && s0[i] == x;
                                assert(job_ids@.subrange(0, k + 1)[i] == x);
                            }
                        }
                    } else {
                        assert(job_ids@.subrange(0, k + 1)[k as int] == x);
                    }
                }
            }
            k = k + 1;
        }
        proof {
            assert(job_ids@.subrange(0, job_ids@.len() as int) =~= job_ids@);
            assert forall|id: TableId| job_ids@.contains(id) implies !self.can_signal(id) by {
                let i = choose|i: int| 0 <= i < job_ids@.len() && job_ids@[i] == id;
                assert(!self.can_signal(job_ids@[i]));
            }
        }
        CancelPlan { to_signal, recovered }
    }
}

/// The jobs among `ids` whose channel is taken, in order: each first occurrence of a
/// job whose cancellation channel is unused in `info`. A repeated id gets nothing.
pub open spec fn first_signalled(ids: Seq<TableId>, info: CreatingStreamingJobInfo) -> Seq<TableId>
    decreases ids.len(),
{
    if ids.len() == 0 {
        Seq::empty()
    } else {
        let rest = first_signalled(ids.drop_last(), info);
        if info.can_signal(ids.last()) && !ids.drop_last().contains(ids.last()) {
            rest.push(ids.last())
        } else {
            rest
        }
    }
}

/// Why a lifecycle request failed.
#[derive(Clone, PartialEq, Eq, Debug)]
pub enum StreamJobError {
    /// The creation task reported a failure.
    Failed(String),
    /// The job was cancelled while being created.
    Cancelled,
    /// The creation task went away without reporting an outcome.
    NoNotification,
    /// A recovered job cannot be cancelled: it is already created.
    AlreadyCreated(TableId),
}

/// What the call waiting on a creation does next.
pub enum CreateStep {
    /// The wait ends with this result.
    Done(Result<u64, StreamJobError>),
    /// Run this cancel command on this database, then report its outcome.
    IssueCancel(DatabaseId, Command),
    /// Wait for the next state.
    KeepWaiting,
}

/// How a creation that the caller waited on ended.
pub enum CreateOutcome {
    Created(u64),
    Failed(String),
    Cancelled,
    ChannelClosed,
}

/// What a cancellation of a tracked creating job does, from what the caller found.
#[derive(Clone, Copy, PartialEq, Eq, Debug)]
pub enum CancelAction {
    /// The creation was still queued and has been taken out: the job is cancelled.
    CancelledInQueue,
    /// Abort the job in the catalog and issue a cancel command, then it is cancelled.
    IssueCancelCommand,
    /// The job finished creating in the meantime: keep waiting for its outcome.
    KeepWaiting,
}

/// Decides the cancellation of a tracked creating job: a creation still in the queue
/// is simply dropped; one not yet created is cancelled by command; one already
/// created is not cancelled.
pub fn cancel_action(removed_from_queue: bool, already_created: bool) -> (r: CancelAction)
    ensures
        r == if removed_from_queue {
            CancelAction::CancelledInQueue
        } else if !already_created {
            CancelAction::IssueCancelCommand
        } else {
            CancelAction::KeepWaiting
        },
{
    if removed_from_queue {
        CancelAction::CancelledInQueue
    } else if !already_created {
        CancelAction::IssueCancelCommand
    } else {
        CancelAction::KeepWaiting
    }
}

/// The command that cancels a job not tracked here, after a restart: refused where the
/// job is already created, and none where its database is unknown.
pub fn recovered_cancel_command(
    job_id: TableId,
    already_created: bool,
    database_id: Option<DatabaseId>,
    actors: Vec<ActorId>,
) -> (r: Result<Option<(DatabaseId, Command)>, StreamJobError>)
    ensures
        already_created <==> r == Err::<Option<(DatabaseId, Command)>, StreamJobError>(
            StreamJobError::AlreadyCreated(job_id),
        ),
        !already_created ==> (r matches Ok(c) && (c is Some <==> database_id is Some)),
        r matches Ok(Some((d, c))) ==> database_id == Some(d) && (c matches Command::CancelStreamJob {
            job_id: j,
            actors: a,
        } && j == job_id && a == actors),
{
    if already_created {
        return Err(StreamJobError::AlreadyCreated(job_id));
    }
    match database_id {
        Some(d) => Ok(Some((d, Command::CancelStreamJob { job_id, actors }))),
        None => Ok(None),
    }
}

/// How a job's parallelism is set.
#[derive(Clone, Copy, PartialEq, Eq, Debug)]
pub enum TableParallelism {
    /// Follow the cluster's capacity.
    Adaptive,
    /// A fixed number of parallel actors.
    Fixed(u64),
    /// Set per fragment; not a valid target.
    Custom,
}

/// The parallelism a reschedule asks for.
#[derive(Clone, Copy, PartialEq, Eq, Debug)]
pub enum JobParallelismTarget {
    Update(TableParallelism),
    /// Recompute the actors for the current setting.
    Refresh,
}

/// The resource group a reschedule asks for.
#[derive(Clone, PartialEq, Eq, Debug)]
pub enum JobResourceGroupTarget {
    Update(String),
    Keep,
}

/// What a reschedule asks for.
#[derive(Clone, Debug)]
pub struct JobRescheduleTarget {
    pub parallelism: JobParallelismTarget,
    pub resource_group: JobResourceGroupTarget,
}

/// Why a reschedule is refused.
#[derive(Clone, PartialEq, Eq, Debug)]
pub enum RescheduleError {
    /// A job related to this one by no-shuffle edges is still being created.
    RelatedJobCreating { job_id: TableId, related: TableId },
    /// The requested parallelism exceeds the job's maximum.
    ExceedsMaxParallelism { parallelism: u64, max_parallelism: u64 },
    /// The requested parallelism exceeds what the schedulable workers offer.
    ExceedsAvailableParallelism { parallelism: u64, available_parallelism: u64 },
    /// A per-fragment parallelism cannot be a target.
    CustomParallelism,
    /// An adaptive parallelism cannot be a target here.
    AdaptiveParallelism,
    /// A refresh cannot be requested here.
    Refresh,
    /// The resource group cannot be changed here.
    ResourceGroupUpdate,
}

/// What to do once a reschedule is accepted.
pub enum RescheduleAction {
    /// Record the new targets without moving actors.
    PostApplyOnly { parallelism: Option<TableParallelism>, resource_group: Option<String> },
    /// Compute a reschedule plan, and apply it if it moves any actor.
    GeneratePlan,
}

/// The capacity the schedulable workers offer.
pub open spec fn schedulable_parallelism(workers: Seq<WorkerNode>) -> nat
    decreases workers.len(),
{
    if workers.len() == 0 {
        0
    } else {
        schedulable_parallelism(workers.drop_last()) + if workers.last().is_streaming_schedulable {
            workers.last().parallelism as nat
        } else {
            0
        }
    }
}

/// The parallelism that the schedulable workers offer.
pub fn available_parallelism(workers: &Vec<WorkerNode>) -> (r: u64)
    requires
        workers@.len() <= 0xFFFF_FFFF,
    ensures
        r == schedulable_parallelism(workers@),
{
    let mut sum: u64 = 0;
    let mut i: usize = 0;
    while i < workers.len()
        invariant
            i <= workers@.len(),
            workers@.len() <= 0xFFFF_FFFF,
            sum == schedulable_parallelism(workers@.subrange(0, i as int)),
            sum <= i * 0xFFFF_FFFF,
        decreases workers@.len() - i,
    {
        proof {
            assert(workers@.subrange(0, i + 1).drop_last() =~= workers@.subrange(0, i as int));
            assert(i * 0xFFFF_FFFF + 0xFFFF_FFFF <= 0xFFFF_FFFF * 0xFFFF_FFFF + 0xFFFF_FFFF) by (nonlinear_arith)
                requires i < 0xFFFF_FFFF;
        }
        if workers[i].is_streaming_schedulable {
            sum = sum + workers[i].parallelism as u64;
        }
        i = i + 1;
        proof {
            assert((i - 1) * 0xFFFF_FFFF + 0xFFFF_FFFF == i * 0xFFFF_FFFF) by (nonlinear_arith);
        }
    }
    assert(workers@.subrange(0, workers@.len() as int) =~= workers@);
    sum
}

/// The verdict on a reschedule request.
pub open spec fn reschedule_verdict(
    job_id: TableId,
    parallelism: JobParallelismTarget,
    available: u64,
    max_parallelism: u64,
    related_creating: Seq<TableId>,
) -> Option<RescheduleError> {
    if related_creating.len() > 0 {
        Some(RescheduleError::RelatedJobCreating { job_id, related: related_creating[0] })
    } else {
        match parallelism {
            JobParallelismTarget::Update(TableParallelism::Fixed(p)) => if p > max_parallelism {
                Some(RescheduleError::ExceedsMaxParallelism { parallelism: p, max_parallelism })
            } else if p > available {
                Some(
                    RescheduleError::ExceedsAvailableParallelism {
                        parallelism: p,
                        available_parallelism: available,
                    },
                )
            } else {
                None
            },
            JobParallelismTarget::Update(TableParallelism::Custom) => Some(
                RescheduleError::CustomParallelism,
            ),
            _ => None,
        }
    }
}

/// Validates a reschedule of `job_id` before anything is touched: no related job may
/// be creating, and a fixed parallelism may exceed neither the job's maximum nor what
/// the schedulable workers offer. An accepted deferred request only records its
/// targets; another computes a plan.
pub fn validate_reschedule(
    job_id: TableId,
    target: JobRescheduleTarget,
    deferred: bool,
    available: u64,
    max_parallelism: u64,
    related_creating: &Vec<TableId>,
) -> (r: Result<RescheduleAction, RescheduleError>)
    ensures
        r is Err <==> reschedule_verdict(job_id, target.parallelism, available, max_parallelism, related_creating@) is Some,
        r matches Err(e) ==> reschedule_verdict(job_id, target.parallelism, available, max_parallelism, related_creating@) == Some(e),
        r is Ok ==> (deferred <==> r->Ok_0 is PostApplyOnly),
        r matches Ok(RescheduleAction::PostApplyOnly { parallelism: p, resource_group: g }) ==> {
            &&& p == match target.parallelism {
                JobParallelismTarget::Update(t) => Some(t),
                JobParallelismTarget::Refresh => None,
            }
            &&& g == match target.resource_group {
                JobResourceGroupTarget::Update(s) => Some(s),
                JobResourceGroupTarget::Keep => None,
            }
        },
{
    if related_creating.len() > 0 {
        return Err(RescheduleError::RelatedJobCreating { job_id, related: related_creating[0] });
    }
    match target.parallelism {
        JobParallelismTarget::Update(TableParallelism::Fixed(p)) => {
            if p > max_parallelism {
                return Err(RescheduleError::ExceedsMaxParallelism { parallelism: p, max_parallelism });
            }
            if p > available {
                return Err(
                    RescheduleError::ExceedsAvailableParallelism {
                        parallelism: p,
                        available_parallelism: available,
                    },
                );
            }
        },
        JobParallelismTarget::Update(TableParallelism::Custom) => {
            return Err(RescheduleError::CustomParallelism);
        },
        _ => {},
    }
    if deferred {
        let parallelism = match target.parallelism {
            JobParallelismTarget::Update(t) => Some(t),
            JobParallelismTarget::Refresh => None,
        };
        let resource_group = match target.resource_group {
            JobResourceGroupTarget::Update(s) => Some(s),
            JobResourceGroupTarget::Keep => None,
        };
        Ok(RescheduleAction::PostApplyOnly { parallelism, resource_group })
    } else {
        Ok(RescheduleAction::GeneratePlan)
    }
}

/// Validates a reschedule of a CDC table's backfill: only a fixed parallelism, with the
/// resource group kept.
pub fn validate_cdc_table_backfill_target(target: &JobRescheduleTarget) -> (r: Result<
    (),
    RescheduleError,
>)
    ensures
        r == match target.parallelism {
            JobParallelismTarget::Update(TableParallelism::Fixed(_)) => match target.resource_group {
                JobResourceGroupTarget::Update(_) => Err(RescheduleError::ResourceGroupUpdate),
                JobResourceGroupTarget::Keep => Ok(()),
            },
            JobParallelismTarget::Update(TableParallelism::Custom) => Err(RescheduleError::CustomParallelism),
            JobParallelismTarget::Update(TableParallelism::Adaptive) => Err(RescheduleError::AdaptiveParallelism),
            JobParallelismTarget::Refresh => Err(RescheduleError::Refresh),
        },
{
    match target.parallelism {
        JobParallelismTarget::Update(TableParallelism::Fixed(_)) => {},
        JobParallelismTarget::Update(TableParallelism::Custom) => {
            return Err(RescheduleError::CustomParallelism);
        },
        JobParallelismTarget::Update(TableParallelism::Adaptive) => {
            return Err(RescheduleError::AdaptiveParallelism);
        },
        JobParallelismTarget::Refresh => {
            return Err(RescheduleError::Refresh);
        },
    }
    match target.resource_group {
        JobResourceGroupTarget::Update(_) => Err(RescheduleError::ResourceGroupUpdate),
        JobResourceGroupTarget::Keep => Ok(()),
    }
}

/// A job with snapshot backfill is bootstrapped on its own; else a job with a table
/// plan to replace sinks into that table; else it is created normally.
pub open spec fn job_type_of(has_snapshot_backfill: bool, replace_table: Option<TableId>) -> CreateStreamingJobType {
    if has_snapshot_backfill {
        CreateStreamingJobType::SnapshotBackfill
    } else {
        match replace_table {
            Some(t) => CreateStreamingJobType::SinkIntoTable { replace_table_id: t },
            None => CreateStreamingJobType::Normal,
        }
    }
}

/// How a job with these facts is created.
pub fn create_job_type(has_snapshot_backfill: bool, replace_table: Option<TableId>) -> (r: CreateStreamingJobType)
    ensures
        r == job_type_of(has_snapshot_backfill, replace_table),
{
    if has_snapshot_backfill {
        CreateStreamingJobType::SnapshotBackfill
    } else {
        match replace_table {
            Some(t) => CreateStreamingJobType::SinkIntoTable { replace_table_id: t },
            None => CreateStreamingJobType::Normal,
        }
    }
}

/// Options for creating a streaming job; none are defined yet.
pub struct CreateStreamingJobOption {}

/// The one-time facts needed to create a streaming job.
pub struct CreateStreamingJobContext {
    pub job_id: TableId,
    pub database_id: DatabaseId,
    /// The statement that defined the job.
    pub definition: String,
    pub mv_table_id: Option<u32>,
    pub create_type: crate::creating_job::CreateType,
    /// The job bootstraps from a snapshot of its upstreams.
    pub snapshot_backfill: bool,
    /// The table whose plan is replaced along with the creation, for a sink into a table.
    pub replace_table_job_id: Option<TableId>,
    pub option: CreateStreamingJobOption,
}

impl CreateStreamingJobContext {
    /// How the job is created.
    pub fn job_type(&self) -> (r: CreateStreamingJobType)
        ensures
            r == job_type_of(self.snapshot_backfill, self.replace_table_job_id),
    {
        create_job_type(self.snapshot_backfill, self.replace_table_job_id)
    }

    /// The command that creates the job, for its database.
    pub fn command(&self) -> (r: (DatabaseId, Command))
        ensures
            r == (
                self.database_id,
                Command::CreateStreamingJob {
                    job_id: self.job_id,
                    database_id: self.database_id,
                    job_type: job_type_of(self.snapshot_backfill, self.replace_table_job_id),
                },
            ),
    {
        (
            self.database_id,
            Command::CreateStreamingJob {
                job_id: self.job_id,
                database_id: self.database_id,
                job_type: self.job_type(),
            },
        )
    }
}

/// A subscription on a materialized view.
pub struct Subscription {
    pub id: u32,
    pub database_id: DatabaseId,
    pub dependent_table_id: TableId,
    pub retention_seconds: u64,
}

/// What a plan replacement needs from its context.
pub struct ReplaceStreamJobContext {
    pub database_id: DatabaseId,
    pub job_id: TableId,
    pub tmp_id: u32,
    /// The state table of a connector dropped with the replacement, if any.
    pub drop_table_connector_state_table_id: Option<TableId>,
}

/// A fragment of a job as the catalog holds it.
pub struct Fragment {
    pub fragment_id: FragmentId,
    pub actors: Vec<ActorId>,
    pub state_table_ids: Vec<TableId>,
}

/// The context of a sink whose schema is refreshed along with its upstream table.
pub struct AutoRefreshSchemaSinkContext {
    pub tmp_sink_id: u32,
    pub new_fragment: Fragment,
    /// The worker of each actor of the new fragment.
    pub actor_status: Vec<(ActorId, WorkerId)>,
}

/// The worker that `status` places `actor_id` on, where it places it at all.
pub open spec fn placed_on(status: Seq<(ActorId, WorkerId)>, actor_id: ActorId) -> Option<WorkerId>
    decreases status.len(),
{
    if status.len() == 0 {
        None
    } else if status[0].0 == actor_id {
        Some(status[0].1)
    } else {
        placed_on(status.drop_first(), actor_id)
    }
}

fn worker_of(status: &Vec<(ActorId, WorkerId)>, actor_id: ActorId) -> (r: Option<WorkerId>)
    ensures
        r == placed_on(status@, actor_id),
{
    let mut i: usize = 0;
    assert(status@.skip(0) =~= status@);
    while i < status.len()
        invariant
            i <= status@.len(),
            placed_on(status@.skip(i as int), actor_id) == placed_on(status@, actor_id),
        decreases status@.len() - i,
    {
        proof {
            assert(status@.skip(i as int).drop_first() =~= status@.skip(i + 1));
        }
        if status[i].0 == actor_id {
            return Some(status[i].1);
        }
        i = i + 1;
    }
    None
}

impl AutoRefreshSchemaSinkContext {
    /// The new fragment as a fragment in flight: each actor on the worker its status
    /// names. Every actor of the fragment must have a status.
    pub fn new_fragment_info(&self) -> (r: InflightFragmentInfo)
        requires
            forall|i: int|
                0 <= i < self.new_fragment.actors@.len() ==> placed_on(
                    self.actor_status@,
                    #[trigger] self.new_fragment.actors@[i],
                ) is Some,
        ensures
            r.fragment_id == self.new_fragment.fragment_id,
            r.state_table_ids@ == self.new_fragment.state_table_ids@,
            r.actors@.len() == self.new_fragment.actors@.len(),
            forall|i: int|
                0 <= i < r.actors@.len() ==> (#[trigger] r.actors@[i]).actor_id
                    == self.new_fragment.actors@[i] && Some(r.actors@[i].worker_id) == placed_on(
                    self.actor_status@,
                    self.new_fragment.actors@[i],
                ),
    {
        let mut actors: Vec<InflightActorInfo> = Vec::new();
        let mut i: usize = 0;
        while i < self.new_fragment.actors.len()
            invariant
                i <= self.new_fragment.actors@.len(),
                actors@.len() == i,
                forall|k: int|
                    0 <= k < self.new_fragment.actors@.len() ==> placed_on(
                        self.actor_status@,
                        #[trigger] self.new_fragment.actors@[k],
                    ) is Some,
                forall|k: int|
                    0 <= k < i ==> (#[trigger] actors@[k]).actor_id == self.new_fragment.actors@[k]
                        && Some(actors@[k].worker_id) == placed_on(
                        self.actor_status@,
                        self.new_fragment.actors@[k],
                    ),
            decreases self.new_fragment.actors@.len() - i,
        {
            let actor_id = self.new_fragment.actors[i];
            let worker_id = match worker_of(&self.actor_status, actor_id) {
                Some(w) => w,
                None => {
                    proof {
                        assert(placed_on(self.actor_status@, self.new_fragment.actors@[i as int]) is Some);
                    }
                    0
                },
            };
            actors.push(InflightActorInfo { actor_id, worker_id });
            i = i + 1;
        }
        InflightFragmentInfo {
            fragment_id: self.new_fragment.fragment_id,
            actors,
            state_table_ids: copy_ids(&self.new_fragment.state_table_ids),
        }
    }
}

/// Manages the streaming jobs of the cluster: tracks creations in flight and decides
/// the commands of each lifecycle request.
pub struct GlobalStreamManager {
    pub creating_job_info: CreatingStreamingJobInfo,
}

impl GlobalStreamManager {
    pub fn new() -> (r: Self)
        ensures
            r.creating_job_info.streaming_jobs@ == Map::<TableId, StreamingJobExecution>::empty(),
    {
        GlobalStreamManager { creating_job_info: CreatingStreamingJobInfo::new() }
    }

    /// Starts tracking the creation of `job_id`, with an unused cancellation channel.
    pub fn create_streaming_job(&mut self, job_id: TableId)
        ensures
            final(self).creating_job_info.can_signal(job_id),
            final(self).creating_job_info.streaming_jobs@ == old(self).creating_job_info.streaming_jobs@.insert(
                job_id,
                StreamingJobExecution { id: job_id, has_shutdown_tx: true },
            ),
    {
        self.creating_job_info.add_job(StreamingJobExecution::new(job_id));
    }

    /// Ends the creation of `job_id`: its record is removed, and the outcome becomes
    /// the caller's result.
    pub fn finish_streaming_job(&mut self, job_id: TableId, outcome: CreateOutcome) -> (r: Result<
        u64,
        StreamJobError,
    >)
        ensures
            !final(self).creating_job_info.tracks(job_id),
            final(self).creating_job_info.streaming_jobs@ == old(self).creating_job_info.streaming_jobs@.remove(job_id),
            r == match outcome {
                CreateOutcome::Created(v) => Ok(v),
                CreateOutcome::Failed(reason) => Err(StreamJobError::Failed(reason)),
                CreateOutcome::Cancelled => Err(StreamJobError::Cancelled),
                CreateOutcome::ChannelClosed => Err(StreamJobError::NoNotification),
            },
    {
        self.creating_job_info.delete_job(job_id);
        match outcome {
            CreateOutcome::Created(v) => Ok(v),
            CreateOutcome::Failed(reason) => Err(StreamJobError::Failed(reason)),
            CreateOutcome::Cancelled => Err(StreamJobError::Cancelled),
            CreateOutcome::ChannelClosed => Err(StreamJobError::NoNotification),
        }
    }

    /// Decides what the call waiting on the creation of `job_id` does with a state the
    /// creation task reported. A failure or a creation ends the wait. A cancellation of a
    /// creation still queued ends it as cancelled; one not yet created needs a cancel
    /// command for the actors built so far; one already created is not cancelled. The
    /// record of the job is removed exactly when the wait ends.
    pub fn on_creating_state(
        &mut self,
        database_id: DatabaseId,
        job_id: TableId,
        state: CreatingState,
        removed_from_queue: bool,
        already_created: bool,
        actors: Vec<ActorId>,
    ) -> (r: CreateStep)
        ensures
            r is Done ==> final(self).creating_job_info.streaming_jobs@ == old(self).creating_job_info.streaming_jobs@.remove(job_id),
            !(r is Done) ==> final(self).creating_job_info == old(self).creating_job_info,
            match state {
                CreatingState::Failed { reason } => r == CreateStep::Done(Err(StreamJobError::Failed(reason))),
                CreatingState::Created { version } => r == CreateStep::Done(Ok(version)),
                CreatingState::Canceling => if removed_from_queue {
                    r == CreateStep::Done(Err(StreamJobError::Cancelled))
                } else if !already_created {
                    r == CreateStep::IssueCancel(database_id, Command::CancelStreamJob { job_id, actors })
                } else {
                    r == CreateStep::KeepWaiting
                },
            },
    {
        match state {
            CreatingState::Failed { reason } => CreateStep::Done(
                self.finish_streaming_job(job_id, CreateOutcome::Failed(reason)),
            ),
            CreatingState::Created { version } => CreateStep::Done(
                self.finish_streaming_job(job_id, CreateOutcome::Created(version)),
            ),
            CreatingState::Canceling => match cancel_action(removed_from_queue, already_created) {
                CancelAction::CancelledInQueue => CreateStep::Done(
                    self.finish_streaming_job(job_id, CreateOutcome::Cancelled),
                ),
                CancelAction::IssueCancelCommand => CreateStep::IssueCancel(
                    database_id,
                    Command::CancelStreamJob { job_id, actors },
                ),
                CancelAction::KeepWaiting => CreateStep::KeepWaiting,
            },
        }
    }

    /// Ends the creation of `job_id` after its cancel command ran: cancelled where the
    /// command succeeded, failed with its error otherwise.
    pub fn on_cancel_command(&mut self, job_id: TableId, result: Result<(), String>) -> (r: Result<
        u64,
        StreamJobError,
    >)
        ensures
            final(self).creating_job_info.streaming_jobs@ == old(self).creating_job_info.streaming_jobs@.remove(job_id),
            r == match result {
                Ok(()) => Err::<u64, StreamJobError>(StreamJobError::Cancelled),
                Err(m) => Err::<u64, StreamJobError>(StreamJobError::Failed(m)),
            },
    {
        match result {
            Ok(()) => self.finish_streaming_job(job_id, CreateOutcome::Cancelled),
            Err(m) => self.finish_streaming_job(job_id, CreateOutcome::Failed(m)),
        }
    }

    /// Splits the jobs to cancel between those signalled through their channel and
    /// those cancelled through the ledger; nothing for no jobs.
    pub fn cancel_streaming_jobs(&mut self, table_ids: &Vec<TableId>) -> (r: CancelPlan)
        ensures
            r.to_signal@ == first_signalled(table_ids@, old(self).creating_job_info),
            r.recovered@ == table_ids@.filter(|id: TableId| !old(self).creating_job_info.tracks(id)),
            forall|id: TableId| table_ids@.contains(id) ==> !final(self).creating_job_info.can_signal(id),
    {
        if table_ids.len() == 0 {
            proof {
                reveal(Seq::filter);
            }
            return CancelPlan { to_signal: Vec::new(), recovered: Vec::new() };
        }
        self.creating_job_info.cancel_jobs(table_ids)
    }

    /// The command that drops jobs, or none where nothing is to be removed.
    pub fn drop_streaming_jobs(
        &self,
        database_id: DatabaseId,
        removed_actors: Vec<ActorId>,
        streaming_job_ids: Vec<TableId>,
        state_table_ids: Vec<TableId>,
        fragment_ids: Vec<FragmentId>,
    ) -> (r: Option<(DatabaseId, Command)>)
        ensures
            r is None <==> (removed_actors@.len() == 0 && streaming_job_ids@.len() == 0
                && state_table_ids@.len() == 0),
            r matches Some((d, c)) ==> d == database_id && c == (Command::DropStreamingJobs {
                table_fragments_ids: streaming_job_ids,
                actors: removed_actors,
                unregistered_state_table_ids: state_table_ids,
                unregistered_fragment_ids: fragment_ids,
            }),
    {
        if removed_actors.len() == 0 && streaming_job_ids.len() == 0 && state_table_ids.len() == 0 {
            return None;
        }
        Some((
            database_id,
            Command::DropStreamingJobs {
                table_fragments_ids: streaming_job_ids,
                actors: removed_actors,
                unregistered_state_table_ids: state_table_ids,
                unregistered_fragment_ids: fragment_ids,
            },
        ))
    }

    /// The command that replaces a job's plan; it drops the state table of a dropped
    /// connector, if any.
    pub fn replace_stream_job(&self, ctx: &ReplaceStreamJobContext) -> (r: (DatabaseId, Command))
        ensures
            r.0 == ctx.database_id,
            r.1 matches Command::ReplaceStreamJob { job_id, tmp_id, to_drop_state_table_ids: d }
                && job_id == ctx.job_id && tmp_id == ctx.tmp_id && d@ == match ctx.drop_table_connector_state_table_id {
                Some(t) => seq![t],
                None => Seq::empty(),
            },
    {
        let mut to_drop: Vec<TableId> = Vec::new();
        match ctx.drop_table_connector_state_table_id {
            Some(t) => {
                to_drop.push(t);
            },
            None => {},
        }
        proof {
            if ctx.drop_table_connector_state_table_id is Some {
                assert(to_drop@ =~= seq![ctx.drop_table_connector_state_table_id->Some_0]);
            } else {
                assert(to_drop@ =~= Seq::<TableId>::empty());
            }
        }
        (
            ctx.database_id,
            Command::ReplaceStreamJob {
                job_id: ctx.job_id,
                tmp_id: ctx.tmp_id,
                to_drop_state_table_ids: to_drop,
            },
        )
    }

    /// The command that adds a subscription.
    pub fn create_subscription(&self, subscription: &Subscription) -> (r: (DatabaseId, Command))
        ensures
            r == (
                subscription.database_id,
                Command::CreateSubscription {
                    subscription_id: subscription.id,
                    upstream_mv_table_id: subscription.dependent_table_id,
                    retention_second: subscription.retention_seconds,
                },
            ),
    {
        (
            subscription.database_id,
            Command::CreateSubscription {
                subscription_id: subscription.id,
                upstream_mv_table_id: subscription.dependent_table_id,
                retention_second: subscription.retention_seconds,
            },
        )
    }

    /// The command that removes a subscription.
    pub fn drop_subscription(&self, database_id: DatabaseId, subscription_id: u32, table_id: TableId) -> (r: (
        DatabaseId,
        Command,
    ))
        ensures
            r == (database_id, Command::DropSubscription { subscription_id, upstream_mv_table_id: table_id }),
    {
        (database_id, Command::DropSubscription { subscription_id, upstream_mv_table_id: table_id })
    }
}

} // verus!
