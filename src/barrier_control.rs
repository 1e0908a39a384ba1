//! The epoch ledger of one partial graph: the epochs in flight, who still owes an
//! acknowledgement for each, and which one may be committed next.
use vstd::prelude::*;
use crate::epoch::{BarrierKind, TableId, WorkerId};
use crate::node_to_collect::{
    after_worker_err, is_valid_after_worker_err, survives_worker_err, NodeToCollect,
};
use crate::protocol::BarrierCompleteResponse;

verus! {

broadcast use vstd::std_specs::hash::group_hash_axioms;

/// One epoch in flight.
pub struct EpochState {
    pub epoch: u64,
    pub node_to_collect: NodeToCollect,
    pub resps: Vec<BarrierCompleteResponse>,
    pub kind: BarrierKind,
}

impl EpochState {
    /// Every worker asked to acknowledge the epoch has done so.
    pub open spec fn is_collected(&self) -> bool {
        self.node_to_collect@.is_empty()
    }
}

/// The epochs of a queue, in order.
pub open spec fn epochs_of(q: Seq<EpochState>) -> Seq<u64> {
    q.map_values(|s: EpochState| s.epoch)
}

/// Each epoch is larger than the one before it.
pub open spec fn strictly_increasing(s: Seq<u64>) -> bool {
    forall|i: int, j: int| 0 <= i < j < s.len() ==> s[i] < s[j]
}

/// The index of the first epoch at or after `i` that is not yet collected.
pub open spec fn collected_prefix_from(q: Seq<EpochState>, i: int) -> int
    decreases q.len() - i,
{
    if i < 0 || i >= q.len() || !q[i].is_collected() {
        i
    } else {
        collected_prefix_from(q, i + 1)
    }
}

/// How many epochs at the front of the queue are fully collected.
pub open spec fn collected_prefix_len(q: Seq<EpochState>) -> int {
    collected_prefix_from(q, 0)
}

/// The acknowledgement of `worker_id` for `epoch` applied to one epoch in flight.
pub open spec fn acked(n: Map<WorkerId, bool>, s_epoch: u64, worker_id: WorkerId, epoch: u64) -> Map<
    WorkerId,
    bool,
> {
    if s_epoch == epoch && n.contains_key(worker_id) {
        n.remove(worker_id)
    } else {
        n
    }
}

/// `new` is `old` after recording `resp`: the acknowledging worker leaves the epoch it
/// names, where it was awaited there, and its response is kept with that epoch; all
/// else stays.
pub open spec fn collected(
    old: CreatingStreamingJobBarrierControl,
    new: CreatingStreamingJobBarrierControl,
    resp: BarrierCompleteResponse,
) -> bool {
    &&& new.queue@.len() == old.queue@.len()
    &&& forall|i: int|
        0 <= i < old.queue@.len() ==> {
            &&& (#[trigger] new.queue@[i]).epoch == old.queue@[i].epoch
            &&& new.queue@[i].kind == old.queue@[i].kind
            &&& new.queue@[i].node_to_collect@ == acked(
                old.queue@[i].node_to_collect@,
                old.queue@[i].epoch,
                resp.worker_id,
                resp.epoch,
            )
            &&& new.queue@[i].resps@ == if old.queue@[i].epoch == resp.epoch
                && old.queue@[i].node_to_collect@.contains_key(resp.worker_id) {
                old.queue@[i].resps@.push(resp)
            } else {
                old.queue@[i].resps@
            }
        }
    &&& new.injected == old.injected
    &&& new.committed == old.committed
    &&& new.completing == old.completing
    &&& new.is_first_committed == old.is_first_committed
    &&& new.last_enqueued_epoch == old.last_enqueued_epoch
    &&& new.job_id == old.job_id
    &&& new.backfill_epoch == old.backfill_epoch
}

/// The ledger of a partial graph.
pub struct CreatingStreamingJobBarrierControl {
    pub job_id: TableId,
    pub backfill_epoch: u64,
    /// Some epoch of this graph has been handed out for commit (now or before a restart).
    pub is_first_committed: bool,
    /// The epochs in flight, oldest first.
    pub queue: Vec<EpochState>,
    /// The epoch handed out for commit and not yet acknowledged as durable.
    pub completing: Option<u64>,
    /// The last epoch seen at the end of the collected front of the queue.
    pub max_collected_epoch: Option<u64>,
    /// The last epoch enqueued, if any.
    pub last_enqueued_epoch: Option<u64>,
    /// Every epoch ever enqueued, in order.
    pub injected: Ghost<Seq<u64>>,
    /// Every epoch committed, in order.
    pub committed: Ghost<Seq<u64>>,
}

impl CreatingStreamingJobBarrierControl {
    pub open spec fn wf(&self) -> bool {
        &&& strictly_increasing(self.injected@)
        &&& self.injected@ == self.committed@ + epochs_of(self.queue@)
        &&& self.last_enqueued_epoch == if self.injected@.len() == 0 {
            None::<u64>
        } else {
            Some(self.injected@.last())
        }
        &&& self.completing matches Some(e) ==> {
            &&& self.queue@.len() > 0
            &&& self.queue@[0].epoch == e
            &&& self.queue@[0].is_collected()
            &&& self.is_first_committed
        }
    }

    /// A new epoch may follow every epoch enqueued so far.
    pub open spec fn can_enqueue(&self, epoch: u64) -> bool {
        self.injected@.len() == 0 || self.injected@.last() < epoch
    }

    /// The epoch that `start_completing` may hand out under `bound`, if any.
    pub open spec fn ready_to_complete(&self, bound: Option<u64>) -> bool {
        &&& self.completing is None
        &&& self.queue@.len() > 0
        &&& self.queue@[0].is_collected()
        &&& (bound matches Some(b) ==> self.queue@[0].epoch < b)
    }

    /// Every epoch in flight survives the failure of `worker_id`.
    pub open spec fn survives_worker_err(&self, worker_id: WorkerId) -> bool {
        forall|i: int|
            0 <= i < self.queue@.len() ==> #[trigger] survives_worker_err(
                self.queue@[i].node_to_collect@,
                worker_id,
            )
    }

    pub fn new(job_id: TableId, backfill_epoch: u64, is_first_committed: bool) -> (r: Self)
        ensures
            r.wf(),
            r.job_id == job_id,
            r.backfill_epoch == backfill_epoch,
            r.is_first_committed == is_first_committed,
            r.queue@.len() == 0,
            r.completing is None,
            r.max_collected_epoch is None,
            r.injected@.len() == 0,
            r.committed@.len() == 0,
    {
        CreatingStreamingJobBarrierControl {
            job_id,
            backfill_epoch,
            is_first_committed,
            queue: Vec::new(),
            completing: None,
            max_collected_epoch: None,
            last_enqueued_epoch: None,
            injected: Ghost(Seq::empty()),
            committed: Ghost(Seq::empty()),
        }
    }

    pub fn is_empty(&self) -> (r: bool)
        ensures
            r == (self.queue@.len() == 0),
    {
        self.queue.len() == 0
    }

    pub fn inflight_barrier_count(&self) -> (r: usize)
        ensures
            r == self.queue@.len(),
    {
        self.queue.len()
    }

    /// Whether `epoch` may be enqueued next.
    pub fn accepts_epoch(&self, epoch: u64) -> (r: bool)
        requires
            self.wf(),
        ensures
            r == self.can_enqueue(epoch),
    {
        match self.last_enqueued_epoch {
            Some(last) => last < epoch,
            None => true,
        }
    }

    pub fn max_collected_epoch(&self) -> (r: Option<u64>)
        ensures
            r == self.max_collected_epoch,
    {
        self.max_collected_epoch
    }

    /// Moves `max_collected_epoch` to the end of the collected front of the queue.
    fn refresh_max_collected(&mut self)
        ensures
            final(self).queue == old(self).queue,
            final(self).completing == old(self).completing,
            final(self).is_first_committed == old(self).is_first_committed,
            final(self).injected == old(self).injected,
            final(self).committed == old(self).committed,
            final(self).last_enqueued_epoch == old(self).last_enqueued_epoch,
            final(self).job_id == old(self).job_id,
            final(self).backfill_epoch == old(self).backfill_epoch,
            final(self).max_collected_epoch == if collected_prefix_len(old(self).queue@) > 0 {
                Some(old(self).queue@[collected_prefix_len(old(self).queue@) - 1].epoch)
            } else {
                old(self).max_collected_epoch
            },
    {
        let mut i: usize = 0;
        while i < self.queue.len() && self.queue[i].node_to_collect.is_empty()
            invariant
                0 <= i <= self.queue@.len(),
                collected_prefix_from(self.queue@, i as int) == collected_prefix_len(self.queue@),
            decreases self.queue@.len() - i,
        {
            i = i + 1;
        }
        if i > 0 {
            self.max_collected_epoch = Some(self.queue[i - 1].epoch);
        }
    }

    /// Appends an epoch, with the workers that must acknowledge it.
    pub fn enqueue_epoch(&mut self, epoch: u64, node_to_collect: NodeToCollect, kind: BarrierKind)
        requires
            old(self).wf(),
            old(self).can_enqueue(epoch),
        ensures
            final(self).wf(),
            final(self).queue@.len() == old(self).queue@.len() + 1,
            final(self).queue@.subrange(0, old(self).queue@.len() as int) == old(self).queue@,
            final(self).queue@.last().epoch == epoch,
            final(self).queue@.last().node_to_collect == node_to_collect,
            final(self).queue@.last().kind@ == kind@,
            final(self).queue@.last().resps@.len() == 0,
            final(self).injected@ == old(self).injected@.push(epoch),
            final(self).committed == old(self).committed,
            final(self).completing == old(self).completing,
            final(self).is_first_committed == old(self).is_first_committed,
            final(self).job_id == old(self).job_id,
            final(self).backfill_epoch == old(self).backfill_epoch,
    {
        let state = EpochState { epoch, node_to_collect, resps: Vec::new(), kind };
        self.queue.push(state);
        self.injected = Ghost(self.injected@.push(epoch));
        self.last_enqueued_epoch = Some(epoch);
        proof {
            assert(epochs_of(self.queue@) =~= epochs_of(old(self).queue@).push(epoch));
            assert(self.injected@ =~= self.committed@ + epochs_of(self.queue@));
            assert(self.queue@.subrange(0, old(self).queue@.len() as int) =~= old(self).queue@);
        }
        self.refresh_max_collected();
    }

    /// Records the acknowledgement in `resp`. One for an epoch not in flight, or from a
    /// worker not asked for it, changes nothing but the collected mark.
    pub fn collect(&mut self, resp: BarrierCompleteResponse)
        requires
            old(self).wf(),
        ensures
            final(self).wf(),
            collected(*old(self), *final(self), resp),
    {
        let ghost old_q = self.queue@;
        let mut i: usize = 0;
        while i < self.queue.len() && self.queue[i].epoch != resp.epoch
            invariant
                0 <= i <= self.queue@.len(),
                self.queue@ == old_q,
                forall|j: int| 0 <= j < i ==> old_q[j].epoch != resp.epoch,
            decreases self.queue@.len() - i,
        {
            i = i + 1;
        }
        proof {
            assert forall|j: int| 0 <= j < old_q.len() && j != i implies old_q[j].epoch
                != resp.epoch by {
                if j > i && i < old_q.len() {
                    assert(self.injected@[self.committed@.len() + i] == old_q[i as int].epoch);
                    assert(self.injected@[self.committed@.len() + j] == old_q[j].epoch);
                }
            }
        }
        if i < self.queue.len() && self.queue[i].node_to_collect.contains_key(&resp.worker_id) {
            let mut state = self.queue.remove(i);
            state.node_to_collect.remove(&resp.worker_id);
            state.resps.push(resp);
            let ghost st = state;
            self.queue.insert(i, state);
            proof {
                assert(self.queue@ =~= old_q.update(i as int, st));
                assert(epochs_of(self.queue@) =~= epochs_of(old_q));
            }
        }
        self.refresh_max_collected();
    }

    /// Hands out the oldest fully collected epoch, below `bound` if one is given, for a
    /// durable commit. The flag is set only the first time an epoch of this graph is
    /// handed out.
    pub fn start_completing(&mut self, bound: Option<u64>) -> (r: Option<
        (u64, Vec<BarrierCompleteResponse>, bool),
    >)
        requires
            old(self).wf(),
            old(self).completing is None,
        ensures
            final(self).wf(),
            r is Some <==> old(self).ready_to_complete(bound),
            r matches Some((epoch, resps, first_commit)) ==> {
                &&& epoch == old(self).queue@[0].epoch
                &&& old(self).queue@[0].is_collected()
                &&& resps@ == old(self).queue@[0].resps@
                &&& first_commit == !old(self).is_first_committed
                &&& final(self).completing == Some(epoch)
                &&& final(self).is_first_committed
            },
            r is None ==> *final(self) == *old(self),
            epochs_of(final(self).queue@) == epochs_of(old(self).queue@),
            final(self).injected == old(self).injected,
            final(self).committed == old(self).committed,
            final(self).max_collected_epoch == old(self).max_collected_epoch,
            final(self).job_id == old(self).job_id,
            final(self).backfill_epoch == old(self).backfill_epoch,
    {
        if self.queue.len() == 0 || !self.queue[0].node_to_collect.is_empty() {
            return None;
        }
        let epoch = self.queue[0].epoch;
        match bound {
            Some(b) => {
                if epoch >= b {
                    return None;
                }
            },
            None => {},
        }
        let ghost old_q = self.queue@;
        let EpochState { epoch: e, node_to_collect, resps, kind } = self.queue.remove(0);
        self.queue.insert(0, EpochState { epoch: e, node_to_collect, resps: Vec::new(), kind });
        proof {
            assert(epochs_of(self.queue@) =~= epochs_of(old_q));
        }
        let first_commit = !self.is_first_committed;
        self.is_first_committed = true;
        self.completing = Some(epoch);
        Some((epoch, resps, first_commit))
    }

    /// The epoch handed out for commit is durable: it leaves the queue.
    pub fn ack_completed(&mut self, completed_epoch: u64)
        requires
            old(self).wf(),
            old(self).completing == Some(completed_epoch),
        ensures
            final(self).wf(),
            final(self).queue@ == old(self).queue@.drop_first(),
            final(self).committed@ == old(self).committed@.push(completed_epoch),
            final(self).injected == old(self).injected,
            final(self).completing is None,
            final(self).is_first_committed == old(self).is_first_committed,
            final(self).max_collected_epoch == old(self).max_collected_epoch,
            final(self).job_id == old(self).job_id,
            final(self).backfill_epoch == old(self).backfill_epoch,
    {
        let ghost old_q = self.queue@;
        self.queue.remove(0);
        self.completing = None;
        self.committed = Ghost(self.committed@.push(completed_epoch));
        proof {
            assert(self.queue@ =~= old_q.drop_first());
            assert(epochs_of(old_q) =~= seq![completed_epoch] + epochs_of(self.queue@));
            assert(self.injected@ =~= self.committed@ + epochs_of(self.queue@));
        }
    }

    /// Tells whether every epoch in flight can still complete after `worker_id` failed.
    /// Epochs are checked oldest first, up to the first that cannot; in those checked,
    /// the worker is dropped where it owned no actors.
    pub fn is_valid_after_worker_err(&mut self, worker_id: WorkerId) -> (r: bool)
        requires
            old(self).wf(),
        ensures
            final(self).wf(),
            r == old(self).survives_worker_err(worker_id),
            final(self).queue@.len() == old(self).queue@.len(),
            r ==> forall|i: int|
                0 <= i < old(self).queue@.len() ==> {
                    &&& (#[trigger] final(self).queue@[i]).epoch == old(self).queue@[i].epoch
                    &&& final(self).queue@[i].node_to_collect@ == after_worker_err(
                        old(self).queue@[i].node_to_collect@,
                        worker_id,
                    )
                },
            epochs_of(final(self).queue@) == epochs_of(old(self).queue@),
            final(self).injected == old(self).injected,
            final(self).committed == old(self).committed,
            final(self).completing == old(self).completing,
            final(self).is_first_committed == old(self).is_first_committed,
            final(self).job_id == old(self).job_id,
            final(self).backfill_epoch == old(self).backfill_epoch,
    {
        let ghost old_q = self.queue@;
        let mut i: usize = 0;
        while i < self.queue.len()
            invariant
                0 <= i <= self.queue@.len(),
                self.queue@.len() == old_q.len(),
                old_q == old(self).queue@,
                self.wf(),
                self.injected == old(self).injected,
                self.committed == old(self).committed,
                self.completing == old(self).completing,
                self.is_first_committed == old(self).is_first_committed,
                self.job_id == old(self).job_id,
                self.backfill_epoch == old(self).backfill_epoch,
                epochs_of(self.queue@) == epochs_of(old_q),
                forall|j: int|
                    0 <= j < i ==> survives_worker_err(#[trigger] old_q[j].node_to_collect@, worker_id),
                forall|j: int|
                    0 <= j < i ==> (#[trigger] self.queue@[j]).node_to_collect@ == after_worker_err(
                        old_q[j].node_to_collect@,
                        worker_id,
                    ),
                forall|j: int| i <= j < old_q.len() ==> #[trigger] self.queue@[j] == old_q[j],
            decreases self.queue@.len() - i,
        {
            let ghost before = self.queue@;
            let mut state = self.queue.remove(i);
            let valid = is_valid_after_worker_err(&mut state.node_to_collect, worker_id);
            let ghost st = state;
            self.queue.insert(i, state);
            proof {
                assert(self.queue@ =~= before.update(i as int, st));
                assert(epochs_of(self.queue@) =~= epochs_of(before));
                if self.completing is Some {
                    if i == 0 {
                        assert(old_q[0].is_collected());
                        assert(self.queue@[0].node_to_collect@ =~= old_q[0].node_to_collect@);
                    }
                }
            }
            if !valid {
                proof {
                    assert(!old(self).survives_worker_err(worker_id)) by {
                        assert(!survives_worker_err(old_q[i as int].node_to_collect@, worker_id));
                    }
                }
                return false;
            }
            i = i + 1;
        }
        proof {
            assert forall|j: int| 0 <= j < old_q.len() implies (#[trigger] self.queue@[j]).epoch
                == old_q[j].epoch by {
                assert(epochs_of(self.queue@)[j] == epochs_of(old_q)[j]);
            }
            assert forall|j: int| 0 <= j < old_q.len() implies #[trigger] survives_worker_err(
                old(self).queue@[j].node_to_collect@,
                worker_id,
            ) by {
                assert(survives_worker_err(old_q[j].node_to_collect@, worker_id));
            }
        }
        true
    }
}

/// Epochs are committed in the order in which they were injected, with none skipped and
/// none committed twice: the committed epochs are the first epochs injected, and they
/// strictly increase.
pub proof fn lemma_committed_epochs_follow_injection(l: &CreatingStreamingJobBarrierControl)
    requires
        l.wf(),
    ensures
        l.committed@.len() <= l.injected@.len(),
        l.committed@ == l.injected@.subrange(0, l.committed@.len() as int),
        strictly_increasing(l.committed@),
{
    assert(l.committed@ =~= l.injected@.subrange(0, l.committed@.len() as int));
}

/// Only a fully acknowledged epoch is ever handed out for commit.
pub proof fn lemma_completing_epoch_is_collected(l: &CreatingStreamingJobBarrierControl)
    requires
        l.wf(),
        l.completing is Some,
    ensures
        l.queue@.len() > 0,
        l.queue@[0].epoch == l.completing->Some_0,
        l.queue@[0].node_to_collect@.is_empty(),
{
}

/// A worker that owns no actors in any epoch in flight (it appears, if at all, as
/// trivially satisfied) never makes the graph's epochs invalid when it fails.
pub proof fn lemma_actorless_worker_keeps_epochs_valid(
    l: &CreatingStreamingJobBarrierControl,
    worker_id: WorkerId,
)
    requires
        l.wf(),
        forall|i: int|
            0 <= i < l.queue@.len() ==> (#[trigger] l.queue@[i].node_to_collect@).contains_key(
                worker_id,
            ) ==> l.queue@[i].node_to_collect@[worker_id],
    ensures
        l.survives_worker_err(worker_id),
{
}

} // verus!
