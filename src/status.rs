//! The bootstrap state of a creating job: consuming its snapshot, then the upstream's
//! buffered log, then finishing.
use vstd::prelude::*;
use crate::epoch::{
    copy_epochs, epoch_at, from_physical_time, barrier_views, ActorId, BarrierInfo,
    BarrierInfoView, BarrierKind, BarrierKindView, MAX_PHYSICAL_TIME,
};
use crate::progress::BackfillProgressTracker;
use crate::protocol::{CreateMviewProgress, Mutation};

verus! {

/// The kind of a barrier fabricated during bootstrap.
#[derive(Clone, Copy, PartialEq, Eq, Debug)]
pub enum FakeBarrierKind {
    Initial,
    Barrier,
    Checkpoint,
}

/// The barrier that `new_fake_barrier` fabricates at fake time `t` with the pending
/// non-checkpoint epochs `pending`.
pub open spec fn fake_barrier(t: nat, pending: Seq<u64>, kind: FakeBarrierKind) -> BarrierInfoView {
    BarrierInfoView {
        prev_epoch: epoch_at(t) as u64,
        curr_epoch: epoch_at(t + 1) as u64,
        kind: match kind {
            FakeBarrierKind::Initial => BarrierKindView::Initial,
            FakeBarrierKind::Barrier => BarrierKindView::Barrier,
            FakeBarrierKind::Checkpoint => BarrierKindView::Checkpoint(
                pending.push(epoch_at(t) as u64),
            ),
        },
    }
}

/// The pending non-checkpoint epochs after fabricating a barrier of `kind`.
pub open spec fn pending_after_fake(t: nat, pending: Seq<u64>, kind: FakeBarrierKind) -> Seq<u64> {
    match kind {
        FakeBarrierKind::Barrier => pending.push(epoch_at(t) as u64),
        _ => Seq::empty(),
    }
}

/// Fabricates the next barrier of a job's own backfill: its epochs are one tick of fake
/// physical time apart, and non-checkpoint epochs gather until a checkpoint takes them.
pub fn new_fake_barrier(
    prev_epoch_fake_physical_time: &mut u64,
    pending_non_checkpoint_barriers: &mut Vec<u64>,
    kind: FakeBarrierKind,
) -> (r: BarrierInfo)
    requires
        *old(prev_epoch_fake_physical_time) < MAX_PHYSICAL_TIME,
    ensures
        *final(prev_epoch_fake_physical_time) == *old(prev_epoch_fake_physical_time) + 1,
        r@ == fake_barrier(
            *old(prev_epoch_fake_physical_time) as nat,
            old(pending_non_checkpoint_barriers)@,
            kind,
        ),
        final(pending_non_checkpoint_barriers)@ == pending_after_fake(
            *old(prev_epoch_fake_physical_time) as nat,
            old(pending_non_checkpoint_barriers)@,
            kind,
        ),
{
    let prev_epoch = from_physical_time(*prev_epoch_fake_physical_time);
    *prev_epoch_fake_physical_time = *prev_epoch_fake_physical_time + 1;
    let curr_epoch = from_physical_time(*prev_epoch_fake_physical_time);
    pending_non_checkpoint_barriers.push(prev_epoch);
    let kind = match kind {
        FakeBarrierKind::Initial => {
            *pending_non_checkpoint_barriers = Vec::new();
            BarrierKind::Initial
        },
        FakeBarrierKind::Barrier => BarrierKind::Barrier,
        FakeBarrierKind::Checkpoint => {
            let taken = copy_epochs(pending_non_checkpoint_barriers);
            *pending_non_checkpoint_barriers = Vec::new();
            BarrierKind::Checkpoint(taken)
        },
    };
    BarrierInfo { prev_epoch, curr_epoch, kind }
}

/// Where a creating job stands in its bootstrap.
pub enum CreatingStreamingJobStatus {
    /// Replaying the job's own snapshot with fabricated epochs, while the upstream's
    /// barriers are kept aside.
    ConsumingSnapshot {
        prev_epoch_fake_physical_time: u64,
        pending_upstream_barriers: Vec<BarrierInfo>,
        snapshot_tracker: BackfillProgressTracker,
        snapshot_backfill_actors: Vec<ActorId>,
        backfill_epoch: u64,
        pending_non_checkpoint_barriers: Vec<u64>,
    },
    /// Replaying the upstream's buffered log.
    ConsumingLogStore {
        log_store_progress_tracker: BackfillProgressTracker,
        /// The buffered barriers still to be injected, as one batch.
        barriers_to_inject: Option<Vec<BarrierInfo>>,
    },
    /// Caught up at this epoch: draining the epochs in flight before the merge.
    Finishing(u64),
}

/// The batch that ends the snapshot stage: a checkpoint from the current fake epoch to
/// the backfill epoch, followed by the upstream barriers kept aside.
pub open spec fn snapshot_exit_batch(
    fake_time: nat,
    pending: Seq<u64>,
    backfill_epoch: u64,
    upstream: Seq<BarrierInfoView>,
) -> Seq<BarrierInfoView> {
    seq![
        BarrierInfoView {
            prev_epoch: epoch_at(fake_time) as u64,
            curr_epoch: backfill_epoch,
            kind: BarrierKindView::Checkpoint(pending.push(backfill_epoch)),
        },
    ] + upstream
}

/// The views of a pending batch, empty where there is none.
pub open spec fn batch_views(batch: Option<Vec<BarrierInfo>>) -> Seq<BarrierInfoView> {
    match batch {
        Some(v) => barrier_views(v@),
        None => Seq::empty(),
    }
}

/// `new` is `old` after the actors' backfill reports `progress`: a finishing job is
/// untouched, the log-store stage tracks its actors, and the snapshot stage moves to
/// the log store, with the batch that ends it, once its actors are done.
pub open spec fn progress_applied(
    old: CreatingStreamingJobStatus,
    new: CreatingStreamingJobStatus,
    progress: Seq<CreateMviewProgress>,
) -> bool {
    &&& old is Finishing ==> new == old
    &&& !(old is Finishing) ==> !(new is Finishing)
    &&& old is ConsumingLogStore ==> new is ConsumingLogStore
    &&& old is ConsumingLogStore ==> (new.log_store_drained() <==> (old->barriers_to_inject is None
        && crate::progress::still_ongoing(old->log_store_progress_tracker.ongoing_actors@, progress).len() == 0))
    &&& old is ConsumingLogStore ==> new->log_store_progress_tracker.ongoing_actors@
        == crate::progress::still_ongoing(old->log_store_progress_tracker.ongoing_actors@, progress)
    &&& old is ConsumingSnapshot ==> (new is ConsumingLogStore <==> crate::progress::still_ongoing(
        old->snapshot_tracker.ongoing_actors@,
        progress,
    ).len() == 0)
    &&& old is ConsumingSnapshot ==> !new.log_store_drained()
    &&& old is ConsumingSnapshot && new is ConsumingLogStore ==> (new->barriers_to_inject matches Some(batch)
        && barrier_views(batch@) == snapshot_exit_batch(
        old->prev_epoch_fake_physical_time as nat,
        old->pending_non_checkpoint_barriers@,
        old->backfill_epoch,
        barrier_views(old->pending_upstream_barriers@),
    ))
}

/// `a - b`, or zero where `b` is larger.
pub open spec fn saturating_sub(a: u64, b: u64) -> u64 {
    if a >= b {
        (a - b) as u64
    } else {
        0
    }
}

impl CreatingStreamingJobStatus {
    pub open spec fn wf(&self) -> bool {
        self matches CreatingStreamingJobStatus::ConsumingSnapshot {
            prev_epoch_fake_physical_time,
            ..
        } ==> prev_epoch_fake_physical_time <= MAX_PHYSICAL_TIME
    }

    /// Another epoch can be fabricated.
    pub open spec fn can_fabricate(&self) -> bool {
        self matches CreatingStreamingJobStatus::ConsumingSnapshot {
            prev_epoch_fake_physical_time,
            ..
        } ==> prev_epoch_fake_physical_time < MAX_PHYSICAL_TIME
    }

    pub open spec fn spec_is_finishing(&self) -> bool {
        self is Finishing
    }

    pub fn is_finishing(&self) -> (r: bool)
        ensures
            r == self.spec_is_finishing(),
    {
        match self {
            CreatingStreamingJobStatus::Finishing(_) => true,
            _ => false,
        }
    }

    /// The log-store stage is done: its tracker reports finished and no batch is left.
    pub open spec fn log_store_drained(&self) -> bool {
        self matches CreatingStreamingJobStatus::ConsumingLogStore {
            log_store_progress_tracker,
            barriers_to_inject,
        } && barriers_to_inject is None && log_store_progress_tracker.finished()
    }

    /// The barriers to inject for the job when the upstream moves to a new epoch. While
    /// consuming the snapshot, the upstream barrier is kept aside and one fake epoch is
    /// fabricated; while consuming the log, the pending batch goes out followed by the
    /// upstream barrier; while finishing, nothing.
    pub fn on_new_upstream_epoch(&mut self, barrier_info: &BarrierInfo) -> (r: Vec<
        (BarrierInfo, Option<Mutation>),
    >)
        requires
            old(self).wf(),
            old(self).can_fabricate(),
            !(barrier_info.kind is Initial),
        ensures
            final(self).wf(),
            forall|i: int| 0 <= i < r@.len() ==> (#[trigger] r@[i]).1 is None,
            match *old(self) {
                CreatingStreamingJobStatus::ConsumingSnapshot {
                    prev_epoch_fake_physical_time: t,
                    pending_upstream_barriers: up,
                    snapshot_tracker: tr,
                    snapshot_backfill_actors: acts,
                    backfill_epoch: be,
                    pending_non_checkpoint_barriers: pend,
                } => {
                    let kind = if barrier_info.kind is Barrier {
                        FakeBarrierKind::Barrier
                    } else {
                        FakeBarrierKind::Checkpoint
                    };
                    &&& r@.len() == 1
                    &&& r@[0].0@ == fake_barrier(t as nat, pend@, kind)
                    &&& *final(self) matches CreatingStreamingJobStatus::ConsumingSnapshot {
                        prev_epoch_fake_physical_time: t2,
                        pending_upstream_barriers: up2,
                        snapshot_tracker: tr2,
                        snapshot_backfill_actors: acts2,
                        backfill_epoch: be2,
                        pending_non_checkpoint_barriers: pend2,
                    } && t2 == t + 1 && barrier_views(up2@) == barrier_views(up@).push(
                        barrier_info@,
                    ) && tr2 == tr && acts2 == acts && be2 == be && pend2@ == pending_after_fake(
                        t as nat,
                        pend@,
                        kind,
                    )
                },
                CreatingStreamingJobStatus::ConsumingLogStore {
                    log_store_progress_tracker: tr,
                    barriers_to_inject: batch,
                } => {
                    &&& barrier_views(r@.map_values(|p: (BarrierInfo, Option<Mutation>)| p.0))
                        == batch_views(batch).push(barrier_info@)
                    &&& *final(self) matches CreatingStreamingJobStatus::ConsumingLogStore {
                        log_store_progress_tracker: tr2,
                        barriers_to_inject: batch2,
                    } && tr2 == tr && batch2 is None
                },
                CreatingStreamingJobStatus::Finishing(e) => {
                    &&& r@.len() == 0
                    &&& *final(self) == CreatingStreamingJobStatus::Finishing(e)
                },
            },
    {
        match self {
            CreatingStreamingJobStatus::ConsumingSnapshot {
                prev_epoch_fake_physical_time,
                pending_upstream_barriers,
                pending_non_checkpoint_barriers,
                ..
            } => {
                let ghost up0 = pending_upstream_barriers@;
                pending_upstream_barriers.push(barrier_info.duplicate());
                proof {
                    assert(barrier_views(pending_upstream_barriers@) =~= barrier_views(up0).push(
                        barrier_info@,
                    ));
                }
                let kind = match barrier_info.kind {
                    BarrierKind::Barrier => FakeBarrierKind::Barrier,
                    _ => FakeBarrierKind::Checkpoint,
                };
                let fake = new_fake_barrier(
                    prev_epoch_fake_physical_time,
                    pending_non_checkpoint_barriers,
                    kind,
                );
                let mut r: Vec<(BarrierInfo, Option<Mutation>)> = Vec::new();
                r.push((fake, None));
                r
            },
            CreatingStreamingJobStatus::ConsumingLogStore { barriers_to_inject, .. } => {
                let mut r: Vec<(BarrierInfo, Option<Mutation>)> = Vec::new();
                let ghost bv = batch_views(*barriers_to_inject);
                match barriers_to_inject.take() {
                    Some(batch) => {
                        let mut i: usize = 0;
                        while i < batch.len()
                            invariant
                                i <= batch@.len(),
                                bv == barrier_views(batch@),
                                r@.len() == i,
                                forall|k: int| 0 <= k < i ==> (#[trigger] r@[k]).0@ == batch@[k]@,
                                forall|k: int| 0 <= k < r@.len() ==> (#[trigger] r@[k]).1 is None,
                            decreases batch@.len() - i,
                        {
                            r.push((batch[i].duplicate(), None));
                            i = i + 1;
                        }
                        assert(barrier_views(r@.map_values(|p: (BarrierInfo, Option<Mutation>)| p.0))
                            =~= bv);
                    },
                    None => {},
                }
                let ghost before = r@;
                r.push((barrier_info.duplicate(), None));
                proof {
                    assert(barrier_views(r@.map_values(|p: (BarrierInfo, Option<Mutation>)| p.0))
                        =~= barrier_views(
                        before.map_values(|p: (BarrierInfo, Option<Mutation>)| p.0),
                    ).push(barrier_info@));
                }
                r
            },
            CreatingStreamingJobStatus::Finishing(_) => Vec::new(),
        }
    }

    /// The merge into the steady-state graph starts at `barrier_info`: the job is now
    /// finishing at its previous epoch.
    pub fn start_consume_upstream(&mut self, barrier_info: &BarrierInfo)
        requires
            *old(self) is ConsumingLogStore,
        ensures
            *final(self) == CreatingStreamingJobStatus::Finishing(barrier_info.prev_epoch),
    {
        *self = CreatingStreamingJobStatus::Finishing(barrier_info.prev_epoch);
    }

    /// Applies the actors' backfill reports. When the snapshot stage finishes, the job
    /// moves on to the log store with the batch that ends the snapshot stage.
    pub fn update_progress(&mut self, progress: &Vec<CreateMviewProgress>)
        requires
            old(self).wf(),
        ensures
            final(self).wf(),
            progress_applied(*old(self), *final(self), progress@),
    {
        match self {
            CreatingStreamingJobStatus::ConsumingSnapshot {
                prev_epoch_fake_physical_time,
                pending_upstream_barriers,
                snapshot_tracker,
                snapshot_backfill_actors,
                backfill_epoch,
                pending_non_checkpoint_barriers,
            } => {
                snapshot_tracker.update(progress);
                if snapshot_tracker.is_finished() {
                    let be = *backfill_epoch;
                    let mut pend = copy_epochs(pending_non_checkpoint_barriers);
                    pend.push(be);
                    let prev_epoch = from_physical_time(*prev_epoch_fake_physical_time);
                    let mut batch: Vec<BarrierInfo> = Vec::new();
                    batch.push(
                        BarrierInfo {
                            prev_epoch,
                            curr_epoch: be,
                            kind: BarrierKind::Checkpoint(pend),
                        },
                    );
                    let ghost head = batch@;
                    let mut i: usize = 0;
                    while i < pending_upstream_barriers.len()
                        invariant
                            i <= pending_upstream_barriers@.len(),
                            batch@.len() == i + 1,
                            batch@[0] == head[0],
                            head.len() == 1,
                            forall|k: int|
                                0 <= k < i ==> (#[trigger] batch@[k + 1])@
                                    == pending_upstream_barriers@[k]@,
                        decreases pending_upstream_barriers@.len() - i,
                    {
                        batch.push(pending_upstream_barriers[i].duplicate());
                        i = i + 1;
                    }
                    assert(barrier_views(batch@) =~= barrier_views(head) + barrier_views(
                        pending_upstream_barriers@,
                    )) by {
                        assert forall|k: int| 0 < k < batch@.len() implies batch@[k]@
                            == pending_upstream_barriers@[k - 1]@ by {
                            assert(batch@[(k - 1) + 1]@ == pending_upstream_barriers@[k - 1]@);
                        }
                    }
                    let last_prev = batch[batch.len() - 1].prev_epoch;
                    let lag = if last_prev >= be {
                        last_prev - be
                    } else {
                        0
                    };
                    let tracker = BackfillProgressTracker::new(snapshot_backfill_actors, lag);
                    proof {
                        assert(barrier_views(batch@) =~= snapshot_exit_batch(
                            *prev_epoch_fake_physical_time as nat,
                            (*old(self))->pending_non_checkpoint_barriers@,
                            be,
                            barrier_views(pending_upstream_barriers@),
                        ));
                    }
                    *self = CreatingStreamingJobStatus::ConsumingLogStore {
                        log_store_progress_tracker: tracker,
                        barriers_to_inject: Some(batch),
                    };
                }
            },
            CreatingStreamingJobStatus::ConsumingLogStore { log_store_progress_tracker, .. } => {
                log_store_progress_tracker.update(progress);
            },
            CreatingStreamingJobStatus::Finishing(_) => {},
        }
    }
}

} // verus!
