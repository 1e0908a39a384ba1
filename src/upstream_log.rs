//! Turning an upstream table's persisted epoch log into the barriers that a recovered
//! creating job replays.
use vstd::prelude::*;
use crate::epoch::{copy_epochs, BarrierInfo, BarrierInfoView, BarrierKind, BarrierKindView, barrier_views, is_epoch_chain};

verus! {

/// One entry of an upstream table's epoch log: the non-checkpoint epochs followed by
/// the checkpoint epoch that closes them.
pub struct LogEpochs {
    pub non_checkpoint_epochs: Vec<u64>,
    pub checkpoint_epoch: u64,
}

/// The epochs of one log entry in order, each marked when it opens the entry.
pub open spec fn entry_items(e: LogEpochs) -> Seq<(u64, bool)> {
    let all = e.non_checkpoint_epochs@.push(e.checkpoint_epoch);
    Seq::new(all.len(), |i: int| (all[i], i == 0))
}

/// The epochs of the log entries in order, each marked when it opens its entry.
pub open spec fn log_items(log: Seq<LogEpochs>) -> Seq<(u64, bool)>
    decreases log.len(),
{
    if log.len() == 0 {
        Seq::empty()
    } else {
        log_items(log.drop_last()) + entry_items(log.last())
    }
}

/// The index of the first entry whose checkpoint epoch is at least `epoch`, or the
/// length of the log where there is none.
pub open spec fn first_checkpoint_at_or_after(log: Seq<LogEpochs>, epoch: u64, from: int) -> int
    decreases log.len() - from,
{
    if from < 0 || from >= log.len() || log[from].checkpoint_epoch >= epoch {
        from
    } else {
        first_checkpoint_at_or_after(log, epoch, from + 1)
    }
}

/// The epoch at `i` exceeds the one before it (or `start`, for the first).
pub open spec fn rises_at(start: u64, items: Seq<(u64, bool)>, i: int) -> bool {
    items[i].0 > (if i == 0 {
        start
    } else {
        items[i - 1].0
    })
}

/// The epochs strictly increase, starting above `start`.
pub open spec fn increasing_from(start: u64, items: Seq<(u64, bool)>) -> bool {
    forall|i: int| 0 <= i < items.len() ==> #[trigger] rises_at(start, items, i)
}

#[verifier::opaque]
/// The barriers that replay `items` from `prev`: an epoch that opens its entry closes a
/// checkpoint with the pending epochs; the last barrier is a checkpoint up to `last_curr`.
pub open spec fn replay_barriers(
    prev: u64,
    pending: Seq<u64>,
    items: Seq<(u64, bool)>,
    last_curr: u64,
) -> Seq<BarrierInfoView>
    decreases items.len(),
{
    if items.len() == 0 {
        seq![BarrierInfoView { prev_epoch: prev, curr_epoch: last_curr, kind: BarrierKindView::Checkpoint(pending) }]
    } else {
        let (e, opens) = items[0];
        let pend = pending.push(prev);
        if opens {
            seq![BarrierInfoView { prev_epoch: prev, curr_epoch: e, kind: BarrierKindView::Checkpoint(pend) }]
                + replay_barriers(e, Seq::empty(), items.drop_first(), last_curr)
        } else {
            seq![BarrierInfoView { prev_epoch: prev, curr_epoch: e, kind: BarrierKindView::Barrier }]
                + replay_barriers(e, pend, items.drop_first(), last_curr)
        }
    }
}

/// The log holds `committed_epoch` as the checkpoint of the first entry that reaches
/// it, and its epochs after that entry strictly increase from it.
pub open spec fn log_resumable(log: Seq<LogEpochs>, committed_epoch: u64) -> bool {
    let j = first_checkpoint_at_or_after(log, committed_epoch, 0);
    &&& j < log.len()
    &&& log[j].checkpoint_epoch == committed_epoch
    &&& increasing_from(committed_epoch, log_items(log.skip(j + 1)))
}

/// The barriers that replay the log after `committed_epoch`, ending at `upstream_curr_epoch`.
pub open spec fn resolved_barriers(log: Seq<LogEpochs>, committed_epoch: u64, upstream_curr_epoch: u64) -> Seq<
    BarrierInfoView,
> {
    let j = first_checkpoint_at_or_after(log, committed_epoch, 0);
    replay_barriers(committed_epoch, Seq::empty(), log_items(log.skip(j + 1)), upstream_curr_epoch)
}

/// Why a persisted log cannot be replayed.
#[derive(Clone, Copy, PartialEq, Eq, Debug)]
pub enum LogResolveError {
    /// No checkpoint of the log reaches the committed epoch.
    CommittedEpochNotReached,
    /// The first checkpoint that reaches the committed epoch is not it.
    CommittedEpochNotCheckpoint,
    /// The log's epochs do not strictly increase after the committed epoch.
    EpochNotIncreasing,
}

proof fn lemma_replay_step(prev: u64, pending: Seq<u64>, items: Seq<(u64, bool)>, last_curr: u64)
    requires
        items.len() > 0,
    ensures
        replay_barriers(prev, pending, items, last_curr) == seq![
            BarrierInfoView {
                prev_epoch: prev,
                curr_epoch: items[0].0,
                kind: if items[0].1 {
                    BarrierKindView::Checkpoint(pending.push(prev))
                } else {
                    BarrierKindView::Barrier
                },
            },
        ] + replay_barriers(
            items[0].0,
            if items[0].1 {
                Seq::empty()
            } else {
                pending.push(prev)
            },
            items.drop_first(),
            last_curr,
        ),
{
    reveal(replay_barriers);
}

proof fn lemma_replay_end(prev: u64, pending: Seq<u64>, items: Seq<(u64, bool)>, last_curr: u64)
    requires
        items.len() == 0,
    ensures
        replay_barriers(prev, pending, items, last_curr) == seq![
            BarrierInfoView {
                prev_epoch: prev,
                curr_epoch: last_curr,
                kind: BarrierKindView::Checkpoint(pending),
            },
        ],
{
    reveal(replay_barriers);
}

fn flatten_log(log: &Vec<LogEpochs>, from: usize) -> (r: Vec<(u64, bool)>)
    requires
        from <= log@.len(),
    ensures
        r@ == log_items(log@.skip(from as int)),
{
    let mut r: Vec<(u64, bool)> = Vec::new();
    let mut i: usize = from;
    while i < log.len()
        invariant
            from <= i <= log@.len(),
            r@ == log_items(log@.subrange(from as int, i as int)),
        decreases log@.len() - i,
    {
        let entry = &log[i];
        let ghost before = r@;
        let mut k: usize = 0;
        while k < entry.non_checkpoint_epochs.len()
            invariant
                i < log@.len(),
                entry == &log@[i as int],
                k <= entry.non_checkpoint_epochs@.len(),
                r@ == before + entry_items(*entry).subrange(0, k as int),
            decreases entry.non_checkpoint_epochs@.len() - k,
        {
            r.push((entry.non_checkpoint_epochs[k], k == 0));
            k = k + 1;
            assert(r@ =~= before + entry_items(*entry).subrange(0, k as int));
        }
        r.push((entry.checkpoint_epoch, k == 0));
        proof {
            assert(r@ =~= before + entry_items(*entry));
            assert(log@.subrange(from as int, i + 1).drop_last() =~= log@.subrange(from as int, i as int));
        }
        i = i + 1;
    }
    assert(log@.subrange(from as int, log@.len() as int) =~= log@.skip(from as int));
    r
}

/// The barriers that a job recovered at `committed_epoch` replays from the upstream's
/// log: the log's epochs after the entry that `committed_epoch` checkpoints, chained
/// from it, and a last checkpoint up to `upstream_curr_epoch`.
pub fn resolve_upstream_log_epochs(
    log: &Vec<LogEpochs>,
    committed_epoch: u64,
    upstream_curr_epoch: u64,
) -> (r: Result<Vec<BarrierInfo>, LogResolveError>)
    ensures
        r is Ok <==> log_resumable(log@, committed_epoch),
        r matches Ok(v) ==> barrier_views(v@) == resolved_barriers(
            log@,
            committed_epoch,
            upstream_curr_epoch,
        ),
        r matches Err(e) ==> e == (if first_checkpoint_at_or_after(log@, committed_epoch, 0)
            >= log@.len() {
            LogResolveError::CommittedEpochNotReached
        } else if log@[first_checkpoint_at_or_after(log@, committed_epoch, 0)].checkpoint_epoch
            != committed_epoch {
            LogResolveError::CommittedEpochNotCheckpoint
        } else {
            LogResolveError::EpochNotIncreasing
        }),
{
    let mut j: usize = 0;
    while j < log.len() && log[j].checkpoint_epoch < committed_epoch
        invariant
            j <= log@.len(),
            first_checkpoint_at_or_after(log@, committed_epoch, j as int)
                == first_checkpoint_at_or_after(log@, committed_epoch, 0),
        decreases log@.len() - j,
    {
        j = j + 1;
    }
    if j >= log.len() {
        return Err(LogResolveError::CommittedEpochNotReached);
    }
    if log[j].checkpoint_epoch != committed_epoch {
        return Err(LogResolveError::CommittedEpochNotCheckpoint);
    }
    assert(first_checkpoint_at_or_after(log@, committed_epoch, j as int) == j);
    let items = flatten_log(log, j + 1);
    let ghost all = items@;
    let mut ret: Vec<BarrierInfo> = Vec::new();
    let mut prev_epoch = committed_epoch;
    let mut pending: Vec<u64> = Vec::new();
    let mut i: usize = 0;
    proof {
        assert(all.skip(0) =~= all);
        assert(pending@ =~= Seq::<u64>::empty());
        assert(barrier_views(ret@) =~= Seq::<BarrierInfoView>::empty());
    }
    while i < items.len()
        invariant
            i <= items@.len(),
            all == items@,
            j < log@.len(),
            j as int == first_checkpoint_at_or_after(log@, committed_epoch, 0),
            log@[j as int].checkpoint_epoch == committed_epoch,
            all == log_items(log@.skip(j + 1)),
            barrier_views(ret@) + replay_barriers(
                prev_epoch,
                pending@,
                all.skip(i as int),
                upstream_curr_epoch,
            ) == replay_barriers(committed_epoch, Seq::empty(), all, upstream_curr_epoch),
            prev_epoch == if i == 0 {
                committed_epoch
            } else {
                all[i - 1].0
            },
            forall|k: int| 0 <= k < i ==> #[trigger] rises_at(committed_epoch, all, k),
        decreases items@.len() - i,
    {
        let (epoch, opens) = items[i];
        if epoch <= prev_epoch {
            proof {
                assert(!rises_at(committed_epoch, all, i as int));
            }
            return Err(LogResolveError::EpochNotIncreasing);
        }
        let ghost prev_old = prev_epoch;
        let ghost pend_old = pending@;
        pending.push(prev_epoch);
        let ghost rest = all.skip(i as int);
        proof {
            assert(rest[0] == (epoch, opens));
            assert(rest.drop_first() =~= all.skip(i + 1));
        }
        let ghost before = barrier_views(ret@);
        if opens {
            let taken = copy_epochs(&pending);
            pending = Vec::new();
            ret.push(BarrierInfo { prev_epoch, curr_epoch: epoch, kind: BarrierKind::Checkpoint(taken) });
        } else {
            ret.push(BarrierInfo { prev_epoch, curr_epoch: epoch, kind: BarrierKind::Barrier });
        }
        proof {
            assert(barrier_views(ret@) =~= before.push(ret@.last()@));
            lemma_replay_step(prev_old, pend_old, rest, upstream_curr_epoch);
            assert(barrier_views(ret@) + replay_barriers(epoch, pending@, all.skip(i + 1), upstream_curr_epoch)
                =~= before + replay_barriers(prev_old, pend_old, rest, upstream_curr_epoch));
        }
        proof {
            assert(rises_at(committed_epoch, all, i as int));
        }
        prev_epoch = epoch;
        i = i + 1;
    }
    let ghost before = barrier_views(ret@);
    let ghost pend_last = pending@;
    ret.push(
        BarrierInfo {
            prev_epoch,
            curr_epoch: upstream_curr_epoch,
            kind: BarrierKind::Checkpoint(pending),
        },
    );
    proof {
        assert(all.skip(i as int) =~= Seq::<(u64, bool)>::empty());
        assert(barrier_views(ret@) =~= before.push(ret@.last()@));
        lemma_replay_end(prev_epoch, pend_last, all.skip(i as int), upstream_curr_epoch);
        assert(barrier_views(ret@) =~= before + replay_barriers(
            prev_epoch,
            pend_last,
            all.skip(i as int),
            upstream_curr_epoch,
        ));
        assert(log@.skip(j + 1) == log@.skip(first_checkpoint_at_or_after(log@, committed_epoch, 0) + 1));
    }
    Ok(ret)
}

/// The last epoch of `items`, or `start` where there is none.
pub open spec fn last_epoch_from(start: u64, items: Seq<(u64, bool)>) -> u64 {
    if items.len() == 0 {
        start
    } else {
        items.last().0
    }
}

proof fn lemma_replay_is_chain(prev: u64, pending: Seq<u64>, items: Seq<(u64, bool)>, last_curr: u64)
    requires
        increasing_from(prev, items),
        last_curr > last_epoch_from(prev, items),
    ensures
        is_epoch_chain(replay_barriers(prev, pending, items, last_curr)),
        replay_barriers(prev, pending, items, last_curr).len() == items.len() + 1,
        replay_barriers(prev, pending, items, last_curr)[0].prev_epoch == prev,
        replay_barriers(prev, pending, items, last_curr).last().curr_epoch == last_curr,
    decreases items.len(),
{
    if items.len() == 0 {
        lemma_replay_end(prev, pending, items, last_curr);
    } else {
        lemma_replay_step(prev, pending, items, last_curr);
        let rest = items.drop_first();
        let e = items[0].0;
        let pend = if items[0].1 { Seq::empty() } else { pending.push(prev) };
        assert(rises_at(prev, items, 0));
        assert forall|i: int| 0 <= i < rest.len() implies #[trigger] rises_at(e, rest, i) by {
            assert(rises_at(prev, items, i + 1));
        }
        if rest.len() > 0 {
            assert(rest.last() == items.last());
        }
        lemma_replay_is_chain(e, pend, rest, last_curr);
        let tail = replay_barriers(e, pend, rest, last_curr);
        let all = replay_barriers(prev, pending, items, last_curr);
        assert(all == seq![all[0]] + tail);
        assert forall|i: int| 0 <= i < all.len() implies #[trigger] all[i].prev_epoch < all[i].curr_epoch by {
            if i > 0 {
                assert(all[i] == tail[i - 1]);
            }
        }
        assert forall|i: int| 0 < i < all.len() implies #[trigger] all[i].prev_epoch == all[i - 1].curr_epoch by {
            assert(all[i] == tail[i - 1]);
            if i > 1 {
                assert(all[i - 1] == tail[i - 2]);
            }
        }
    }
}

/// The barriers replayed from a resumable log form one chain that starts at the
/// committed epoch and ends at the upstream's current epoch, when that epoch is past
/// the log: each barrier starts where the one before ended and moves time forward.
pub proof fn lemma_resolved_barriers_chain(
    log: Seq<LogEpochs>,
    committed_epoch: u64,
    upstream_curr_epoch: u64,
)
    requires
        log_resumable(log, committed_epoch),
        upstream_curr_epoch > last_epoch_from(
            committed_epoch,
            log_items(log.skip(first_checkpoint_at_or_after(log, committed_epoch, 0) + 1)),
        ),
    ensures
        is_epoch_chain(resolved_barriers(log, committed_epoch, upstream_curr_epoch)),
        resolved_barriers(log, committed_epoch, upstream_curr_epoch)[0].prev_epoch
            == committed_epoch,
        resolved_barriers(log, committed_epoch, upstream_curr_epoch).last().curr_epoch
            == upstream_curr_epoch,
{
    let j = first_checkpoint_at_or_after(log, committed_epoch, 0);
    lemma_replay_is_chain(committed_epoch, Seq::empty(), log_items(log.skip(j + 1)), upstream_curr_epoch);
}

proof fn lemma_replay_len(prev: u64, pending: Seq<u64>, items: Seq<(u64, bool)>, last_curr: u64)
    ensures
        replay_barriers(prev, pending, items, last_curr).len() == items.len() + 1,
        replay_barriers(prev, pending, items, last_curr)[0].prev_epoch == prev,
    decreases items.len(),
{
    if items.len() == 0 {
        lemma_replay_end(prev, pending, items, last_curr);
    } else {
        lemma_replay_step(prev, pending, items, last_curr);
        lemma_replay_len(
            items[0].0,
            if items[0].1 { Seq::empty() } else { pending.push(prev) },
            items.drop_first(),
            last_curr,
        );
    }
}

/// The replayed barriers are never empty, and the first starts at the committed epoch.
pub proof fn lemma_replay_nonempty(log: Seq<LogEpochs>, committed_epoch: u64, upstream_curr_epoch: u64)
    ensures
        resolved_barriers(log, committed_epoch, upstream_curr_epoch).len() >= 1,
        resolved_barriers(log, committed_epoch, upstream_curr_epoch)[0].prev_epoch == committed_epoch,
{
    let j = first_checkpoint_at_or_after(log, committed_epoch, 0);
    lemma_replay_len(committed_epoch, Seq::empty(), log_items(log.skip(j + 1)), upstream_curr_epoch);
}

/// The epoch pairs of barriers, in order.
pub open spec fn epoch_pairs(s: Seq<BarrierInfoView>) -> Seq<(u64, u64)> {
    s.map_values(|b: BarrierInfoView| (b.prev_epoch, b.curr_epoch))
}

/// The epoch pairs that replaying `items` from `prev` up to `last_curr` goes through.
pub open spec fn chain_pairs(prev: u64, items: Seq<(u64, bool)>, last_curr: u64) -> Seq<(u64, u64)>
    decreases items.len(),
{
    if items.len() == 0 {
        seq![(prev, last_curr)]
    } else {
        seq![(prev, items[0].0)] + chain_pairs(items[0].0, items.drop_first(), last_curr)
    }
}

proof fn lemma_replay_pairs(prev: u64, pending: Seq<u64>, items: Seq<(u64, bool)>, last_curr: u64)
    ensures
        epoch_pairs(replay_barriers(prev, pending, items, last_curr)) == chain_pairs(prev, items, last_curr),
    decreases items.len(),
{
    if items.len() == 0 {
        lemma_replay_end(prev, pending, items, last_curr);
        assert(epoch_pairs(replay_barriers(prev, pending, items, last_curr)) =~= seq![(prev, last_curr)]);
    } else {
        lemma_replay_step(prev, pending, items, last_curr);
        let pend = if items[0].1 { Seq::empty() } else { pending.push(prev) };
        lemma_replay_pairs(items[0].0, pend, items.drop_first(), last_curr);
        let tail = replay_barriers(items[0].0, pend, items.drop_first(), last_curr);
        let all = replay_barriers(prev, pending, items, last_curr);
        assert(epoch_pairs(all) =~= seq![(prev, items[0].0)] + epoch_pairs(tail));
    }
}

proof fn lemma_chain_pairs_split(prev: u64, xs: Seq<(u64, bool)>, ys: Seq<(u64, bool)>, last_curr: u64)
    ensures
        chain_pairs(prev, xs + ys, last_curr).len() == xs.len() + chain_pairs(
            last_epoch_from(prev, xs),
            ys,
            last_curr,
        ).len(),
        chain_pairs(prev, xs + ys, last_curr).skip(xs.len() as int) == chain_pairs(
            last_epoch_from(prev, xs),
            ys,
            last_curr,
        ),
    decreases xs.len(),
{
    if xs.len() > 0 {
        let rest = xs.drop_first();
        assert((xs + ys).drop_first() =~= rest + ys);
        assert((xs + ys)[0] == xs[0]);
        lemma_chain_pairs_split(xs[0].0, rest, ys, last_curr);
        assert(last_epoch_from(xs[0].0, rest) == last_epoch_from(prev, xs)) by {
            if rest.len() > 0 {
                assert(rest.last() == xs.last());
            }
        }
        let whole = chain_pairs(prev, xs + ys, last_curr);
        let tail = chain_pairs(xs[0].0, rest + ys, last_curr);
        assert(whole == seq![(prev, xs[0].0)] + tail);
        assert(whole.skip(xs.len() as int) =~= tail.skip(rest.len() as int));
    } else {
        assert(xs + ys =~= ys);
        assert(chain_pairs(prev, xs + ys, last_curr).skip(0) =~= chain_pairs(prev, ys, last_curr));
    }
}

proof fn lemma_log_items_concat(a: Seq<LogEpochs>, b: Seq<LogEpochs>)
    ensures
        log_items(a + b) == log_items(a) + log_items(b),
    decreases b.len(),
{
    if b.len() == 0 {
        assert(a + b =~= a);
        assert(log_items(b) =~= Seq::<(u64, bool)>::empty());
        assert(log_items(a) + log_items(b) =~= log_items(a));
    } else {
        lemma_log_items_concat(a, b.drop_last());
        assert((a + b).drop_last() =~= a + b.drop_last());
        assert((a + b).last() == b.last());
        assert(log_items(a + b) =~= log_items(a) + log_items(b));
    }
}

proof fn lemma_log_items_last(log: Seq<LogEpochs>)
    requires
        log.len() > 0,
    ensures
        log_items(log).len() > 0,
        log_items(log).last().0 == log.last().checkpoint_epoch,
{
    let e = entry_items(log.last());
    assert(e.len() > 0);
    assert(e.last().0 == log.last().checkpoint_epoch);
    assert(log_items(log) == log_items(log.drop_last()) + e);
}

proof fn lemma_first_checkpoint_from(log: Seq<LogEpochs>, e: u64, from: int)
    requires
        0 <= from,
    ensures
        from <= first_checkpoint_at_or_after(log, e, from),
    decreases log.len() - from,
{
    if from < log.len() && log[from].checkpoint_epoch < e {
        lemma_first_checkpoint_from(log, e, from + 1);
    }
}

proof fn lemma_first_checkpoint_monotone(log: Seq<LogEpochs>, a: u64, b: u64, from: int)
    requires
        a <= b,
        0 <= from,
    ensures
        first_checkpoint_at_or_after(log, a, from) <= first_checkpoint_at_or_after(log, b, from),
        from <= first_checkpoint_at_or_after(log, a, from),
    decreases log.len() - from,
{
    lemma_first_checkpoint_from(log, b, from);
    if from < log.len() && log[from].checkpoint_epoch < a {
        lemma_first_checkpoint_monotone(log, a, b, from + 1);
    }
}

/// Recovery is deterministic across committed epochs: replaying the upstream log from
/// a later committed checkpoint goes through exactly the epoch pairs that the replay
/// from an earlier one goes through once it has passed that checkpoint, so a job that
/// resumes later repeats the chain an uninterrupted run produced.
pub proof fn lemma_later_replay_is_tail(
    log: Seq<LogEpochs>,
    earlier: u64,
    later: u64,
    upstream_curr_epoch: u64,
)
    requires
        earlier <= later,
        log_resumable(log, earlier),
        log_resumable(log, later),
    ensures
        ({
            let skipped = (epoch_pairs(resolved_barriers(log, earlier, upstream_curr_epoch)).len()
                - epoch_pairs(resolved_barriers(log, later, upstream_curr_epoch)).len()) as int;
            &&& skipped >= 0
            &&& epoch_pairs(resolved_barriers(log, later, upstream_curr_epoch)) == epoch_pairs(
                resolved_barriers(log, earlier, upstream_curr_epoch),
            ).skip(skipped)
        }),
{
    let ja = first_checkpoint_at_or_after(log, earlier, 0);
    let jb = first_checkpoint_at_or_after(log, later, 0);
    lemma_first_checkpoint_monotone(log, earlier, later, 0);
    let xs_log = log.subrange(ja + 1, jb + 1);
    let ys_log = log.skip(jb + 1);
    assert(log.skip(ja + 1) =~= xs_log + ys_log);
    lemma_log_items_concat(xs_log, ys_log);
    let xs = log_items(xs_log);
    let ys = log_items(ys_log);
    assert(last_epoch_from(earlier, xs) == later) by {
        if ja < jb {
            lemma_log_items_last(xs_log);
            assert(xs_log.last() == log[jb]);
        } else {
            assert(xs_log.len() == 0);
            assert(xs =~= Seq::<(u64, bool)>::empty());
        }
    }
    lemma_replay_pairs(earlier, Seq::empty(), xs + ys, upstream_curr_epoch);
    lemma_replay_pairs(later, Seq::empty(), ys, upstream_curr_epoch);
    lemma_chain_pairs_split(earlier, xs, ys, upstream_curr_epoch);
    assert(epoch_pairs(resolved_barriers(log, earlier, upstream_curr_epoch)) == chain_pairs(earlier, xs + ys, upstream_curr_epoch));
    assert(epoch_pairs(resolved_barriers(log, later, upstream_curr_epoch)) == chain_pairs(later, ys, upstream_curr_epoch));
}

} // verus!
