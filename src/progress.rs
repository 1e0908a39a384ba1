//! Backfill progress of the actors of a creating job.
use vstd::prelude::*;
use crate::epoch::ActorId;
use crate::protocol::CreateMviewProgress;

verus! {

/// Some report in `progress` says that `actor_id` finished.
pub open spec fn reported_done(progress: Seq<CreateMviewProgress>, actor_id: ActorId) -> bool {
    exists|i: int|
        0 <= i < progress.len() && #[trigger] progress[i].backfill_actor_id == actor_id
            && progress[i].done
}

/// The lag of `actor_id` after the reports in `progress`: the lag of its last report
/// that does not say it finished, or `lag` where there is none.
pub open spec fn reported_lag(progress: Seq<CreateMviewProgress>, actor_id: ActorId, lag: u64) -> u64
    decreases progress.len(),
{
    if progress.len() == 0 {
        lag
    } else {
        let p = progress.last();
        if p.backfill_actor_id == actor_id && !p.done {
            p.pending_epoch_lag
        } else {
            reported_lag(progress.drop_last(), actor_id, lag)
        }
    }
}

/// The actors still backfilling after the reports in `progress`, with their lags.
pub open spec fn still_ongoing(ongoing: Seq<(ActorId, u64)>, progress: Seq<CreateMviewProgress>) -> Seq<
    (ActorId, u64),
>
    decreases ongoing.len(),
{
    if ongoing.len() == 0 {
        Seq::empty()
    } else {
        let rest = still_ongoing(ongoing.drop_last(), progress);
        let (a, lag) = ongoing.last();
        if reported_done(progress, a) {
            rest
        } else {
            rest.push((a, reported_lag(progress, a, lag)))
        }
    }
}

/// The actors of a creating job that are still backfilling, each with its lag behind
/// the upstream in epochs. Backfill is finished once none is left.
pub struct BackfillProgressTracker {
    pub ongoing_actors: Vec<(ActorId, u64)>,
}

fn actor_report(progress: &Vec<CreateMviewProgress>, actor_id: ActorId, lag: u64) -> (r: (bool, u64))
    ensures
        r.0 == reported_done(progress@, actor_id),
        r.1 == reported_lag(progress@, actor_id, lag),
{
    let mut done = false;
    let mut cur = lag;
    let mut i: usize = 0;
    while i < progress.len()
        invariant
            i <= progress@.len(),
            done == reported_done(progress@.subrange(0, i as int), actor_id),
            cur == reported_lag(progress@.subrange(0, i as int), actor_id, lag),
        decreases progress@.len() - i,
    {
        let ghost s0 = progress@.subrange(0, i as int);
        let ghost s1 = progress@.subrange(0, i + 1);
        proof {
            assert(s1.drop_last() =~= s0);
        }
        let p = &progress[i];
        if p.backfill_actor_id == actor_id {
            if p.done {
                done = true;
            } else {
                cur = p.pending_epoch_lag;
            }
        }
        proof {
            if reported_done(s0, actor_id) {
                let k = choose|k: int|
                    0 <= k < s0.len() && #[trigger] s0[k].backfill_actor_id == actor_id && s0[k].done;
                assert(s1[k] == s0[k]);
            }
            if reported_done(s1, actor_id) && !(p.backfill_actor_id == actor_id && p.done) {
                let k = choose|k: int|
                    0 <= k < s1.len() && #[trigger] s1[k].backfill_actor_id == actor_id && s1[k].done;
                assert(s0[k] == s1[k]);
            }
            if p.backfill_actor_id == actor_id && p.done {
                assert(s1[i as int] == *p);
            }
        }
        i = i + 1;
    }
    assert(progress@.subrange(0, progress@.len() as int) =~= progress@);
    (done, cur)
}

impl BackfillProgressTracker {
    /// Tracks `actors`, each starting `lag` epochs behind.
    pub fn new(actors: &Vec<ActorId>, lag: u64) -> (r: Self)
        ensures
            r.ongoing_actors@ == actors@.map_values(|a: ActorId| (a, lag)),
    {
        let mut ongoing: Vec<(ActorId, u64)> = Vec::new();
        let mut i: usize = 0;
        while i < actors.len()
            invariant
                i <= actors@.len(),
                ongoing@ == actors@.subrange(0, i as int).map_values(|a: ActorId| (a, lag)),
            decreases actors@.len() - i,
        {
            ongoing.push((actors[i], lag));
            i = i + 1;
            assert(ongoing@ =~= actors@.subrange(0, i as int).map_values(|a: ActorId| (a, lag)));
        }
        assert(actors@.subrange(0, actors@.len() as int) =~= actors@);
        BackfillProgressTracker { ongoing_actors: ongoing }
    }

    pub open spec fn finished(&self) -> bool {
        self.ongoing_actors@.len() == 0
    }

    pub fn is_finished(&self) -> (r: bool)
        ensures
            r == self.finished(),
    {
        self.ongoing_actors.len() == 0
    }

    /// Applies the reports: a finished actor leaves, another takes its reported lag.
    pub fn update(&mut self, progress: &Vec<CreateMviewProgress>)
        ensures
            final(self).ongoing_actors@ == still_ongoing(old(self).ongoing_actors@, progress@),
    {
        let mut next: Vec<(ActorId, u64)> = Vec::new();
        let mut i: usize = 0;
        while i < self.ongoing_actors.len()
            invariant
                i <= self.ongoing_actors@.len(),
                self.ongoing_actors == old(self).ongoing_actors,
                next@ == still_ongoing(self.ongoing_actors@.subrange(0, i as int), progress@),
            decreases self.ongoing_actors@.len() - i,
        {
            proof {
                assert(self.ongoing_actors@.subrange(0, i + 1).drop_last()
                    =~= self.ongoing_actors@.subrange(0, i as int));
            }
            let (a, lag) = self.ongoing_actors[i];
            let (done, new_lag) = actor_report(progress, a, lag);
            if !done {
                next.push((a, new_lag));
            }
            i = i + 1;
        }
        assert(self.ongoing_actors@.subrange(0, self.ongoing_actors@.len() as int)
            =~= self.ongoing_actors@);
        self.ongoing_actors = next;
    }

    /// How many actors are still backfilling.
    pub fn ongoing_count(&self) -> (r: usize)
        ensures
            r == self.ongoing_actors@.len(),
    {
        self.ongoing_actors.len()
    }
}

} // verus!
