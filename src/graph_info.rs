//! Which fragments and actors a partial graph holds, and which worker owns each actor.
use vstd::prelude::*;
use crate::epoch::{ActorId, FragmentId, TableId, WorkerId};

verus! {

/// One actor of a fragment and the worker that runs it.
pub struct InflightActorInfo {
    pub actor_id: ActorId,
    pub worker_id: WorkerId,
}

/// A fragment in flight: its actors and the state tables it writes.
pub struct InflightFragmentInfo {
    pub fragment_id: FragmentId,
    pub actors: Vec<InflightActorInfo>,
    pub state_table_ids: Vec<TableId>,
}

/// The fragments of one streaming job.
pub struct InflightStreamingJobInfo {
    pub job_id: TableId,
    pub fragment_infos: Vec<InflightFragmentInfo>,
}

/// The actors among `actors` that run on `worker_id`, in order.
pub open spec fn actors_of_worker(actors: Seq<InflightActorInfo>, worker_id: WorkerId) -> Seq<ActorId>
    decreases actors.len(),
{
    if actors.len() == 0 {
        Seq::empty()
    } else {
        let rest = actors_of_worker(actors.drop_last(), worker_id);
        if actors.last().worker_id == worker_id {
            rest.push(actors.last().actor_id)
        } else {
            rest
        }
    }
}

/// The actors of the fragments that run on `worker_id`, in fragment order.
pub open spec fn graph_actors_of_worker(fragments: Seq<InflightFragmentInfo>, worker_id: WorkerId) -> Seq<
    ActorId,
>
    decreases fragments.len(),
{
    if fragments.len() == 0 {
        Seq::empty()
    } else {
        graph_actors_of_worker(fragments.drop_last(), worker_id) + actors_of_worker(
            fragments.last().actors@,
            worker_id,
        )
    }
}

/// Some actor of the fragments runs on `worker_id`.
pub open spec fn has_worker(fragments: Seq<InflightFragmentInfo>, worker_id: WorkerId) -> bool {
    graph_actors_of_worker(fragments, worker_id).len() > 0
}

/// The state tables written by the fragments, in fragment order.
pub open spec fn graph_table_ids(fragments: Seq<InflightFragmentInfo>) -> Seq<TableId>
    decreases fragments.len(),
{
    if fragments.len() == 0 {
        Seq::empty()
    } else {
        graph_table_ids(fragments.drop_last()) + fragments.last().state_table_ids@
    }
}

/// The actors of the fragments that run on `worker_id`, in fragment order.
pub fn actors_on_worker(fragments: &Vec<InflightFragmentInfo>, worker_id: WorkerId) -> (r: Vec<
    ActorId,
>)
    ensures
        r@ == graph_actors_of_worker(fragments@, worker_id),
{
    let mut r: Vec<ActorId> = Vec::new();
    let mut i: usize = 0;
    while i < fragments.len()
        invariant
            0 <= i <= fragments@.len(),
            r@ == graph_actors_of_worker(fragments@.subrange(0, i as int), worker_id),
        decreases fragments@.len() - i,
    {
        let actors = &fragments[i].actors;
        let ghost before = r@;
        let mut j: usize = 0;
        while j < actors.len()
            invariant
                0 <= i < fragments@.len(),
                actors == fragments@[i as int].actors,
                0 <= j <= actors@.len(),
                r@ == before + actors_of_worker(actors@.subrange(0, j as int), worker_id),
            decreases actors@.len() - j,
        {
            proof {
                assert(actors@.subrange(0, j + 1).drop_last() =~= actors@.subrange(0, j as int));
            }
            if actors[j].worker_id == worker_id {
                r.push(actors[j].actor_id);
            }
            j = j + 1;
            proof {
                assert(r@ =~= before + actors_of_worker(actors@.subrange(0, j as int), worker_id));
            }
        }
        proof {
            assert(actors@.subrange(0, j as int) =~= actors@);
            assert(fragments@.subrange(0, i + 1).drop_last() =~= fragments@.subrange(0, i as int));
        }
        i = i + 1;
    }
    assert(fragments@.subrange(0, fragments@.len() as int) =~= fragments@);
    r
}

/// Whether some actor of the fragments runs on `worker_id`.
pub fn contains_worker(fragments: &Vec<InflightFragmentInfo>, worker_id: WorkerId) -> (r: bool)
    ensures
        r == has_worker(fragments@, worker_id),
{
    actors_on_worker(fragments, worker_id).len() > 0
}

/// The state tables written by the fragments, in fragment order.
pub fn existing_table_ids(fragments: &Vec<InflightFragmentInfo>) -> (r: Vec<TableId>)
    ensures
        r@ == graph_table_ids(fragments@),
{
    let mut r: Vec<TableId> = Vec::new();
    let mut i: usize = 0;
    while i < fragments.len()
        invariant
            0 <= i <= fragments@.len(),
            r@ == graph_table_ids(fragments@.subrange(0, i as int)),
        decreases fragments@.len() - i,
    {
        let tables = &fragments[i].state_table_ids;
        let ghost before = r@;
        let mut j: usize = 0;
        while j < tables.len()
            invariant
                0 <= i < fragments@.len(),
                tables == fragments@[i as int].state_table_ids,
                0 <= j <= tables@.len(),
                r@ == before + tables@.subrange(0, j as int),
            decreases tables@.len() - j,
        {
            r.push(tables[j]);
            j = j + 1;
            assert(r@ =~= before + tables@.subrange(0, j as int));
        }
        proof {
            assert(tables@.subrange(0, j as int) =~= tables@);
            assert(fragments@.subrange(0, i + 1).drop_last() =~= fragments@.subrange(0, i as int));
        }
        i = i + 1;
    }
    assert(fragments@.subrange(0, fragments@.len() as int) =~= fragments@);
    r
}

impl InflightStreamingJobInfo {
    pub fn fragment_infos(&self) -> (r: &Vec<InflightFragmentInfo>)
        ensures
            r == &self.fragment_infos,
    {
        &self.fragment_infos
    }

    pub fn existing_table_ids(&self) -> (r: Vec<TableId>)
        ensures
            r@ == graph_table_ids(self.fragment_infos@),
    {
        existing_table_ids(&self.fragment_infos)
    }
}

} // verus!
