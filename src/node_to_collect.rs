//! Which workers still owe an acknowledgement for one epoch of one graph.
use std::collections::HashMap;
use vstd::prelude::*;
use crate::epoch::WorkerId;

verus! {

broadcast use vstd::std_specs::hash::group_hash_axioms;

/// For each worker that must acknowledge an epoch, whether it owns no actors in the
/// graph (`true`: trivially satisfied). The epoch is fully collected once it is empty.
pub type NodeToCollect = HashMap<WorkerId, bool>;

/// The entry of `worker_id` after that worker failed: an actor-less worker is dropped,
/// an owner of actors stays.
pub open spec fn after_worker_err(n: Map<WorkerId, bool>, worker_id: WorkerId) -> Map<WorkerId, bool> {
    if n.contains_key(worker_id) && n[worker_id] {
        n.remove(worker_id)
    } else {
        n
    }
}

/// The epoch survives the failure of `worker_id`: the worker either was not asked to
/// acknowledge it, or owns no actors in the graph.
pub open spec fn survives_worker_err(n: Map<WorkerId, bool>, worker_id: WorkerId) -> bool {
    !n.contains_key(worker_id) || n[worker_id]
}

/// Tells whether an epoch can still complete after `worker_id` failed, and drops the
/// worker from it where it owned no actors.
pub fn is_valid_after_worker_err(node_to_collect: &mut NodeToCollect, worker_id: WorkerId) -> (r:
    bool)
    ensures
        r == survives_worker_err(old(node_to_collect)@, worker_id),
        final(node_to_collect)@ == after_worker_err(old(node_to_collect)@, worker_id),
{
    match node_to_collect.get(&worker_id) {
        Some(no_actor) => {
            if *no_actor {
                node_to_collect.remove(&worker_id);
                true
            } else {
                false
            }
        },
        None => true,
    }
}

} // verus!
