//! Numbers written as text, and worker errors merged into one.
use vstd::prelude::*;
use vstd::string::StringExecFns;
use crate::epoch::WorkerId;

verus! {

/// The character of decimal digit `d`.
pub open spec fn digit_char(d: nat) -> char {
    if d == 0 { '0' } else if d == 1 { '1' } else if d == 2 { '2' } else if d == 3 { '3' } else if d == 4 { '4' }
    else if d == 5 { '5' } else if d == 6 { '6' } else if d == 7 { '7' } else if d == 8 { '8' } else { '9' }
}

/// The decimal digits of `n`, most significant first, without sign or leading zeros.
pub open spec fn decimal(n: nat) -> Seq<char>
    decreases n,
{
    if n < 10 {
        seq![digit_char(n)]
    } else {
        decimal(n / 10).push(digit_char(n % 10))
    }
}

/// Relies on `u64`'s `ToString`, through its `Display`: the number in decimal, with no
/// sign, padding or separators.
#[verifier::external_body]
pub(crate) fn decimal_string(n: u64) -> (r: String)
    ensures
        r@ == decimal(n as nat),
{
    n.to_string()
}

/// An error that one worker returned for a request.
pub struct NodeRpcError {
    pub message: String,
    /// How telling the error is, where the worker scored it.
    pub score: Option<i32>,
}

/// The errors of several workers merged into one.
pub enum MergedNodeError {
    /// No worker reported an error.
    Message(String),
    /// One worker's error stands for all, with its context.
    Single { context: String, worker_id: WorkerId, error: NodeRpcError },
    /// The errors, none scored, written one after another.
    Concatenated(String),
}

/// The highest score among the errors, if any is scored.
pub open spec fn max_score(errors: Seq<(WorkerId, NodeRpcError)>) -> Option<i32>
    decreases errors.len(),
{
    if errors.len() == 0 {
        None
    } else {
        let rest = max_score(errors.drop_last());
        match errors.last().1.score {
            Some(s) => match rest {
                Some(m) => if s > m { Some(s) } else { Some(m) },
                None => Some(s),
            },
            None => rest,
        }
    }
}

/// The context given to the error of `worker_id`.
pub open spec fn worker_context(message: Seq<char>, worker_id: WorkerId) -> Seq<char> {
    message + ", in worker node "@ + decimal(worker_id as nat)
}

/// The errors written one after another after `prefix`.
pub open spec fn concat_errors(prefix: Seq<char>, errors: Seq<(WorkerId, NodeRpcError)>) -> Seq<char>
    decreases errors.len(),
{
    if errors.len() == 0 {
        prefix
    } else {
        concat_errors(prefix, errors.drop_last()) + " in worker node "@ + decimal(errors.last().0 as nat)
            + ", "@ + errors.last().1.message@ + ";"@
    }
}

fn find_max_score(errors: &Vec<(WorkerId, NodeRpcError)>) -> (r: Option<i32>)
    ensures
        r == max_score(errors@),
{
    let mut best: Option<i32> = None;
    let mut i: usize = 0;
    while i < errors.len()
        invariant
            i <= errors@.len(),
            best == max_score(errors@.subrange(0, i as int)),
        decreases errors@.len() - i,
    {
        proof {
            assert(errors@.subrange(0, i + 1).drop_last() =~= errors@.subrange(0, i as int));
        }
        match errors[i].1.score {
            Some(s) => {
                best = match best {
                    Some(m) => if s > m { Some(s) } else { Some(m) },
                    None => Some(s),
                };
            },
            None => {},
        }
        i = i + 1;
    }
    assert(errors@.subrange(0, errors@.len() as int) =~= errors@);
    best
}

/// Merges the errors that workers returned for one request: none leaves `message`;
/// one, or the first of the highest score, stands for all with its worker as context;
/// errors with no score are written one after another.
pub fn merge_node_rpc_errors(message: String, errors: Vec<(WorkerId, NodeRpcError)>) -> (r: MergedNodeError)
    ensures
        errors@.len() == 0 ==> r == MergedNodeError::Message(message),
        errors@.len() == 1 ==> (r matches MergedNodeError::Single { context, worker_id, error }
            && context@ == worker_context(message@, errors@[0].0) && worker_id == errors@[0].0
            && error == errors@[0].1),
        errors@.len() > 1 && max_score(errors@) is Some ==> (r matches MergedNodeError::Single {
            context,
            worker_id,
            error,
        } && exists|i: int|
            0 <= i < errors@.len() && errors@[i].0 == worker_id && errors@[i].1 == error
                && error.score == max_score(errors@) && context@ == worker_context(message@, worker_id)
                && forall|k: int| 0 <= k < i ==> (#[trigger] errors@[k]).1.score != max_score(errors@)),
        errors@.len() > 1 && max_score(errors@) is None ==> (r matches MergedNodeError::Concatenated(s)
            && s@ == concat_errors(message@ + ": "@, errors@)),
{
    if errors.len() == 0 {
        return MergedNodeError::Message(message);
    }
    let mut errs = errors;
    if errs.len() == 1 {
        let (worker_id, error) = errs.remove(0);
        let mut context = message;
        context.append(", in worker node ");
        let id_text = decimal_string(worker_id as u64);
        context.append(id_text.as_str());
        return MergedNodeError::Single { context, worker_id, error };
    }
    let ghost all = errs@;
    assert(all == errors@);
    match find_max_score(&errs) {
        Some(best) => {
            let mut i: usize = 0;
            while i < errs.len()
                invariant
                    i <= errs@.len(),
                    errs@ == all,
                    all == errors@,
                    all.len() > 1,
                    max_score(all) == Some(best),
                    forall|k: int| 0 <= k < i ==> (#[trigger] all[k]).1.score != Some(best),
                decreases errs@.len() - i,
            {
                let hit = match errs[i].1.score {
                    Some(s) => s == best,
                    None => false,
                };
                if hit {
                    let (worker_id, error) = errs.remove(i);
                    let mut context = message;
                    context.append(", in worker node ");
                    let id_text = decimal_string(worker_id as u64);
                    context.append(id_text.as_str());
                    return MergedNodeError::Single { context, worker_id, error };
                }
                i = i + 1;
            }
            proof {
                lemma_max_score_attained(all);
            }
            MergedNodeError::Message(message)
        },
        None => {
            let mut s = message;
            s.append(": ");
            let ghost prefix = s@;
            let mut i: usize = 0;
            while i < errs.len()
                invariant
                    i <= errs@.len(),
                    s@ == concat_errors(prefix, errs@.subrange(0, i as int)),
                decreases errs@.len() - i,
            {
                proof {
                    assert(errs@.subrange(0, i + 1).drop_last() =~= errs@.subrange(0, i as int));
                }
                s.append(" in worker node ");
                let id_text = decimal_string(errs[i].0 as u64);
                s.append(id_text.as_str());
                s.append(", ");
                s.append(errs[i].1.message.as_str());
                s.append(";");
                i = i + 1;
                proof {
                    assert(s@ =~= concat_errors(prefix, errs@.subrange(0, i as int)));
                }
            }
            assert(errs@.subrange(0, errs@.len() as int) =~= errs@);
            MergedNodeError::Concatenated(s)
        },
    }
}

proof fn lemma_max_score_attained(errors: Seq<(WorkerId, NodeRpcError)>)
    ensures
        max_score(errors) matches Some(m) ==> exists|i: int|
            0 <= i < errors.len() && (#[trigger] errors[i]).1.score == Some(m),
    decreases errors.len(),
{
    if errors.len() > 0 {
        lemma_max_score_attained(errors.drop_last());
        let rest = max_score(errors.drop_last());
        if let Some(m) = rest {
            let i = choose|i: int| 0 <= i < errors.drop_last().len() && (#[trigger] errors.drop_last()[i]).1.score == Some(m);
            assert(errors[i] == errors.drop_last()[i]);
        }
        if max_score(errors) is Some {
            let last = errors.len() - 1;
            assert(errors[last] == errors.last());
        }
    }
}

} // verus!
