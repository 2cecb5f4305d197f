//! What each task of a batch is told about its place in the batch, and how
//! the outcomes of a batch are gathered.
use vstd::prelude::*;

verus! {

/// Context provided to each task in a batch.
#[derive(Clone, Copy, Debug, PartialEq, Eq, Structural)]
pub struct TaskContext {
    /// Phase number (for logging)
    pub phase: usize,
    /// Task number (1-indexed for display)
    pub task_number: usize,
    /// Total number of tasks in this batch
    pub total_tasks: usize,
}

/// The contexts of the `total` tasks of a batch of phase `phase`: task `i`
/// (counted from 0) is told that it is number `i + 1` of `total`.
pub fn batch_contexts(phase: usize, total: usize) -> (res: Vec<TaskContext>)
    ensures
        res@.len() == total,
        forall|i: int|
            0 <= i < total ==> #[trigger] res@[i] == (TaskContext {
                phase,
                task_number: (i + 1) as usize,
                total_tasks: total,
            }),
{
    let mut res: Vec<TaskContext> = Vec::new();
    let mut i: usize = 0;
    while i < total
        invariant
            i <= total,
            res@.len() == i,
            forall|k: int|
                0 <= k < i ==> #[trigger] res@[k] == (TaskContext {
                    phase,
                    task_number: (k + 1) as usize,
                    total_tasks: total,
                }),
        decreases total - i,
    {
        res.push(TaskContext { phase, task_number: i + 1, total_tasks: total });
        i = i + 1;
    }
    res
}

/// The index of the first failed outcome at or after `i`.
pub open spec fn first_failure_from<R, E>(outcomes: Seq<Result<R, E>>, i: int) -> Option<int>
    decreases outcomes.len() - i,
{
    if i < 0 || i >= outcomes.len() {
        None
    } else if outcomes[i] is Err {
        Some(i)
    } else {
        first_failure_from(outcomes, i + 1)
    }
}

proof fn lemma_first_failure_from<R, E>(outcomes: Seq<Result<R, E>>, i: int)
    requires
        0 <= i <= outcomes.len(),
    ensures
        first_failure_from(outcomes, i) is None <==> (forall|k: int|
            i <= k < outcomes.len() ==> #[trigger] outcomes[k] is Ok),
        first_failure_from(outcomes, i) matches Some(j) ==> i <= j < outcomes.len()
            && outcomes[j] is Err && (forall|k: int| i <= k < j ==> #[trigger] outcomes[k] is Ok),
    decreases outcomes.len() - i,
{
    if i < outcomes.len() {
        lemma_first_failure_from(outcomes, i + 1);
    }
}

/// Gather the outcomes of a batch, in the order they completed: the first
/// failure is returned; when none failed, all values in that order.
pub fn gather_outcomes<R, E>(outcomes: Vec<Result<R, E>>) -> (res: Result<Vec<R>, E>)
    ensures
        match first_failure_from(outcomes@, 0) {
            Some(j) => res matches Err(e) && outcomes@[j] == Err::<R, E>(e),
            None => res matches Ok(v) && v@.len() == outcomes@.len() && forall|k: int|
                0 <= k < v@.len() ==> outcomes@[k] == Ok::<R, E>(#[trigger] v@[k]),
        },
{
    let ghost all = outcomes@;
    let mut rest = outcomes;
    let mut values: Vec<R> = Vec::new();
    proof {
        lemma_first_failure_from(all, 0);
    }
    while rest.len() > 0
        invariant
            all == outcomes@,
            values@.len() + rest@.len() == all.len(),
            rest@ == all.skip(values@.len() as int),
            forall|k: int| 0 <= k < values@.len() ==> all[k] == Ok::<R, E>(#[trigger] values@[k]),
            first_failure_from(all, 0) == first_failure_from(all, values@.len() as int),
        decreases rest@.len(),
    {
        let ghost n = values@.len() as int;
        proof {
            lemma_first_failure_from(all, n);
        }
        let next = rest.remove(0);
        assert(next == all[n]);
        match next {
            Ok(v) => {
                values.push(v);
                assert(rest@ =~= all.skip(n + 1));
            },
            Err(e) => {
                assert(first_failure_from(all, n) == Some(n));
                return Err(e);
            },
        }
    }
    proof {
        lemma_first_failure_from(all, values@.len() as int);
        lemma_first_failure_from(all, 0);
    }
    Ok(values)
}

} // verus!
