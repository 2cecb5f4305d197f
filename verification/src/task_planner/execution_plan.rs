//! Execution planning: grouping tasks into batches that run one after the
//! other, from a fixed batch size, from a plan produced by an agent, or from
//! the tasks' own dependency lists.
use vstd::prelude::*;

use crate::task_planner::types::{
    Batch, BatchTask, DependenciesSummary, ExecutionPlan, TaskOverview, TaskOverviewView,
};
use crate::text::{decimal, push_decimal, push_str};
use crate::yaml_model::{
    lemma_nodes_view, nodes_view, parse_yaml_text, value_get, value_get_list, value_get_u64,
    yaml_as_list, yaml_as_u64, yaml_get, yaml_parse, YamlNode, YamlValue,
};

verus! {

/// Abstract values of a list of task overviews.
pub open spec fn overview_views(s: Seq<TaskOverview>) -> Seq<TaskOverviewView> {
    s.map_values(|t: TaskOverview| t@)
}

/// Abstract values of a list of batches of task overviews.
pub open spec fn batch_views(b: Seq<Vec<TaskOverview>>) -> Seq<Seq<TaskOverviewView>> {
    b.map_values(|v: Vec<TaskOverview>| overview_views(v@))
}

/// Every task that `t` requires is among the `done` ids.
pub open spec fn dependencies_met(t: TaskOverviewView, done: Seq<u32>) -> bool {
    forall|i: int| 0 <= i < t.dependencies.len() ==> done.contains(#[trigger] t.dependencies[i].task_id)
}

/// One scan over `tasks[..k]`, starting with the ids in `done` (the earlier
/// batches): a task joins the batch when its id is not scheduled yet (in
/// `done` or earlier in this scan) and every task it requires is in an
/// earlier batch (in `done`). Returns the batch and the ids scheduled
/// afterwards.
pub open spec fn scheduling_pass(tasks: Seq<TaskOverviewView>, done: Seq<u32>, k: int) -> (
    Seq<TaskOverviewView>,
    Seq<u32>,
)
    decreases k,
{
    if k <= 0 {
        (Seq::empty(), done)
    } else {
        let (batch, sched) = scheduling_pass(tasks, done, k - 1);
        let t = tasks[k - 1];
        if !sched.contains(t.task.id) && dependencies_met(t, done) {
            (batch.push(t), sched.push(t.task.id))
        } else {
            (batch, sched)
        }
    }
}

/// The tasks of `tasks[..k]` whose id is not among the `done` ids.
pub open spec fn unscheduled(tasks: Seq<TaskOverviewView>, done: Seq<u32>, k: int) -> Seq<
    TaskOverviewView,
>
    decreases k,
{
    if k <= 0 {
        Seq::empty()
    } else {
        let rest = unscheduled(tasks, done, k - 1);
        if done.contains(tasks[k - 1].task.id) {
            rest
        } else {
            rest.push(tasks[k - 1])
        }
    }
}

/// The ids of a list of task overviews.
pub open spec fn overview_ids(s: Seq<TaskOverviewView>) -> Seq<u32> {
    s.map_values(|t: TaskOverviewView| t.task.id)
}

/// A pass schedules exactly the ids of its batch, after those in `done`.
pub proof fn lemma_scheduling_pass_len(tasks: Seq<TaskOverviewView>, done: Seq<u32>, k: int)
    ensures
        scheduling_pass(tasks, done, k).1 == done + overview_ids(scheduling_pass(tasks, done, k).0),
        scheduling_pass(tasks, done, k).1.len() == done.len() + scheduling_pass(tasks, done, k).0.len(),
    decreases k,
{
    if k > 0 {
        lemma_scheduling_pass_len(tasks, done, k - 1);
        let (batch, sched) = scheduling_pass(tasks, done, k - 1);
        let t = tasks[k - 1];
        assert(overview_ids(batch.push(t)) =~= overview_ids(batch).push(t.task.id));
        assert(done + overview_ids(batch.push(t)) =~= (done + overview_ids(batch)).push(t.task.id));
    } else {
        assert(done + overview_ids(Seq::empty()) =~= done);
    }
}

/// Batches of the dependency analysis once the ids in `done` are scheduled:
/// while fewer ids than tasks are scheduled, a scheduling pass makes the next
/// batch; a pass that schedules nothing ends the analysis with one last batch
/// of every task still unscheduled (circular or unresolved dependencies).
pub open spec fn fallback_from(tasks: Seq<TaskOverviewView>, done: Seq<u32>) -> Seq<
    Seq<TaskOverviewView>,
>
    decreases (if done.len() < tasks.len() {
        tasks.len() - done.len()
    } else {
        0
    }),
{
    if done.len() >= tasks.len() {
        Seq::empty()
    } else {
        let (batch, sched) = scheduling_pass(tasks, done, tasks.len() as int);
        if batch.len() == 0 {
            let rem = unscheduled(tasks, done, tasks.len() as int);
            if rem.len() > 0 {
                seq![rem]
            } else {
                Seq::empty()
            }
        } else {
            proof {
                lemma_scheduling_pass_len(tasks, done, tasks.len() as int);
            }
            seq![batch] + fallback_from(tasks, sched)
        }
    }
}

/// Batches of the fallback dependency analysis of `tasks`.
pub open spec fn fallback_batches(tasks: Seq<TaskOverviewView>) -> Seq<Seq<TaskOverviewView>> {
    fallback_from(tasks, Seq::empty())
}

/// The batches whose tasks had their dependencies met, once the ids in
/// `done` are scheduled (every batch of `fallback_from` but the last one made
/// of blocked tasks).
pub open spec fn ready_from(tasks: Seq<TaskOverviewView>, done: Seq<u32>) -> Seq<
    Seq<TaskOverviewView>,
>
    decreases (if done.len() < tasks.len() {
        tasks.len() - done.len()
    } else {
        0
    }),
{
    if done.len() >= tasks.len() {
        Seq::empty()
    } else {
        let (batch, sched) = scheduling_pass(tasks, done, tasks.len() as int);
        if batch.len() == 0 {
            Seq::empty()
        } else {
            proof {
                lemma_scheduling_pass_len(tasks, done, tasks.len() as int);
            }
            seq![batch] + ready_from(tasks, sched)
        }
    }
}

/// The tasks left when a scheduling pass first schedules nothing (empty when
/// every id got scheduled).
pub open spec fn stalled_from(tasks: Seq<TaskOverviewView>, done: Seq<u32>) -> Seq<
    TaskOverviewView,
>
    decreases (if done.len() < tasks.len() {
        tasks.len() - done.len()
    } else {
        0
    }),
{
    if done.len() >= tasks.len() {
        Seq::empty()
    } else {
        let (batch, sched) = scheduling_pass(tasks, done, tasks.len() as int);
        if batch.len() == 0 {
            unscheduled(tasks, done, tasks.len() as int)
        } else {
            proof {
                lemma_scheduling_pass_len(tasks, done, tasks.len() as int);
            }
            stalled_from(tasks, sched)
        }
    }
}

/// A batch of its own when non-empty.
pub open spec fn optional_batch(b: Seq<TaskOverviewView>) -> Seq<Seq<TaskOverviewView>> {
    if b.len() > 0 {
        seq![b]
    } else {
        Seq::empty()
    }
}

/// Every id in `ids` is the id of one of the tasks.
pub open spec fn ids_of_tasks(ids: Seq<u32>, tasks: Seq<TaskOverviewView>) -> bool {
    forall|i: int| 0 <= i < ids.len() ==> overview_ids(tasks).contains(#[trigger] ids[i])
}

pub(crate) proof fn lemma_push_no_duplicates(s: Seq<u32>, x: u32)
    requires
        s.no_duplicates(),
        !s.contains(x),
    ensures
        s.push(x).no_duplicates(),
{
    assert forall|i: int, j: int|
        0 <= i < s.push(x).len() && 0 <= j < s.push(x).len() && i != j implies s.push(x)[i]
        != s.push(x)[j] by {
        if i < s.len() && j < s.len() {
        } else if i < s.len() {
            assert(s.contains(s[i]));
        } else {
            assert(s.contains(s[j]));
        }
    }
}

/// What one scheduling pass guarantees about its batch.
proof fn lemma_pass_facts(tasks: Seq<TaskOverviewView>, done: Seq<u32>, k: int)
    requires
        0 <= k <= tasks.len(),
        done.no_duplicates(),
        ids_of_tasks(done, tasks),
    ensures
        ({
            let (batch, sched) = scheduling_pass(tasks, done, k);
            &&& sched == done + overview_ids(batch)
            &&& sched.no_duplicates()
            &&& ids_of_tasks(sched, tasks)
            &&& forall|j: int| 0 <= j < batch.len() ==> tasks.contains(#[trigger] batch[j])
            &&& forall|j: int| 0 <= j < batch.len() ==> dependencies_met(#[trigger] batch[j], done)
            &&& forall|i: int|
                0 <= i < k && !done.contains(tasks[i].task.id) && dependencies_met(tasks[i], done)
                    ==> sched.contains(#[trigger] tasks[i].task.id)
            &&& batch.len() == 0 ==> forall|i: int|
                0 <= i < k ==> done.contains(#[trigger] tasks[i].task.id) || !dependencies_met(
                    tasks[i],
                    done,
                )
        }),
    decreases k,
{
    broadcast use vstd::seq_lib::lemma_seq_contains_after_push;

    lemma_scheduling_pass_len(tasks, done, k);
    if k > 0 {
        lemma_pass_facts(tasks, done, k - 1);
        lemma_scheduling_pass_len(tasks, done, k - 1);
        let (batch, sched) = scheduling_pass(tasks, done, k - 1);
        let t = tasks[k - 1];
        if !sched.contains(t.task.id) && dependencies_met(t, done) {
            lemma_push_no_duplicates(sched, t.task.id);
            let nb = batch.push(t);
            assert(overview_ids(nb) =~= overview_ids(batch).push(t.task.id));
            assert(tasks.contains(tasks[k - 1]));
            assert(overview_ids(tasks)[k - 1] == t.task.id);
            assert forall|i: int| 0 <= i < sched.push(t.task.id).len() implies overview_ids(
                tasks,
            ).contains(#[trigger] sched.push(t.task.id)[i]) by {
                if i < sched.len() {
                    assert(sched.push(t.task.id)[i] == sched[i]);
                }
            }
            assert forall|j: int| 0 <= j < nb.len() implies dependencies_met(#[trigger] nb[j], done) by {
                if j < batch.len() {
                    assert(nb[j] == batch[j]);
                }
            }
            assert forall|j: int| 0 <= j < nb.len() implies tasks.contains(#[trigger] nb[j]) by {
                if j < batch.len() {
                    assert(nb[j] == batch[j]);
                }
            }
        } else {
            if batch.len() == 0 {
                assert(sched =~= done);
            }
        }
    } else {
        assert(done + overview_ids(Seq::<TaskOverviewView>::empty()) =~= done);
    }
}

/// The tasks left unscheduled are exactly those whose id is not in `done`.
proof fn lemma_unscheduled_facts(tasks: Seq<TaskOverviewView>, done: Seq<u32>, k: int)
    requires
        0 <= k <= tasks.len(),
    ensures
        forall|q: int|
            0 <= q < unscheduled(tasks, done, k).len() ==> !done.contains(
                (#[trigger] unscheduled(tasks, done, k)[q]).task.id,
            ) && exists|i: int| 0 <= i < k && tasks[i] == unscheduled(tasks, done, k)[q],
        forall|i: int|
            0 <= i < k ==> done.contains(#[trigger] tasks[i].task.id) || unscheduled(
                tasks,
                done,
                k,
            ).contains(tasks[i]),
    decreases k,
{
    if k > 0 {
        lemma_unscheduled_facts(tasks, done, k - 1);
        let rest = unscheduled(tasks, done, k - 1);
        if !done.contains(tasks[k - 1].task.id) {
            let r2 = rest.push(tasks[k - 1]);
            assert forall|q: int| 0 <= q < r2.len() implies !done.contains(
                (#[trigger] r2[q]).task.id,
            ) && exists|i: int| 0 <= i < k && tasks[i] == r2[q] by {
                if q < rest.len() {
                    assert(r2[q] == rest[q]);
                    let i = choose|i: int| 0 <= i < k - 1 && tasks[i] == rest[q];
                    assert(0 <= i < k && tasks[i] == r2[q]);
                } else {
                    assert(tasks[k - 1] == r2[q]);
                }
            }
            assert forall|i: int| 0 <= i < k implies done.contains(#[trigger] tasks[i].task.id)
                || r2.contains(tasks[i]) by {
                if i < k - 1 {
                    if rest.contains(tasks[i]) {
                        let q = choose|q: int| 0 <= q < rest.len() && rest[q] == tasks[i];
                        assert(r2[q] == tasks[i]);
                    }
                } else {
                    assert(r2[rest.len() as int] == tasks[i]);
                }
            }
        }
    }
}

/// When as many distinct task ids as tasks are scheduled, every task's id is.
proof fn lemma_full_schedule(tasks: Seq<TaskOverviewView>, done: Seq<u32>)
    requires
        done.no_duplicates(),
        ids_of_tasks(done, tasks),
        done.len() >= tasks.len(),
    ensures
        forall|k: int| 0 <= k < tasks.len() ==> done.contains(#[trigger] tasks[k].task.id),
{
    assert forall|k: int| 0 <= k < tasks.len() implies done.contains(
        #[trigger] tasks[k].task.id,
    ) by {
        let x = tasks[k].task.id;
        if !done.contains(x) {
            let ids = overview_ids(tasks);
            assert(ids[k] == x);
            done.unique_seq_to_set();
            ids.lemma_cardinality_of_set();
            assert(ids.to_set().contains(x));
            assert(done.to_set().subset_of(ids.to_set().remove(x))) by {
                assert forall|y: u32| done.to_set().contains(y) implies ids.to_set().remove(
                    x,
                ).contains(y) by {
                    let i = choose|i: int| 0 <= i < done.len() && done[i] == y;
                    assert(ids.contains(done[i]));
                }
            }
            vstd::set_lib::lemma_len_subset(done.to_set(), ids.to_set().remove(x));
            assert(false);
        }
    }
}

/// The ids of the tasks in the first `b` batches.
pub open spec fn ids_before(batches: Seq<Seq<TaskOverviewView>>, b: int) -> Seq<u32> {
    overview_ids(batches.take(b).flatten())
}

proof fn lemma_take_flatten_after_first(batch: Seq<TaskOverviewView>, rest: Seq<Seq<TaskOverviewView>>, b: int)
    requires
        1 <= b <= rest.len() + 1,
    ensures
        (seq![batch] + rest).take(b).flatten() == batch + rest.take(b - 1).flatten(),
{
    let s = (seq![batch] + rest).take(b);
    assert(s.first() == batch);
    assert(s.drop_first() =~= rest.take(b - 1));
    assert(s.flatten() == s.first() + s.drop_first().flatten());
}

/// What the batches of `fallback_from` guarantee, given ids already scheduled.
proof fn lemma_fallback_facts(tasks: Seq<TaskOverviewView>, done: Seq<u32>)
    requires
        done.no_duplicates(),
        ids_of_tasks(done, tasks),
    ensures
        ({
            let rb = ready_from(tasks, done);
            let ready = rb.flatten();
            let stalled = stalled_from(tasks, done);
            let fin = done + overview_ids(ready);
            &&& fallback_from(tasks, done) == rb + optional_batch(stalled)
            &&& fin.no_duplicates()
            &&& forall|p: int| 0 <= p < ready.len() ==> tasks.contains(#[trigger] ready[p])
            &&& forall|b: int, j: int|
                0 <= b < rb.len() && 0 <= j < rb[b].len() ==> dependencies_met(
                    #[trigger] rb[b][j],
                    done + ids_before(rb, b),
                )
            &&& forall|b: int, j: int|
                1 <= b < rb.len() && 0 <= j < rb[b].len() ==> !dependencies_met(
                    #[trigger] rb[b][j],
                    done + ids_before(rb, b - 1),
                )
            &&& forall|q: int|
                0 <= q < stalled.len() ==> !fin.contains((#[trigger] stalled[q]).task.id)
                    && !dependencies_met(stalled[q], fin) && tasks.contains(stalled[q])
            &&& forall|k: int|
                0 <= k < tasks.len() ==> fin.contains(#[trigger] tasks[k].task.id)
                    || stalled.contains(tasks[k])
        }),
    decreases (if done.len() < tasks.len() {
        tasks.len() - done.len()
    } else {
        0
    }),
{
    let n = tasks.len() as int;
    if done.len() >= tasks.len() {
        assert(done + overview_ids(Seq::<Seq<TaskOverviewView>>::empty().flatten()) =~= done);
        lemma_full_schedule(tasks, done);
        assert(fallback_from(tasks, done) =~= ready_from(tasks, done) + optional_batch(
            stalled_from(tasks, done),
        ));
    } else {
        lemma_pass_facts(tasks, done, n);
        let (batch, sched) = scheduling_pass(tasks, done, n);
        if batch.len() == 0 {
            let rem = unscheduled(tasks, done, n);
            lemma_unscheduled_facts(tasks, done, n);
            assert(ready_from(tasks, done) =~= Seq::<Seq<TaskOverviewView>>::empty());
            assert(Seq::<Seq<TaskOverviewView>>::empty().flatten() =~= Seq::<
                TaskOverviewView,
            >::empty());
            let fin = done + overview_ids(Seq::<TaskOverviewView>::empty());
            assert(fin =~= done);
            assert(fallback_from(tasks, done) =~= ready_from(tasks, done) + optional_batch(rem));
            assert forall|q: int| 0 <= q < rem.len() implies !fin.contains(
                (#[trigger] rem[q]).task.id,
            ) && !dependencies_met(rem[q], fin) && tasks.contains(rem[q]) by {
                let i = choose|i: int| 0 <= i < n && tasks[i] == rem[q];
                assert(tasks.contains(tasks[i]));
            }
        } else {
            lemma_fallback_facts(tasks, sched);
            let rest = ready_from(tasks, sched);
            let rf = rest.flatten();
            let rb = ready_from(tasks, done);
            assert(rb == seq![batch] + rest);
            assert((seq![batch] + rest).drop_first() =~= rest);
            assert(rb.flatten() == batch + rf);
            let ready = batch + rf;
            assert(overview_ids(ready) =~= overview_ids(batch) + overview_ids(rf));
            assert(done + overview_ids(ready) =~= sched + overview_ids(rf));
            assert(fallback_from(tasks, done) =~= ready_from(tasks, done) + optional_batch(
                stalled_from(tasks, sched),
            ));
            assert forall|p: int| 0 <= p < ready.len() implies tasks.contains(#[trigger] ready[p]) by {
                if p < batch.len() {
                    assert(ready[p] == batch[p]);
                } else {
                    assert(ready[p] == rf[p - batch.len()]);
                }
            }
            // the ids before batch `b` of `rb` are those of `batch` then of the batches of `rest` before `b - 1`
            assert forall|b: int| 1 <= b <= rb.len() implies done + ids_before(rb, b) == sched
                + ids_before(rest, b - 1) by {
                lemma_take_flatten_after_first(batch, rest, b);
                let x = rest.take(b - 1).flatten();
                assert(overview_ids(batch + x) =~= overview_ids(batch) + overview_ids(x));
                assert(done + (overview_ids(batch) + overview_ids(x)) =~= (done + overview_ids(batch))
                    + overview_ids(x));
            }
            assert forall|b: int, j: int|
                0 <= b < rb.len() && 0 <= j < rb[b].len() implies dependencies_met(
                #[trigger] rb[b][j],
                done + ids_before(rb, b),
            ) by {
                if b == 0 {
                    assert(rb.take(0).flatten() =~= Seq::<TaskOverviewView>::empty());
                    assert(done + ids_before(rb, 0) =~= done);
                    assert(rb[0] == batch);
                } else {
                    assert(rb[b] == rest[b - 1]);
                }
            }
            assert forall|b: int, j: int|
                1 <= b < rb.len() && 0 <= j < rb[b].len() implies !dependencies_met(
                #[trigger] rb[b][j],
                done + ids_before(rb, b - 1),
            ) by {
                assert(rb[b] == rest[b - 1]);
                if b == 1 {
                    let t = rest[0][j];
                    assert(rb.take(0).flatten() =~= Seq::<TaskOverviewView>::empty());
                    assert(done + ids_before(rb, 0) =~= done);
                    assert(rf == rest.first() + rest.drop_first().flatten());
                    assert(rf[j] == t);
                    assert(tasks.contains(t));
                    let i = choose|i: int| 0 <= i < tasks.len() && tasks[i] == t;
                    let fin2 = sched + overview_ids(rf);
                    assert(fin2[sched.len() + j] == t.task.id);
                    if sched.contains(t.task.id) {
                        let m = choose|m: int| 0 <= m < sched.len() && sched[m] == t.task.id;
                        assert(fin2[m] == t.task.id);
                        assert(false);
                    }
                    if done.contains(t.task.id) {
                        let m = choose|m: int| 0 <= m < done.len() && done[m] == t.task.id;
                        assert(sched[m] == t.task.id);
                    }
                    assert(tasks[i].task.id == t.task.id);
                } else {
                    assert(rb[b] == rest[b - 1]);
                }
            }
        }
    }
}

/// Law: the fallback analysis makes its batches of ready tasks, then, when
/// some tasks could never be scheduled, one last batch of those tasks.
pub proof fn law_fallback_shape(tasks: Seq<TaskOverviewView>)
    ensures
        fallback_batches(tasks) == ready_from(tasks, Seq::empty()) + optional_batch(
            stalled_from(tasks, Seq::empty()),
        ),
{
    lemma_fallback_facts(tasks, Seq::empty());
}

/// Law: every task placed in a batch is one of the input tasks.
pub proof fn law_fallback_only_input_tasks(tasks: Seq<TaskOverviewView>)
    ensures
        forall|b: int, j: int|
            0 <= b < fallback_batches(tasks).len() && 0 <= j < fallback_batches(tasks)[b].len()
                ==> tasks.contains(#[trigger] fallback_batches(tasks)[b][j]),
{
    lemma_fallback_facts(tasks, Seq::empty());
    let ready = ready_from(tasks, Seq::empty());
    let stalled = stalled_from(tasks, Seq::empty());
    let fb = fallback_batches(tasks);
    assert forall|b: int, j: int| 0 <= b < fb.len() && 0 <= j < fb[b].len() implies tasks.contains(
        #[trigger] fb[b][j],
    ) by {
        if b < ready.len() {
            assert(fb[b] == ready[b]);
            lemma_flatten_index(ready, b, j);
        } else {
            assert(fb[b] == stalled);
        }
    }
}

/// Law: within the batches of ready tasks no task id is scheduled twice, and
/// each task sits one batch after its latest dependency: every task it
/// requires is in an earlier batch, and for a task after the first batch,
/// not all of them are in the batches before the one just ahead of it (so a
/// task without dependencies is in the first batch, and a chain of `n`
/// tasks takes `n` batches).
pub proof fn law_fallback_dependencies_first(tasks: Seq<TaskOverviewView>)
    ensures
        ({
            let rb = ready_from(tasks, Seq::empty());
            &&& overview_ids(rb.flatten()).no_duplicates()
            &&& forall|b: int, j: int|
                0 <= b < rb.len() && 0 <= j < rb[b].len() ==> dependencies_met(
                    #[trigger] rb[b][j],
                    ids_before(rb, b),
                )
            &&& forall|b: int, j: int|
                1 <= b < rb.len() && 0 <= j < rb[b].len() ==> !dependencies_met(
                    #[trigger] rb[b][j],
                    ids_before(rb, b - 1),
                )
        }),
{
    lemma_fallback_facts(tasks, Seq::empty());
    let rb = ready_from(tasks, Seq::empty());
    assert(Seq::<u32>::empty() + overview_ids(rb.flatten()) =~= overview_ids(rb.flatten()));
    assert forall|b: int| 0 <= b <= rb.len() implies Seq::<u32>::empty() + ids_before(rb, b)
        == ids_before(rb, b) by {
        assert(Seq::<u32>::empty() + ids_before(rb, b) =~= ids_before(rb, b));
    }
}

/// Law: the last batch of blocked tasks holds exactly the tasks whose id the
/// ready batches never scheduled, and none of them has its dependencies met
/// by the ready batches (circular or unresolved dependencies).
pub proof fn law_fallback_blocked_tasks(tasks: Seq<TaskOverviewView>)
    ensures
        ({
            let ids = overview_ids(ready_from(tasks, Seq::empty()).flatten());
            let stalled = stalled_from(tasks, Seq::empty());
            &&& forall|q: int|
                0 <= q < stalled.len() ==> !ids.contains((#[trigger] stalled[q]).task.id)
                    && !dependencies_met(stalled[q], ids) && tasks.contains(stalled[q])
            &&& forall|k: int|
                0 <= k < tasks.len() ==> ids.contains(#[trigger] tasks[k].task.id)
                    || stalled.contains(tasks[k])
        }),
{
    lemma_fallback_facts(tasks, Seq::empty());
    let ready = ready_from(tasks, Seq::empty()).flatten();
    assert(Seq::<u32>::empty() + overview_ids(ready) =~= overview_ids(ready));
}

/// Law: every input task's id is scheduled in some batch.
pub proof fn law_fallback_schedules_every_task(tasks: Seq<TaskOverviewView>)
    ensures
        forall|k: int|
            0 <= k < tasks.len() ==> overview_ids(fallback_batches(tasks).flatten()).contains(
                #[trigger] tasks[k].task.id,
            ),
{
    lemma_fallback_facts(tasks, Seq::empty());
    let ready = ready_from(tasks, Seq::empty());
    let stalled = stalled_from(tasks, Seq::empty());
    let rf = ready.flatten();
    assert(Seq::<u32>::empty() + overview_ids(rf) =~= overview_ids(rf));
    vstd::seq_lib::lemma_flatten_concat(ready, optional_batch(stalled));
    let all = rf + optional_batch(stalled).flatten();
    assert(fallback_batches(tasks).flatten() == all);
    if stalled.len() > 0 {
        optional_batch(stalled).lemma_flatten_one_element();
    } else {
        assert(optional_batch(stalled) =~= Seq::<Seq<TaskOverviewView>>::empty());
    }
    assert forall|k: int| 0 <= k < tasks.len() implies overview_ids(all).contains(
        #[trigger] tasks[k].task.id,
    ) by {
        let x = tasks[k].task.id;
        if overview_ids(rf).contains(x) {
            let i = choose|i: int| 0 <= i < overview_ids(rf).len() && overview_ids(rf)[i] == x;
            assert(overview_ids(all)[i] == x);
        } else {
            assert(stalled.contains(tasks[k]));
            let q = choose|q: int| 0 <= q < stalled.len() && stalled[q] == tasks[k];
            assert(all[rf.len() + q] == stalled[q]);
            assert(overview_ids(all)[rf.len() + q] == x);
        }
    }
}

/// An element of a batch is an element of the flattened batches.
proof fn lemma_flatten_index<A>(s: Seq<Seq<A>>, b: int, j: int)
    requires
        0 <= b < s.len(),
        0 <= j < s[b].len(),
    ensures
        s.flatten().contains(s[b][j]),
    decreases s.len(),
{
    if b == 0 {
        assert(s.flatten() == s.first() + s.drop_first().flatten());
        assert(s.flatten()[j] == s[b][j]);
    } else {
        lemma_flatten_index(s.drop_first(), b - 1, j);
        let k = choose|k: int| 0 <= k < s.drop_first().flatten().len() && s.drop_first().flatten()[k] == s[b][j];
        assert(s.flatten() == s.first() + s.drop_first().flatten());
        assert(s.flatten()[s.first().len() + k] == s[b][j]);
    }
}

pub(crate) fn contains_id(ids: &Vec<u32>, id: u32) -> (r: bool)
    ensures
        r == ids@.contains(id),
{
    let mut i: usize = 0;
    while i < ids.len()
        invariant
            i <= ids.len(),
            forall|k: int| 0 <= k < i ==> ids@[k] != id,
        decreases ids.len() - i,
    {
        if ids[i] == id {
            return true;
        }
        i = i + 1;
    }
    false
}

/// Whether `id` is among the first `n` ids.
pub(crate) fn contains_id_upto(ids: &Vec<u32>, id: u32, n: usize) -> (r: bool)
    requires
        n <= ids@.len(),
    ensures
        r == ids@.take(n as int).contains(id),
{
    let mut i: usize = 0;
    while i < n
        invariant
            i <= n <= ids@.len(),
            forall|k: int| 0 <= k < i ==> ids@[k] != id,
        decreases n - i,
    {
        if ids[i] == id {
            assert(ids@.take(n as int)[i as int] == id);
            return true;
        }
        i = i + 1;
    }
    proof {
        if ids@.take(n as int).contains(id) {
            let k = choose|k: int| 0 <= k < n && ids@.take(n as int)[k] == id;
            assert(ids@[k] == id);
        }
    }
    false
}

/// Whether every task that `task` requires is among the first `n` ids.
fn dependencies_scheduled(task: &TaskOverview, ids: &Vec<u32>, n: usize) -> (r: bool)
    requires
        n <= ids@.len(),
    ensures
        r == dependencies_met(task@, ids@.take(n as int)),
{
    let deps = &task.dependencies.requires_completion_of;
    let mut i: usize = 0;
    while i < deps.len()
        invariant
            i <= deps.len(),
            n <= ids@.len(),
            deps == &task.dependencies.requires_completion_of,
            forall|k: int|
                0 <= k < i ==> ids@.take(n as int).contains(#[trigger] task@.dependencies[k].task_id),
        decreases deps.len() - i,
    {
        if !contains_id_upto(ids, deps[i].task_id, n) {
            assert(!ids@.take(n as int).contains(task@.dependencies[i as int].task_id));
            return false;
        }
        i = i + 1;
    }
    true
}

/// Fallback: build execution batches from the tasks' own dependency lists.
///
/// Repeatedly scans the tasks in order; a task joins the current batch when
/// no task with its id is scheduled yet and every task it requires is in an
/// earlier batch, so each task runs one batch after its latest dependency.
/// When a scan schedules nothing, the remaining tasks form one last batch.
pub fn build_execution_batches_fallback(tasks: &[TaskOverview]) -> (res: Vec<Vec<TaskOverview>>)
    ensures
        batch_views(res@) == fallback_batches(overview_views(tasks@)),
{
    let ghost tv = overview_views(tasks@);
    let mut scheduled: Vec<u32> = Vec::new();
    let mut batches: Vec<Vec<TaskOverview>> = Vec::new();
    assert(batch_views(batches@) + fallback_from(tv, scheduled@) =~= fallback_batches(tv));
    loop
        invariant_except_break
            tv == overview_views(tasks@),
            tv.len() == tasks@.len(),
            batch_views(batches@) + fallback_from(tv, scheduled@) == fallback_batches(tv),
        ensures
            batch_views(batches@) == fallback_batches(tv),
        decreases (if scheduled.len() < tasks.len() {
            tasks.len() - scheduled.len()
        } else {
            0
        }),
    {
        if scheduled.len() >= tasks.len() {
            assert(batch_views(batches@) + fallback_from(tv, scheduled@) =~= batch_views(
                batches@,
            ));
            break ;
        }
        let ghost done0 = scheduled@;
        let n0 = scheduled.len();
        let mut current: Vec<TaskOverview> = Vec::new();
        let mut i: usize = 0;
        while i < tasks.len()
            invariant
                i <= tasks.len(),
                tv == overview_views(tasks@),
                tv.len() == tasks@.len(),
                n0 == done0.len(),
                (overview_views(current@), scheduled@) == scheduling_pass(tv, done0, i as int),
            decreases tasks.len() - i,
        {
            let t = &tasks[i];
            assert(tv[i as int] == t@);
            proof {
                lemma_scheduling_pass_len(tv, done0, i as int);
                assert(scheduled@.take(n0 as int) =~= done0);
            }
            if !contains_id(&scheduled, t.task.id) && dependencies_scheduled(t, &scheduled, n0) {
                let c = t.clone();
                current.push(c);
                scheduled.push(t.task.id);
                assert(overview_views(current@) =~= scheduling_pass(tv, done0, i as int).0.push(
                    tv[i as int],
                ));
            }
            i = i + 1;
        }
        proof {
            lemma_scheduling_pass_len(tv, done0, tv.len() as int);
        }
        if current.len() == 0 {
            assert(scheduled@ =~= done0);
            let mut rem: Vec<TaskOverview> = Vec::new();
            let mut j: usize = 0;
            while j < tasks.len()
                invariant
                    j <= tasks.len(),
                    tv == overview_views(tasks@),
                    tv.len() == tasks@.len(),
                    overview_views(rem@) == unscheduled(tv, done0, j as int),
                    scheduled@ == done0,
                decreases tasks.len() - j,
            {
                let t = &tasks[j];
                assert(tv[j as int] == t@);
                if !contains_id(&scheduled, t.task.id) {
                    let c = t.clone();
                    rem.push(c);
                    assert(overview_views(rem@) =~= unscheduled(tv, done0, j as int).push(
                        tv[j as int],
                    ));
                }
                j = j + 1;
            }
            let ghost before = batch_views(batches@);
            if rem.len() > 0 {
                batches.push(rem);
                assert(batch_views(batches@) =~= before + seq![overview_views(rem@)]);
            } else {
                assert(fallback_from(tv, done0) =~= Seq::<Seq<TaskOverviewView>>::empty());
            }
            assert(batch_views(batches@) =~= before + fallback_from(tv, done0));
            break ;
        }
        let ghost before = batch_views(batches@);
        batches.push(current);
        assert(batch_views(batches@) =~= before + seq![scheduling_pass(tv, done0, tv.len() as int).0]);
        assert(fallback_from(tv, done0) == seq![scheduling_pass(tv, done0, tv.len() as int).0]
            + fallback_from(tv, scheduled@));
        assert(batch_views(batches@) + fallback_from(tv, scheduled@) =~= before + fallback_from(
            tv,
            done0,
        ));
    }
    batches
}

/// Description of a fixed-size batch: `Batch {id} - Tasks {first} to {last}`.
pub open spec fn simple_batch_description(id: nat, first: nat, last: nat) -> Seq<char> {
    "Batch "@ + decimal(id) + " - Tasks "@ + decimal(first) + " to "@ + decimal(last)
}

/// Reason given to every task of a fixed-size batch: `Part of batch {id}`.
pub open spec fn simple_batch_reason(id: nat) -> Seq<char> {
    "Part of batch "@ + decimal(id)
}

/// Rationale of a fixed-size batch.
pub open spec fn simple_batch_rationale(batch_size: nat) -> Seq<char> {
    "Fixed batch size of "@ + decimal(batch_size) + " tasks running in parallel"@
}

/// Explanation of the parallelization of a fixed-size plan.
pub open spec fn simple_plan_explanation(total_batches: nat, batch_size: nat) -> Seq<char> {
    "Tasks split into "@ + decimal(total_batches) + " fixed-size batches of up to "@ + decimal(
        batch_size,
    ) + " tasks each"@
}

/// Batch `b` (counted from 0) of a fixed-size plan holds exactly the tasks
/// `tasks[b * size .. min((b + 1) * size, n)]`, in order.
pub open spec fn simple_batch_matches(
    batch: Batch,
    b: int,
    tasks: Seq<TaskOverview>,
    size: nat,
) -> bool {
    let first = b * size;
    let last = if (b + 1) * size <= tasks.len() {
        (b + 1) * size
    } else {
        tasks.len() as int
    };
    &&& batch.batch_id == b + 1
    &&& batch.description@ == simple_batch_description(
        (b + 1) as nat,
        (first + 1) as nat,
        last as nat,
    )
    &&& batch.strategy@ == "sequential"@
    &&& batch.parallelization_rationale@ == simple_batch_rationale(size)
    &&& batch.tasks@.len() == last - first
    &&& forall|j: int|
        0 <= j < batch.tasks@.len() ==> {
            let t = #[trigger] batch.tasks@[j];
            &&& t.task_id == tasks[first + j].task.id
            &&& t.task_name@ == tasks[first + j].task.name@
            &&& t.reason@ == simple_batch_reason((b + 1) as nat)
        }
}

/// The batches of a fixed-size plan: as many as needed for the tasks, each
/// holding its slice of the tasks.
pub open spec fn simple_batches_ok(batches: Seq<Batch>, tasks: Seq<TaskOverview>, size: nat) -> bool {
    &&& batches.len() * size >= tasks.len()
    &&& batches.len() == 0 || (batches.len() - 1) * size < tasks.len()
    &&& forall|b: int|
        0 <= b < batches.len() ==> simple_batch_matches(#[trigger] batches[b], b, tasks, size)
}

/// Task `k` is task `k % size` of batch `k / size`.
pub open spec fn task_placed(batches: Seq<Batch>, tasks: Seq<TaskOverview>, size: nat, k: int) -> bool {
    let b = k / (size as int);
    &&& 0 <= b < batches.len()
    &&& k % (size as int) < batches[b].tasks@.len()
    &&& batches[b].tasks@[k % (size as int)].task_id == tasks[k].task.id
}

/// Fixed-size batching loses no task and keeps their order: task `k` is
/// task `k % size` of batch `k / size`, and every task of a batch is the
/// given task at its place.
pub proof fn law_simple_batches_keep_every_task_in_order(
    batches: Seq<Batch>,
    tasks: Seq<TaskOverview>,
    size: nat,
)
    requires
        size > 0,
        simple_batches_ok(batches, tasks, size),
    ensures
        forall|k: int| 0 <= k < tasks.len() ==> #[trigger] task_placed(batches, tasks, size, k),
        forall|b: int, j: int|
            0 <= b < batches.len() && 0 <= j < batches[b].tasks@.len() ==> b * size + j
                < tasks.len() && (#[trigger] batches[b].tasks@[j]).task_id == tasks[b * size
                + j].task.id,
{
    assert forall|k: int| 0 <= k < tasks.len() implies #[trigger] task_placed(
        batches,
        tasks,
        size,
        k,
    ) by {
        let sz = size as int;
        let b = k / sz;
        let j = k % sz;
        assert(b * sz + j == k && 0 <= j < sz && b >= 0) by (nonlinear_arith)
            requires
                sz > 0,
                k >= 0,
                b == k / sz,
                j == k % sz,
        ;
        assert(b < batches.len()) by (nonlinear_arith)
            requires
                batches.len() * sz >= tasks.len(),
                k < tasks.len(),
                b * sz + j == k,
                0 <= j,
                sz > 0,
                b >= 0,
        ;
        assert((b + 1) * sz == b * sz + sz) by (nonlinear_arith);
        assert(simple_batch_matches(batches[b], b, tasks, size));
        assert(batches[b].tasks@[j].task_id == tasks[b * sz + j].task.id);
    }
    assert forall|b: int, j: int|
        0 <= b < batches.len() && 0 <= j < batches[b].tasks@.len() implies b * size + j
        < tasks.len() && (#[trigger] batches[b].tasks@[j]).task_id == tasks[b * size
        + j].task.id by {
        assert(simple_batch_matches(batches[b], b, tasks, size));
        assert((b + 1) * (size as int) == b * (size as int) + size) by (nonlinear_arith);
    }
}

/// No two tasks share an id.
pub open spec fn task_ids_distinct(tasks: Seq<TaskOverview>) -> bool {
    forall|i: int, j: int|
        0 <= i < tasks.len() && 0 <= j < tasks.len() && i != j ==> #[trigger] tasks[i].task.id
            != #[trigger] tasks[j].task.id
}

/// A parsed plan lists `batches` as the planner writes them: its batches
/// list holds, batch by batch, a `tasks` list whose entries carry, in order,
/// the `task_id` of each task of the batch.
pub open spec fn plan_lists_batches(plan: YamlValue, batches: Seq<Batch>) -> bool {
    match value_get_list(plan_object(plan), "batches"@) {
        Some(values) => values.len() == batches.len() && forall|b: int|
            0 <= b < values.len() ==> match value_get_list(#[trigger] values[b], "tasks"@) {
                Some(entries) => entries.len() == batches[b].tasks@.len() && forall|j: int|
                    0 <= j < entries.len() ==> task_ref_id(#[trigger] entries[j]) == Some(
                        batches[b].tasks@[j].task_id,
                    ),
                None => false,
            },
        None => false,
    }
}

/// The end of chunk `b` of `n` tasks cut every `size`.
pub open spec fn chunk_end(b: int, size: nat, n: nat) -> int {
    if (b + 1) * size <= n {
        (b + 1) * size
    } else {
        n as int
    }
}

proof fn lemma_task_by_own_id(tasks: Seq<TaskOverview>, i: int)
    requires
        task_ids_distinct(tasks),
        0 <= i < tasks.len(),
    ensures
        task_by_id(overview_views(tasks), tasks[i].task.id) == Some(tasks[i]@),
    decreases tasks.len(),
{
    let tv = overview_views(tasks);
    let p = tasks.drop_last();
    assert(overview_views(p) =~= tv.drop_last());
    if i < tasks.len() - 1 {
        assert(tasks[tasks.len() - 1].task.id != tasks[i].task.id);
        assert forall|a: int, b: int|
            0 <= a < p.len() && 0 <= b < p.len() && a != b implies #[trigger] p[a].task.id
            != #[trigger] p[b].task.id by {
            assert(p[a] == tasks[a] && p[b] == tasks[b]);
        }
        lemma_task_by_own_id(p, i);
    }
}

proof fn lemma_listed_batch_reads_its_tasks(
    entries: Seq<YamlValue>,
    tasks: Seq<TaskOverview>,
    first: int,
)
    requires
        task_ids_distinct(tasks),
        0 <= first,
        first + entries.len() <= tasks.len(),
        forall|j: int|
            0 <= j < entries.len() ==> task_ref_id(#[trigger] entries[j]) == Some(
                tasks[first + j].task.id,
            ),
    ensures
        plan_batch_tasks(entries, overview_views(tasks)) == overview_views(tasks).subrange(
            first,
            first + entries.len(),
        ),
    decreases entries.len(),
{
    let tv = overview_views(tasks);
    if entries.len() > 0 {
        let p = entries.drop_last();
        assert forall|j: int| 0 <= j < p.len() implies task_ref_id(#[trigger] p[j]) == Some(
            tasks[first + j].task.id,
        ) by {
            assert(p[j] == entries[j]);
        }
        lemma_listed_batch_reads_its_tasks(p, tasks, first);
        let k = first + entries.len() - 1;
        assert(task_ref_id(entries[entries.len() - 1]) == Some(tasks[k].task.id));
        lemma_task_by_own_id(tasks, k);
        assert(tv.subrange(first, k).push(tv[k]) =~= tv.subrange(first, k + 1));
    } else {
        assert(tv.subrange(first, first) =~= Seq::<TaskOverviewView>::empty());
    }
}

/// The tasks cut every `size` into `count` chunks, the last one shorter.
pub open spec fn task_chunks(tasks: Seq<TaskOverviewView>, count: nat, size: nat) -> Seq<
    Seq<TaskOverviewView>,
> {
    Seq::new(count, |b: int| tasks.subrange(b * size, chunk_end(b, size, tasks.len())))
}

proof fn lemma_listed_prefix_reads_as_chunks(
    plan: YamlValue,
    batches: Seq<Batch>,
    tasks: Seq<TaskOverview>,
    size: nat,
    m: int,
)
    requires
        size > 0,
        task_ids_distinct(tasks),
        simple_batches_ok(batches, tasks, size),
        plan_lists_batches(plan, batches),
        0 <= m <= batches.len(),
    ensures
        plan_batches(value_get_list(plan_object(plan), "batches"@)->0.take(m), overview_views(tasks))
            == task_chunks(overview_views(tasks), batches.len(), size).take(m),
    decreases m,
{
    let tv = overview_views(tasks);
    let n = tasks.len();
    let values = value_get_list(plan_object(plan), "batches"@)->0;
    let nb = batches.len();
    let chunks = task_chunks(tv, nb, size);
    if m == 0 {
        assert(plan_batches(values.take(0), tv) =~= chunks.take(0));
    } else {
        let k = m - 1;
        lemma_listed_prefix_reads_as_chunks(plan, batches, tasks, size, k);
        let pre = values.take(m);
        assert(pre.drop_last() =~= values.take(k));
        assert(pre.last() == values[k]);
        let entries = value_get_list(values[k], "tasks"@)->0;
        let bt = batches[k];
        assert(simple_batch_matches(bt, k, tasks, size));
        let first = k * size;
        assert(k * size <= (nb - 1) * size) by (nonlinear_arith)
            requires
                0 <= k < nb,
        ;
        assert(0 <= k * size) by (nonlinear_arith)
            requires
                0 <= k,
        ;
        assert(first < n);
        assert forall|j: int| 0 <= j < entries.len() implies task_ref_id(#[trigger] entries[j])
            == Some(tasks[first + j].task.id) by {
            let t = bt.tasks@[j];
            assert(t.task_id == tasks[first + j].task.id);
        }
        lemma_listed_batch_reads_its_tasks(entries, tasks, first);
        assert(entries.len() == chunk_end(k, size, n) - first);
        assert(chunks[k] == tv.subrange(first, chunk_end(k, size, n)));
        assert((k + 1) * size == k * size + size) by (nonlinear_arith);
        assert(chunk_end(k, size, n) > first);
        assert(value_get_list(values[k], "tasks"@) is Some);
        assert(plan_batch_tasks(entries, tv).len() > 0);
        assert(plan_batches(pre, tv) == plan_batches(values.take(k), tv).push(plan_batch_tasks(entries, tv)));
        assert(chunks.take(m) =~= chunks.take(k).push(chunks[k]));
    }
}

/// A simple plan read back gives the tasks cut every `size`, in order: when
/// the ids are distinct and a parsed plan lists the batches that
/// `build_simple_execution_plan` made (`simple_batches_ok`), the batches
/// read from it are `tasks[0..size]`, `tasks[size..2 * size]`, ... (the last
/// one shorter), one per batch of the plan, and no other.
pub proof fn law_simple_plan_reads_back_as_chunks(
    plan: YamlValue,
    batches: Seq<Batch>,
    tasks: Seq<TaskOverview>,
    size: nat,
)
    requires
        size > 0,
        task_ids_distinct(tasks),
        simple_batches_ok(batches, tasks, size),
        plan_lists_batches(plan, batches),
    ensures
        batches_from_plan_value(plan, overview_views(tasks)) == task_chunks(
            overview_views(tasks),
            batches.len(),
            size,
        ),
{
    let tv = overview_views(tasks);
    let values = value_get_list(plan_object(plan), "batches"@)->0;
    let nb = batches.len();
    lemma_listed_prefix_reads_as_chunks(plan, batches, tasks, size, nb as int);
    assert(values.take(nb as int) =~= values);
    let chunks = task_chunks(tv, nb, size);
    assert(chunks.take(nb as int) =~= chunks);
    if nb == 0 {
        assert(tv.len() == 0);
        assert(fallback_batches(tv) =~= Seq::<Seq<TaskOverviewView>>::empty());
        assert(chunks =~= Seq::<Seq<TaskOverviewView>>::empty());
    } else {
        assert(chunks[0].len() > 0) by {
            assert(0 * size == 0) by (nonlinear_arith);
            assert(simple_batch_matches(batches[0], 0, tasks, size));
        }
    }
}

fn simple_batch(tasks: &[TaskOverview], b: usize, first: usize, last: usize, size: usize) -> (res:
    Batch)
    requires
        first <= last <= tasks@.len(),
        first == b * size,
        last == (if (b + 1) * size <= tasks@.len() {
            (b + 1) * size
        } else {
            tasks@.len() as int
        }),
        b < usize::MAX,
        first < usize::MAX,
        size > 0,
    ensures
        simple_batch_matches(res, b as int, tasks@, size as nat),
{
    let id = b + 1;
    let mut reason = String::new();
    push_str(&mut reason, "Part of batch ");
    push_decimal(&mut reason, id as u64);
    let mut description = String::new();
    push_str(&mut description, "Batch ");
    push_decimal(&mut description, id as u64);
    push_str(&mut description, " - Tasks ");
    push_decimal(&mut description, (first + 1) as u64);
    push_str(&mut description, " to ");
    push_decimal(&mut description, last as u64);
    let mut rationale = String::new();
    push_str(&mut rationale, "Fixed batch size of ");
    push_decimal(&mut rationale, size as u64);
    push_str(&mut rationale, " tasks running in parallel");
    let mut batch_tasks: Vec<BatchTask> = Vec::new();
    let mut k = first;
    while k < last
        invariant
            first <= k <= last <= tasks@.len(),
            batch_tasks@.len() == k - first,
            reason@ == simple_batch_reason(id as nat),
            forall|j: int|
                0 <= j < batch_tasks@.len() ==> {
                    let t = #[trigger] batch_tasks@[j];
                    &&& t.task_id == tasks@[first + j].task.id
                    &&& t.task_name@ == tasks@[first + j].task.name@
                    &&& t.reason@ == simple_batch_reason(id as nat)
                },
        decreases last - k,
    {
        batch_tasks.push(
            BatchTask {
                task_id: tasks[k].task.id,
                task_name: tasks[k].task.name.clone(),
                reason: reason.clone(),
            },
        );
        k = k + 1;
    }
    let strategy = String::from_str("sequential");
    Batch {
        batch_id: id,
        description,
        strategy,
        tasks: batch_tasks,
        parallelization_rationale: rationale,
    }
}

/// Simple execution plan: the tasks in order, cut into batches of
/// `batch_size` tasks (the last one may be shorter).
pub fn build_simple_execution_plan(tasks: &[TaskOverview], batch_size: usize) -> (res:
    ExecutionPlan)
    requires
        batch_size > 0,
    ensures
        res.total_tasks == tasks@.len(),
        res.total_batches == res.batches@.len(),
        simple_batches_ok(res.batches@, tasks@, batch_size as nat),
        res.dependencies_summary.critical_path@.len() == 0,
        res.dependencies_summary.parallelization_potential@ == (if res.total_batches > 1 {
            "high"@
        } else {
            "low"@
        }),
        res.dependencies_summary.parallelization_explanation@ == simple_plan_explanation(
            res.total_batches as nat,
            batch_size as nat,
        ),
{
    let n = tasks.len();
    let mut batches: Vec<Batch> = Vec::new();
    let mut first: usize = 0;
    assert(0 * batch_size == 0) by (nonlinear_arith);
    while first < n
        invariant
            first <= n == tasks@.len(),
            batch_size > 0,
            first < n ==> first == batches@.len() * batch_size,
            first == n ==> batches@.len() * batch_size >= n,
            batches@.len() == 0 || (batches@.len() - 1) * batch_size < n,
            forall|b: int|
                0 <= b < batches@.len() ==> simple_batch_matches(
                    #[trigger] batches@[b],
                    b,
                    tasks@,
                    batch_size as nat,
                ),
        decreases n - first,
    {
        let b = batches.len();
        assert(b <= b * batch_size) by (nonlinear_arith)
            requires
                batch_size > 0,
        ;
        let last = if n - first > batch_size {
            first + batch_size
        } else {
            n
        };
        assert((b + 1) * batch_size == b * batch_size + batch_size) by (nonlinear_arith);
        let batch = simple_batch(tasks, b, first, last, batch_size);
        let ghost prev = batches@;
        batches.push(batch);
        assert forall|c: int| 0 <= c < batches@.len() implies simple_batch_matches(
            #[trigger] batches@[c],
            c,
            tasks@,
            batch_size as nat,
        ) by {
            if c < b {
                assert(batches@[c] == prev[c]);
            }
        }
        first = last;
    }
    let total_batches = batches.len();
    let potential = if total_batches > 1 {
        String::from_str("high")
    } else {
        String::from_str("low")
    };
    let mut explanation = String::new();
    push_str(&mut explanation, "Tasks split into ");
    push_decimal(&mut explanation, total_batches as u64);
    push_str(&mut explanation, " fixed-size batches of up to ");
    push_decimal(&mut explanation, batch_size as u64);
    push_str(&mut explanation, " tasks each");
    ExecutionPlan {
        total_tasks: n,
        total_batches,
        batches,
        dependencies_summary: DependenciesSummary {
            critical_path: Vec::new(),
            parallelization_potential: potential,
            parallelization_explanation: explanation,
        },
    }
}

/// Why an execution plan could not be read.
#[derive(Debug)]
pub enum PlanError {
    /// The plan is not valid YAML; the parser's message.
    InvalidYaml(String),
    /// The plan has no `execution_plan.batches` list.
    MissingBatches,
}

impl PlanError {
    /// The message of the error, as the planner reports it (the parser's
    /// own message is kept in `InvalidYaml` but not shown).
    pub fn message(&self) -> (res: String)
        ensures
            res@ == match self {
                PlanError::InvalidYaml(_) => "Failed to parse execution plan YAML"@,
                PlanError::MissingBatches => "Missing execution_plan.batches in plan"@,
            },
    {
        match self {
            PlanError::InvalidYaml(_) => String::from_str("Failed to parse execution plan YAML"),
            PlanError::MissingBatches => String::from_str("Missing execution_plan.batches in plan"),
        }
    }
}

/// The task that a lookup table filled from `tasks` in order holds for `id`:
/// the last task with that id.
pub open spec fn task_by_id(tasks: Seq<TaskOverviewView>, id: u32) -> Option<TaskOverviewView>
    decreases tasks.len(),
{
    if tasks.len() == 0 {
        None
    } else if tasks.last().task.id == id {
        Some(tasks.last())
    } else {
        task_by_id(tasks.drop_last(), id)
    }
}

/// The task id a plan entry refers to: its `task_id` number, cut to 32 bits.
pub open spec fn task_ref_id(entry: YamlValue) -> Option<u32> {
    match value_get_u64(entry, "task_id"@) {
        Some(v) => Some(v as u32),
        None => None,
    }
}

/// The known tasks that the entries of a plan batch refer to, in order;
/// entries without a numeric `task_id` or naming an unknown task are skipped.
pub open spec fn plan_batch_tasks(entries: Seq<YamlValue>, tasks: Seq<TaskOverviewView>) -> Seq<
    TaskOverviewView,
>
    decreases entries.len(),
{
    if entries.len() == 0 {
        Seq::empty()
    } else {
        let prev = plan_batch_tasks(entries.drop_last(), tasks);
        match task_ref_id(entries.last()) {
            Some(id) => match task_by_id(tasks, id) {
                Some(t) => prev.push(t),
                None => prev,
            },
            None => prev,
        }
    }
}

/// The non-empty batches read from a list of plan batches; a batch without a
/// `tasks` list is skipped.
pub open spec fn plan_batches(values: Seq<YamlValue>, tasks: Seq<TaskOverviewView>) -> Seq<
    Seq<TaskOverviewView>,
>
    decreases values.len(),
{
    if values.len() == 0 {
        Seq::empty()
    } else {
        let prev = plan_batches(values.drop_last(), tasks);
        match value_get_list(values.last(), "tasks"@) {
            Some(entries) => {
                let b = plan_batch_tasks(entries, tasks);
                if b.len() > 0 {
                    prev.push(b)
                } else {
                    prev
                }
            },
            None => prev,
        }
    }
}

/// The tasks of a plan batch come in the order its entries name them: those
/// read from its first `i` entries are the first of those read from all of
/// them, and each further entry adds at most one task, after them.
pub proof fn law_plan_batch_in_entry_order(entries: Seq<YamlValue>, tasks: Seq<TaskOverviewView>, i: int)
    requires
        0 <= i <= entries.len(),
    ensures
        ({
            let all = plan_batch_tasks(entries, tasks);
            let first = plan_batch_tasks(entries.take(i), tasks);
            &&& first.len() <= all.len()
            &&& all.take(first.len() as int) == first
            &&& i < entries.len() ==> plan_batch_tasks(entries.take(i + 1), tasks).len() <= first.len()
                + 1
        }),
    decreases entries.len() - i,
{
    if i < entries.len() {
        law_plan_batch_in_entry_order(entries, tasks, i + 1);
        let d = entries.take(i + 1);
        assert(d.drop_last() =~= entries.take(i));
        let first = plan_batch_tasks(entries.take(i), tasks);
        let next = plan_batch_tasks(d, tasks);
        let all = plan_batch_tasks(entries, tasks);
        assert(next.take(first.len() as int) =~= first);
        assert(all.take(first.len() as int) =~= all.take(next.len() as int).take(first.len() as int));
    } else {
        assert(entries.take(i) =~= entries);
        let all = plan_batch_tasks(entries, tasks);
        assert(all.take(all.len() as int) =~= all);
    }
}

/// The batches read from a plan come in the order the plan lists them: the
/// batches read from its first `i` batch definitions are the first batches
/// of those read from all of them, and each further definition adds at most
/// one batch, after them.
pub proof fn law_plan_batches_in_plan_order(values: Seq<YamlValue>, tasks: Seq<TaskOverviewView>, i: int)
    requires
        0 <= i <= values.len(),
    ensures
        ({
            let all = plan_batches(values, tasks);
            let first = plan_batches(values.take(i), tasks);
            &&& first.len() <= all.len()
            &&& all.take(first.len() as int) == first
            &&& i < values.len() ==> plan_batches(values.take(i + 1), tasks).len() <= first.len() + 1
        }),
    decreases values.len() - i,
{
    if i < values.len() {
        law_plan_batches_in_plan_order(values, tasks, i + 1);
        let d = values.take(i + 1);
        assert(d.drop_last() =~= values.take(i));
        let first = plan_batches(values.take(i), tasks);
        let next = plan_batches(d, tasks);
        let all = plan_batches(values, tasks);
        assert(next.take(first.len() as int) =~= first);
        assert(all.take(first.len() as int) =~= all.take(next.len() as int).take(first.len() as int));
    } else {
        assert(values.take(i) =~= values);
        let all = plan_batches(values, tasks);
        assert(all.take(all.len() as int) =~= all);
    }
}

/// The plan object: the value under `execution_plan`, or the whole document.
pub open spec fn plan_object(plan: YamlValue) -> YamlValue {
    match value_get(plan, "execution_plan"@) {
        Some(p) => p,
        None => plan,
    }
}

/// Batches named by a parsed plan; when it names none, the fallback analysis.
pub open spec fn batches_from_plan_value(plan: YamlValue, tasks: Seq<TaskOverviewView>) -> Seq<
    Seq<TaskOverviewView>,
> {
    let listed = match value_get_list(plan_object(plan), "batches"@) {
        Some(values) => plan_batches(values, tasks),
        None => Seq::empty(),
    };
    if listed.len() == 0 {
        fallback_batches(tasks)
    } else {
        listed
    }
}

/// A plan entry names one of `tasks`: its `task_id` is the id of one of them.
pub open spec fn entry_names_task(entry: YamlValue, tasks: Seq<TaskOverviewView>) -> bool {
    match task_ref_id(entry) {
        Some(id) => task_by_id(tasks, id) is Some,
        None => false,
    }
}

/// No entry of any batch that a parsed plan lists names one of `tasks`.
pub open spec fn plan_names_no_task(plan: YamlValue, tasks: Seq<TaskOverviewView>) -> bool {
    match value_get_list(plan_object(plan), "batches"@) {
        Some(values) => forall|i: int|
            0 <= i < values.len() ==> match value_get_list(#[trigger] values[i], "tasks"@) {
                Some(entries) => forall|j: int|
                    0 <= j < entries.len() ==> !entry_names_task(#[trigger] entries[j], tasks),
                None => true,
            },
        None => true,
    }
}

proof fn lemma_batch_of_unknown_tasks_is_empty(entries: Seq<YamlValue>, tasks: Seq<TaskOverviewView>)
    requires
        forall|j: int| 0 <= j < entries.len() ==> !entry_names_task(#[trigger] entries[j], tasks),
    ensures
        plan_batch_tasks(entries, tasks).len() == 0,
    decreases entries.len(),
{
    if entries.len() > 0 {
        let p = entries.drop_last();
        assert forall|j: int| 0 <= j < p.len() implies !entry_names_task(#[trigger] p[j], tasks) by {
            assert(p[j] == entries[j]);
        }
        lemma_batch_of_unknown_tasks_is_empty(p, tasks);
        assert(!entry_names_task(entries[entries.len() - 1], tasks));
    }
}

proof fn lemma_batches_of_unknown_tasks_are_empty(values: Seq<YamlValue>, tasks: Seq<TaskOverviewView>)
    requires
        forall|i: int|
            0 <= i < values.len() ==> match value_get_list(#[trigger] values[i], "tasks"@) {
                Some(entries) => forall|j: int|
                    0 <= j < entries.len() ==> !entry_names_task(#[trigger] entries[j], tasks),
                None => true,
            },
    ensures
        plan_batches(values, tasks).len() == 0,
    decreases values.len(),
{
    if values.len() > 0 {
        let p = values.drop_last();
        assert forall|i: int| 0 <= i < p.len() implies match value_get_list(#[trigger] p[i], "tasks"@) {
            Some(entries) => forall|j: int|
                0 <= j < entries.len() ==> !entry_names_task(#[trigger] entries[j], tasks),
            None => true,
        } by {
            assert(p[i] == values[i]);
        }
        lemma_batches_of_unknown_tasks_are_empty(p, tasks);
        let last = values[values.len() - 1];
        match value_get_list(last, "tasks"@) {
            Some(entries) => lemma_batch_of_unknown_tasks_is_empty(entries, tasks),
            None => {},
        }
    }
}

/// A plan that names none of the tasks falls back: when no `task_id` listed
/// in its batches is the id of one of `tasks` (or it lists no batches), the
/// batches read from it are those of the fallback dependency analysis.
pub proof fn law_plan_naming_no_task_falls_back(plan: YamlValue, tasks: Seq<TaskOverviewView>)
    requires
        plan_names_no_task(plan, tasks),
    ensures
        batches_from_plan_value(plan, tasks) == fallback_batches(tasks),
{
    match value_get_list(plan_object(plan), "batches"@) {
        Some(values) => lemma_batches_of_unknown_tasks_are_empty(values, tasks),
        None => {},
    }
}

fn find_task_by_id(tasks: &[TaskOverview], id: u32) -> (r: Option<TaskOverview>)
    ensures
        r matches Some(t) ==> task_by_id(overview_views(tasks@), id) == Some(t@),
        r is None ==> task_by_id(overview_views(tasks@), id) is None,
{
    let ghost tv = overview_views(tasks@);
    let mut i = tasks.len();
    assert(tv.take(i as int) =~= tv);
    while i > 0
        invariant
            i <= tasks@.len(),
            tv == overview_views(tasks@),
            task_by_id(tv, id) == task_by_id(tv.take(i as int), id),
        decreases i,
    {
        let ghost pre = tv.take(i as int);
        assert(pre.drop_last() =~= tv.take(i - 1));
        assert(pre.last() == tasks@[i - 1]@);
        if tasks[i - 1].task.id == id {
            return Some(tasks[i - 1].clone());
        }
        i = i - 1;
    }
    None
}

fn batch_from_entries(entries: &Vec<YamlNode>, tasks: &[TaskOverview]) -> (res: Vec<TaskOverview>)
    ensures
        overview_views(res@) == plan_batch_tasks(nodes_view(entries@), overview_views(tasks@)),
{
    proof {
        lemma_nodes_view(entries@);
    }
    let ghost ev = nodes_view(entries@);
    let ghost tv = overview_views(tasks@);
    let mut res: Vec<TaskOverview> = Vec::new();
    let mut i: usize = 0;
    while i < entries.len()
        invariant
            i <= entries.len(),
            ev == nodes_view(entries@),
            ev.len() == entries@.len(),
            forall|k: int| 0 <= k < entries@.len() ==> #[trigger] ev[k] == entries@[k]@,
            tv == overview_views(tasks@),
            overview_views(res@) == plan_batch_tasks(ev.take(i as int), tv),
        decreases entries.len() - i,
    {
        let ghost pre = ev.take(i + 1);
        assert(pre.drop_last() =~= ev.take(i as int));
        assert(pre.last() == entries@[i as int]@);
        let id = match yaml_get(&entries[i], "task_id") {
            Some(v) => yaml_as_u64(v),
            None => None,
        };
        match id {
            Some(v) => {
                let tid = v as u32;
                match find_task_by_id(tasks, tid) {
                    Some(t) => {
                        res.push(t);
                        assert(overview_views(res@) =~= plan_batch_tasks(ev.take(i as int), tv).push(
                            task_by_id(tv, tid)->0,
                        ));
                    },
                    None => {},
                }
            },
            None => {},
        }
        i = i + 1;
    }
    assert(ev.take(i as int) =~= ev);
    res
}

/// Batches named by an already parsed execution plan: the plan object is the
/// value under `execution_plan` (or the whole document); each entry of its
/// `batches` list with a `tasks` list gives the known tasks it names, in
/// order, and non-empty batches are kept. When no batch is found, the
/// fallback dependency analysis decides.
pub fn batches_from_plan(plan: &YamlNode, tasks: &[TaskOverview]) -> (res: Vec<Vec<TaskOverview>>)
    ensures
        batch_views(res@) == batches_from_plan_value(plan@, overview_views(tasks@)),
{
    let ghost tv = overview_views(tasks@);
    let plan_obj = match yaml_get(plan, "execution_plan") {
        Some(p) => p,
        None => plan,
    };
    let mut batches: Vec<Vec<TaskOverview>> = Vec::new();
    let listed = match yaml_get(plan_obj, "batches") {
        Some(b) => yaml_as_list(b),
        None => None,
    };
    match listed {
        Some(values) => {
            proof {
                lemma_nodes_view(values@);
            }
            let ghost vv = nodes_view(values@);
            let mut i: usize = 0;
            while i < values.len()
                invariant
                    i <= values.len(),
                    vv == nodes_view(values@),
                    vv.len() == values@.len(),
                    forall|k: int| 0 <= k < values@.len() ==> #[trigger] vv[k] == values@[k]@,
                    tv == overview_views(tasks@),
                    batch_views(batches@) == plan_batches(vv.take(i as int), tv),
                decreases values.len() - i,
            {
                let ghost pre = vv.take(i + 1);
                assert(pre.drop_last() =~= vv.take(i as int));
                assert(pre.last() == values@[i as int]@);
                let entries = match yaml_get(&values[i], "tasks") {
                    Some(t) => yaml_as_list(t),
                    None => None,
                };
                match entries {
                    Some(list) => {
                        let b = batch_from_entries(list, tasks);
                        if b.len() > 0 {
                            let ghost prev = batch_views(batches@);
                            batches.push(b);
                            assert(batch_views(batches@) =~= prev.push(overview_views(b@)));
                        }
                    },
                    None => {},
                }
                i = i + 1;
            }
            assert(vv.take(i as int) =~= vv);
        },
        None => {},
    }
    if batches.len() == 0 {
        return build_execution_batches_fallback(tasks);
    }
    batches
}

/// Parse an execution plan and convert it to batches of tasks (see
/// [`batches_from_plan`]); fails only when the text is not valid YAML. The
/// `debug` flag only asks for progress messages, which the library does not
/// print.
pub fn parse_execution_plan(execution_plan_yaml: &str, tasks: &[TaskOverview], debug: bool) -> (res:
    Result<Vec<Vec<TaskOverview>>, PlanError>)
    ensures
        res is Err <==> yaml_parse(execution_plan_yaml@) is None,
        res matches Err(e) ==> e is InvalidYaml,
        res matches Ok(b) ==> batch_views(b@) == batches_from_plan_value(
            yaml_parse(execution_plan_yaml@)->0,
            overview_views(tasks@),
        ),
{
    match parse_yaml_text(execution_plan_yaml) {
        Ok(plan) => Ok(batches_from_plan(&plan, tasks)),
        Err(msg) => Err(PlanError::InvalidYaml(msg)),
    }
}

} // verus!
