//! Execution planning over tasks kept as parsed YAML values.
use vstd::prelude::*;

use crate::task_planner::execution_plan::{
    contains_id, contains_id_upto, lemma_push_no_duplicates, PlanError,
};
use crate::workflow_utils::yaml::{fenced_yaml, fenced_yaml_text};
use crate::yaml_model::{
    clone_node, lemma_nodes_view, nodes_view, parse_yaml_text, value_as_u64, value_get,
    value_get_list, value_get_u64, yaml_as_list, yaml_as_str, yaml_as_u64, yaml_get, yaml_parse,
    YamlNode, YamlValue,
};

verus! {

/// Abstract values of a list of YAML values.
pub open spec fn node_views(s: Seq<YamlNode>) -> Seq<YamlValue> {
    s.map_values(|n: YamlNode| n@)
}

/// Abstract values of a list of batches of YAML values.
pub open spec fn node_batch_views(b: Seq<Vec<YamlNode>>) -> Seq<Seq<YamlValue>> {
    b.map_values(|v: Vec<YamlNode>| node_views(v@))
}

/// The id of a task value: `task.id`, cut to 32 bits.
pub open spec fn task_value_id(task: YamlValue) -> Option<u32> {
    match value_get(task, "task"@) {
        Some(t) => match value_get_u64(t, "id"@) {
            Some(v) => Some(v as u32),
            None => None,
        },
        None => None,
    }
}

/// The name of a task value: `task.name` when it is a string.
pub open spec fn task_value_name(task: YamlValue) -> Option<Seq<char>> {
    match value_get(task, "task"@) {
        Some(t) => crate::yaml_model::value_get_str(t, "name"@),
        None => None,
    }
}

/// Extract the task ID from a task YAML value (`task.id`, cut to 32 bits).
pub fn get_task_id(task: &YamlNode) -> (r: Option<u32>)
    ensures
        r == task_value_id(task@),
{
    match yaml_get(task, "task") {
        Some(t) => match yaml_get(t, "id") {
            Some(v) => match yaml_as_u64(v) {
                Some(u) => Some(u as u32),
                None => None,
            },
            None => None,
        },
        None => None,
    }
}

/// Extract the task name from a task YAML value (`task.name`).
pub fn get_task_name(task: &YamlNode) -> (r: Option<&str>)
    ensures
        r matches Some(s) ==> task_value_name(task@) == Some(s@),
        r is None ==> task_value_name(task@) is None,
{
    match yaml_get(task, "task") {
        Some(t) => match yaml_get(t, "name") {
            Some(v) => yaml_as_str(v),
            None => None,
        },
        None => None,
    }
}

/// Simple execution plan over task values: the tasks in order, cut into
/// batches of `batch_size` (the last one may be shorter).
pub fn generate_simple_execution_plan(tasks: &[YamlNode], batch_size: usize) -> (res: Result<
    Vec<Vec<YamlNode>>,
    PlanError,
>)
    requires
        batch_size > 0,
    ensures
        res matches Ok(batches) && ({
            &&& batches@.len() * batch_size >= tasks@.len()
            &&& batches@.len() == 0 || (batches@.len() - 1) * batch_size < tasks@.len()
            &&& forall|b: int|
                0 <= b < batches@.len() ==> node_views(#[trigger] batches@[b]@) == node_views(
                    tasks@,
                ).subrange(
                    b * batch_size,
                    if (b + 1) * batch_size <= tasks@.len() {
                        (b + 1) * batch_size
                    } else {
                        tasks@.len() as int
                    },
                )
        }),
{
    let n = tasks.len();
    let mut batches: Vec<Vec<YamlNode>> = Vec::new();
    let mut first: usize = 0;
    assert(0 * batch_size == 0) by (nonlinear_arith);
    while first < n
        invariant
            first <= n == tasks@.len(),
            batch_size > 0,
            first < n ==> first == batches@.len() * batch_size,
            first == n ==> batches@.len() * batch_size >= n,
            batches@.len() == 0 || (batches@.len() - 1) * batch_size < n,
            forall|b: int|
                0 <= b < batches@.len() ==> node_views(#[trigger] batches@[b]@) == node_views(
                    tasks@,
                ).subrange(
                    b * batch_size,
                    if (b + 1) * batch_size <= tasks@.len() {
                        (b + 1) * batch_size
                    } else {
                        tasks@.len() as int
                    },
                ),
        decreases n - first,
    {
        let b = batches.len();
        let last = if n - first > batch_size {
            first + batch_size
        } else {
            n
        };
        assert((b + 1) * batch_size == b * batch_size + batch_size) by (nonlinear_arith);
        let mut chunk: Vec<YamlNode> = Vec::new();
        let mut k = first;
        while k < last
            invariant
                first <= k <= last <= n == tasks@.len(),
                node_views(chunk@) == node_views(tasks@).subrange(first as int, k as int),
            decreases last - k,
        {
            let c = clone_node(&tasks[k]);
            let ghost prev = chunk@;
            chunk.push(c);
            assert(node_views(tasks@)[k as int] == tasks@[k as int]@);
            assert(chunk@ == prev.push(c));
            assert(node_views(chunk@) =~= node_views(prev).push(c@));
            assert(node_views(chunk@) =~= node_views(tasks@).subrange(first as int, k + 1));
            k = k + 1;
        }
        let ghost prev = batches@;
        batches.push(chunk);
        assert forall|c: int| 0 <= c < batches@.len() implies node_views(
            #[trigger] batches@[c]@,
        ) == node_views(tasks@).subrange(
            c * batch_size,
            if (c + 1) * batch_size <= tasks@.len() {
                (c + 1) * batch_size
            } else {
                tasks@.len() as int
            },
        ) by {
            if c < b {
                assert(batches@[c] == prev[c]);
            }
        }
        first = last;
    }
    Ok(batches)
}

/// The last task value with the given id (a lookup table filled from
/// `tasks` in order keeps the last one).
pub open spec fn last_task_value(tasks: Seq<YamlValue>, id: u32) -> Option<YamlValue>
    decreases tasks.len(),
{
    if tasks.len() == 0 {
        None
    } else if task_value_id(tasks.last()) == Some(id) {
        Some(tasks.last())
    } else {
        last_task_value(tasks.drop_last(), id)
    }
}

/// Takes, for each plan entry in order, the task its `task_id` names, unless
/// that id was taken before (each task leaves the lookup table once).
pub open spec fn take_batch(entries: Seq<YamlValue>, tasks: Seq<YamlValue>, taken: Seq<u32>) -> (
    Seq<YamlValue>,
    Seq<u32>,
)
    decreases entries.len(),
{
    if entries.len() == 0 {
        (Seq::empty(), taken)
    } else {
        let (b, t) = take_batch(entries.drop_last(), tasks, taken);
        match value_get_u64(entries.last(), "task_id"@) {
            Some(v) => {
                let id = v as u32;
                match last_task_value(tasks, id) {
                    Some(task) => if !t.contains(id) {
                        (b.push(task), t.push(id))
                    } else {
                        (b, t)
                    },
                    None => (b, t),
                }
            },
            None => (b, t),
        }
    }
}

/// The non-empty batches taken from a list of plan batches, in order.
pub open spec fn take_batches(defs: Seq<YamlValue>, tasks: Seq<YamlValue>) -> (
    Seq<Seq<YamlValue>>,
    Seq<u32>,
)
    decreases defs.len(),
{
    if defs.len() == 0 {
        (Seq::empty(), Seq::empty())
    } else {
        let (bs, t) = take_batches(defs.drop_last(), tasks);
        let entries = match value_get_list(defs.last(), "tasks"@) {
            Some(e) => e,
            None => Seq::empty(),
        };
        let (b, t2) = take_batch(entries, tasks, t);
        (if b.len() > 0 {
            bs.push(b)
        } else {
            bs
        }, t2)
    }
}

/// The tasks of a plan batch come in the order its entries name them: those
/// taken for its first `i` entries are the first of those taken for all of
/// them, and each further entry adds at most one task, after them.
pub proof fn law_plan_batch_keeps_entry_order(
    entries: Seq<YamlValue>,
    tasks: Seq<YamlValue>,
    taken: Seq<u32>,
    i: int,
)
    requires
        0 <= i <= entries.len(),
    ensures
        ({
            let all = take_batch(entries, tasks, taken).0;
            let first = take_batch(entries.take(i), tasks, taken).0;
            &&& first.len() <= all.len()
            &&& all.take(first.len() as int) == first
            &&& i < entries.len() ==> take_batch(entries.take(i + 1), tasks, taken).0.len()
                <= first.len() + 1
        }),
    decreases entries.len() - i,
{
    if i < entries.len() {
        law_plan_batch_keeps_entry_order(entries, tasks, taken, i + 1);
        let d = entries.take(i + 1);
        assert(d.drop_last() =~= entries.take(i));
        let first = take_batch(entries.take(i), tasks, taken).0;
        let next = take_batch(d, tasks, taken).0;
        let all = take_batch(entries, tasks, taken).0;
        assert(next.take(first.len() as int) =~= first);
        assert(all.take(first.len() as int) =~= all.take(next.len() as int).take(first.len() as int));
    } else {
        assert(entries.take(i) =~= entries);
        let all = take_batch(entries, tasks, taken).0;
        assert(all.take(all.len() as int) =~= all);
    }
}

/// The batches read from a plan come in the order the plan lists them: the
/// batches read from its first `i` batch definitions are the first batches
/// of those read from all of them, and each further definition adds at most
/// one batch, after them.
pub proof fn law_plan_batches_keep_plan_order(defs: Seq<YamlValue>, tasks: Seq<YamlValue>, i: int)
    requires
        0 <= i <= defs.len(),
    ensures
        ({
            let all = take_batches(defs, tasks).0;
            let first = take_batches(defs.take(i), tasks).0;
            &&& first.len() <= all.len()
            &&& all.take(first.len() as int) == first
            &&& i < defs.len() ==> take_batches(defs.take(i + 1), tasks).0.len() <= first.len() + 1
        }),
    decreases defs.len() - i,
{
    if i < defs.len() {
        law_plan_batches_keep_plan_order(defs, tasks, i + 1);
        let d = defs.take(i + 1);
        assert(d.drop_last() =~= defs.take(i));
        let first = take_batches(defs.take(i), tasks).0;
        let next = take_batches(d, tasks).0;
        let all = take_batches(defs, tasks).0;
        assert(next.take(first.len() as int) =~= first);
        assert(all.take(first.len() as int) =~= all.take(next.len() as int).take(first.len() as int));
    } else {
        assert(defs.take(i) =~= defs);
        let all = take_batches(defs, tasks).0;
        assert(all.take(all.len() as int) =~= all);
    }
}

/// The batch list of a parsed plan: `None` when it has no
/// `execution_plan.batches` list.
pub open spec fn plan_value_batches(plan: YamlValue, tasks: Seq<YamlValue>) -> Option<
    Seq<Seq<YamlValue>>,
> {
    match value_get(plan, "execution_plan"@) {
        Some(ep) => match value_get_list(ep, "batches"@) {
            Some(defs) => Some(take_batches(defs, tasks).0),
            None => None,
        },
        None => None,
    }
}

fn find_task_value(tasks: &[YamlNode], id: u32) -> (r: Option<&YamlNode>)
    ensures
        r matches Some(t) ==> last_task_value(node_views(tasks@), id) == Some(t@),
        r is None ==> last_task_value(node_views(tasks@), id) is None,
{
    let ghost tv = node_views(tasks@);
    let mut i = tasks.len();
    assert(tv.take(i as int) =~= tv);
    while i > 0
        invariant
            i <= tasks@.len(),
            tv == node_views(tasks@),
            last_task_value(tv, id) == last_task_value(tv.take(i as int), id),
        decreases i,
    {
        let ghost pre = tv.take(i as int);
        assert(pre.drop_last() =~= tv.take(i - 1));
        assert(pre.last() == tasks@[i - 1]@);
        if get_task_id(&tasks[i - 1]) == Some(id) {
            return Some(&tasks[i - 1]);
        }
        i = i - 1;
    }
    None
}

fn take_batch_exec(entries: &Vec<YamlNode>, tasks: &[YamlNode], taken: &mut Vec<u32>) -> (res: Vec<
    YamlNode,
>)
    ensures
        (node_views(res@), final(taken)@) == take_batch(
            nodes_view(entries@),
            node_views(tasks@),
            old(taken)@,
        ),
{
    proof {
        lemma_nodes_view(entries@);
    }
    let ghost ev = nodes_view(entries@);
    let ghost tv = node_views(tasks@);
    let ghost t0 = taken@;
    let mut res: Vec<YamlNode> = Vec::new();
    let mut i: usize = 0;
    while i < entries.len()
        invariant
            i <= entries.len(),
            ev == nodes_view(entries@),
            ev.len() == entries@.len(),
            forall|k: int| 0 <= k < entries@.len() ==> #[trigger] ev[k] == entries@[k]@,
            tv == node_views(tasks@),
            (node_views(res@), taken@) == take_batch(ev.take(i as int), tv, t0),
        decreases entries.len() - i,
    {
        let ghost pre = ev.take(i + 1);
        assert(pre.drop_last() =~= ev.take(i as int));
        assert(pre.last() == entries@[i as int]@);
        let id = match yaml_get(&entries[i], "task_id") {
            Some(v) => yaml_as_u64(v),
            None => None,
        };
        match id {
            Some(v) => {
                let tid = v as u32;
                match find_task_value(tasks, tid) {
                    Some(t) => {
                        if !contains_id(taken, tid) {
                            let ghost prev = res@;
                            res.push(clone_node(t));
                            taken.push(tid);
                            assert(node_views(res@) =~= node_views(prev).push(t@));
                        }
                    },
                    None => {},
                }
            },
            None => {},
        }
        i = i + 1;
    }
    assert(ev.take(i as int) =~= ev);
    res
}

/// Parse an execution plan YAML and convert it to batches of task values.
///
/// Tasks are looked up by `task.id` (the last task with an id wins); every
/// task is handed out at most once; batches that end up empty are dropped.
/// Fails when the text is not valid YAML or has no `execution_plan.batches`
/// list.
pub fn parse_execution_plan(execution_plan_yaml: &str, tasks: &[YamlNode]) -> (res: Result<
    Vec<Vec<YamlNode>>,
    PlanError,
>)
    ensures
        yaml_parse(execution_plan_yaml@) is None ==> res matches Err(PlanError::InvalidYaml(_)),
        yaml_parse(execution_plan_yaml@) matches Some(plan) ==> match plan_value_batches(
            plan,
            node_views(tasks@),
        ) {
            Some(b) => res matches Ok(r) && node_batch_views(r@) == b,
            None => res matches Err(PlanError::MissingBatches),
        },
{
    let plan = match parse_yaml_text(execution_plan_yaml) {
        Ok(p) => p,
        Err(msg) => {
            return Err(PlanError::InvalidYaml(msg));
        },
    };
    let defs = match yaml_get(&plan, "execution_plan") {
        Some(ep) => match yaml_get(ep, "batches") {
            Some(b) => yaml_as_list(b),
            None => None,
        },
        None => None,
    };
    let defs = match defs {
        Some(d) => d,
        None => {
            return Err(PlanError::MissingBatches);
        },
    };
    proof {
        lemma_nodes_view(defs@);
    }
    let ghost dv = nodes_view(defs@);
    let ghost tv = node_views(tasks@);
    let mut taken: Vec<u32> = Vec::new();
    let mut batches: Vec<Vec<YamlNode>> = Vec::new();
    let mut i: usize = 0;
    while i < defs.len()
        invariant
            i <= defs.len(),
            dv == nodes_view(defs@),
            dv.len() == defs@.len(),
            forall|k: int| 0 <= k < defs@.len() ==> #[trigger] dv[k] == defs@[k]@,
            tv == node_views(tasks@),
            (node_batch_views(batches@), taken@) == take_batches(dv.take(i as int), tv),
        decreases defs.len() - i,
    {
        let ghost pre = dv.take(i + 1);
        assert(pre.drop_last() =~= dv.take(i as int));
        assert(pre.last() == defs@[i as int]@);
        let empty: Vec<YamlNode> = Vec::new();
        let entries = match yaml_get(&defs[i], "tasks") {
            Some(t) => match yaml_as_list(t) {
                Some(l) => l,
                None => &empty,
            },
            None => &empty,
        };
        assert(nodes_view(empty@) =~= Seq::<YamlValue>::empty());
        let b = take_batch_exec(entries, tasks, &mut taken);
        if b.len() > 0 {
            let ghost prev = node_batch_views(batches@);
            batches.push(b);
            assert(node_batch_views(batches@) =~= prev.push(node_views(b@)));
        }
        i = i + 1;
    }
    assert(dv.take(i as int) =~= dv);
    Ok(batches)
}

/// A dependency entry is satisfied when its `task_id` is scheduled; an entry
/// without a numeric `task_id` counts as satisfied.
pub open spec fn dependency_value_met(dep: YamlValue, done: Seq<u32>) -> bool {
    match value_get_u64(dep, "task_id"@) {
        Some(v) => done.contains(v as u32),
        None => true,
    }
}

/// The `task.dependencies.requires_completion_of` list of a task value.
pub open spec fn task_value_dependencies(task: YamlValue) -> Option<Seq<YamlValue>> {
    match value_get(task, "task"@) {
        Some(t) => match value_get(t, "dependencies"@) {
            Some(d) => value_get_list(d, "requires_completion_of"@),
            None => None,
        },
        None => None,
    }
}

/// Every dependency of a task value is satisfied by the `done` ids (a task
/// without a dependency list has none).
pub open spec fn value_dependencies_met(task: YamlValue, done: Seq<u32>) -> bool {
    match task_value_dependencies(task) {
        Some(deps) => forall|i: int| 0 <= i < deps.len() ==> dependency_value_met(#[trigger] deps[i], done),
        None => true,
    }
}

/// One scan over `tasks[..k]` of task values, starting with the ids in
/// `done` (the earlier batches): a task joins the batch when it has an id not
/// scheduled yet and every task it requires is in an earlier batch; tasks
/// without an id are skipped.
pub open spec fn value_scheduling_pass(tasks: Seq<YamlValue>, done: Seq<u32>, k: int) -> (
    Seq<YamlValue>,
    Seq<u32>,
)
    decreases k,
{
    if k <= 0 {
        (Seq::empty(), done)
    } else {
        let (batch, sched) = value_scheduling_pass(tasks, done, k - 1);
        let t = tasks[k - 1];
        match task_value_id(t) {
            Some(id) => if !sched.contains(id) && value_dependencies_met(t, done) {
                (batch.push(t), sched.push(id))
            } else {
                (batch, sched)
            },
            None => (batch, sched),
        }
    }
}

/// Task values of `tasks[..k]` that have an id not among the `done` ids.
pub open spec fn value_unscheduled(tasks: Seq<YamlValue>, done: Seq<u32>, k: int) -> Seq<YamlValue>
    decreases k,
{
    if k <= 0 {
        Seq::empty()
    } else {
        let rest = value_unscheduled(tasks, done, k - 1);
        match task_value_id(tasks[k - 1]) {
            Some(id) => if done.contains(id) {
                rest
            } else {
                rest.push(tasks[k - 1])
            },
            None => rest,
        }
    }
}

pub proof fn lemma_value_pass_len(tasks: Seq<YamlValue>, done: Seq<u32>, k: int)
    ensures
        value_scheduling_pass(tasks, done, k).1.len() == done.len() + value_scheduling_pass(
            tasks,
            done,
            k,
        ).0.len(),
        value_scheduling_pass(tasks, done, k).0.len() == 0 ==> value_scheduling_pass(
            tasks,
            done,
            k,
        ).1 == done,
        value_scheduling_pass(tasks, done, k).1.take(done.len() as int) == done,
    decreases k,
{
    if k > 0 {
        lemma_value_pass_len(tasks, done, k - 1);
        let sched = value_scheduling_pass(tasks, done, k - 1).1;
        assert forall|x: u32| sched.push(x).take(done.len() as int) == done by {
            assert(sched.push(x).take(done.len() as int) =~= sched.take(done.len() as int));
        }
    } else {
        assert(done.take(done.len() as int) =~= done);
    }
}

/// Batches of the dependency analysis over task values once the ids in
/// `done` are scheduled (see `fallback_from` for the typed tasks).
pub open spec fn value_fallback_from(tasks: Seq<YamlValue>, done: Seq<u32>) -> Seq<Seq<YamlValue>>
    decreases (if done.len() < tasks.len() {
        tasks.len() - done.len()
    } else {
        0
    }),
{
    if done.len() >= tasks.len() {
        Seq::empty()
    } else {
        let (batch, sched) = value_scheduling_pass(tasks, done, tasks.len() as int);
        if batch.len() == 0 {
            let rem = value_unscheduled(tasks, done, tasks.len() as int);
            if rem.len() > 0 {
                seq![rem]
            } else {
                Seq::empty()
            }
        } else {
            proof {
                lemma_value_pass_len(tasks, done, tasks.len() as int);
            }
            seq![batch] + value_fallback_from(tasks, sched)
        }
    }
}

/// The ids of a list of task values (a value without an id counts as 0; the
/// fallback never schedules one).
pub open spec fn value_task_ids(s: Seq<YamlValue>) -> Seq<u32> {
    s.map_values(
        |t: YamlValue|
            match task_value_id(t) {
                Some(i) => i,
                None => 0,
            },
    )
}

/// The ids of the task values in the first `b` batches.
pub open spec fn value_ids_before(batches: Seq<Seq<YamlValue>>, b: int) -> Seq<u32> {
    value_task_ids(batches.take(b).flatten())
}

/// Every entry of the `task.dependencies.requires_completion_of` list of a
/// task value that has a numeric `task_id` names one of `ids`.
pub open spec fn value_requirements_in(task: YamlValue, ids: Seq<u32>) -> bool {
    match task_value_dependencies(task) {
        Some(deps) => forall|i: int|
            0 <= i < deps.len() ==> (value_get_u64(#[trigger] deps[i], "task_id"@) matches Some(v)
                ==> ids.contains(v as u32)),
        None => true,
    }
}

proof fn lemma_requirements_are_dependencies(task: YamlValue, ids: Seq<u32>)
    ensures
        value_requirements_in(task, ids) == value_dependencies_met(task, ids),
{
}

proof fn lemma_value_pass_facts(tasks: Seq<YamlValue>, done: Seq<u32>, k: int)
    requires
        0 <= k <= tasks.len(),
    ensures
        ({
            let (batch, sched) = value_scheduling_pass(tasks, done, k);
            &&& sched == done + value_task_ids(batch)
            &&& forall|j: int| 0 <= j < batch.len() ==> value_dependencies_met(#[trigger] batch[j], done)
            &&& batch.len() == 0 ==> forall|i: int|
                0 <= i < k && (task_value_id(tasks[i]) matches Some(id) && !done.contains(id))
                    ==> !value_dependencies_met(#[trigger] tasks[i], done)
        }),
    decreases k,
{
    if k > 0 {
        lemma_value_pass_facts(tasks, done, k - 1);
        lemma_value_pass_len(tasks, done, k - 1);
        let (batch, sched) = value_scheduling_pass(tasks, done, k - 1);
        let t = tasks[k - 1];
        match task_value_id(t) {
            Some(id) => {
                if !sched.contains(id) && value_dependencies_met(t, done) {
                    let nb = batch.push(t);
                    assert(value_task_ids(nb) =~= value_task_ids(batch).push(id));
                    assert(done + value_task_ids(nb) =~= (done + value_task_ids(batch)).push(id));
                    assert forall|j: int| 0 <= j < nb.len() implies value_dependencies_met(
                        #[trigger] nb[j],
                        done,
                    ) by {
                        if j < batch.len() {
                            assert(nb[j] == batch[j]);
                        }
                    }
                } else {
                    if batch.len() == 0 {
                        assert(sched == done);
                    }
                }
            },
            None => {},
        }
    } else {
        assert(done + value_task_ids(Seq::<YamlValue>::empty()) =~= done);
    }
}

proof fn lemma_value_unscheduled_facts(tasks: Seq<YamlValue>, done: Seq<u32>, k: int)
    requires
        0 <= k <= tasks.len(),
    ensures
        forall|q: int|
            0 <= q < value_unscheduled(tasks, done, k).len() ==> exists|i: int|
                0 <= i < k && tasks[i] == #[trigger] value_unscheduled(tasks, done, k)[q] && (
                task_value_id(tasks[i]) matches Some(id) && !done.contains(id)),
    decreases k,
{
    if k > 0 {
        lemma_value_unscheduled_facts(tasks, done, k - 1);
        let rest = value_unscheduled(tasks, done, k - 1);
        let r = value_unscheduled(tasks, done, k);
        assert forall|q: int| 0 <= q < r.len() implies exists|i: int|
            0 <= i < k && tasks[i] == #[trigger] r[q] && (task_value_id(tasks[i]) matches Some(id)
                && !done.contains(id)) by {
            if q < rest.len() {
                assert(r[q] == rest[q]);
                let i = choose|i: int|
                    0 <= i < k - 1 && tasks[i] == #[trigger] rest[q] && (task_value_id(
                        tasks[i],
                    ) matches Some(id) && !done.contains(id));
                assert(0 <= i < k && tasks[i] == r[q]);
            } else {
                assert(r[q] == tasks[k - 1]);
            }
        }
    }
}

proof fn lemma_value_take_flatten_after_first(batch: Seq<YamlValue>, rest: Seq<Seq<YamlValue>>, b: int)
    requires
        1 <= b <= rest.len() + 1,
    ensures
        (seq![batch] + rest).take(b).flatten() == batch + rest.take(b - 1).flatten(),
{
    let s = (seq![batch] + rest).take(b);
    assert(s.first() == batch);
    assert(s.drop_first() =~= rest.take(b - 1));
    assert(s.flatten() == s.first() + s.drop_first().flatten());
}

/// Where the batches of the value fallback stand, once the ids in `done` are scheduled.
proof fn lemma_value_fallback_layers(tasks: Seq<YamlValue>, done: Seq<u32>)
    ensures
        ({
            let r = value_fallback_from(tasks, done);
            forall|b: int, j: int|
                0 <= b < r.len() && 0 <= j < r[b].len() ==> value_dependencies_met(
                    #[trigger] r[b][j],
                    done + value_ids_before(r, b),
                ) || (b == r.len() - 1 && forall|j2: int|
                    0 <= j2 < r[b].len() ==> !value_dependencies_met(
                        r[b][j2],
                        done + value_ids_before(r, b),
                    ))
        }),
    decreases (if done.len() < tasks.len() {
        tasks.len() - done.len()
    } else {
        0
    }),
{
    let r = value_fallback_from(tasks, done);
    if done.len() < tasks.len() {
        let n = tasks.len() as int;
        lemma_value_pass_facts(tasks, done, n);
        lemma_value_pass_len(tasks, done, n);
        let (batch, sched) = value_scheduling_pass(tasks, done, n);
        if batch.len() == 0 {
            let rem = value_unscheduled(tasks, done, n);
            lemma_value_unscheduled_facts(tasks, done, n);
            if rem.len() > 0 {
                assert(r == seq![rem]);
                assert(r.take(0).flatten() =~= Seq::<YamlValue>::empty());
                assert(done + value_ids_before(r, 0) =~= done);
                assert forall|j2: int| 0 <= j2 < rem.len() implies !value_dependencies_met(
                    rem[j2],
                    done,
                ) by {
                    let i = choose|i: int|
                        0 <= i < n && tasks[i] == #[trigger] rem[j2] && (task_value_id(
                            tasks[i],
                        ) matches Some(id) && !done.contains(id));
                    assert(!value_dependencies_met(tasks[i], done));
                }
            }
        } else {
            let rest = value_fallback_from(tasks, sched);
            lemma_value_fallback_layers(tasks, sched);
            assert(r == seq![batch] + rest);
            assert forall|b: int| 1 <= b <= r.len() implies done + value_ids_before(r, b) == sched
                + value_ids_before(rest, b - 1) by {
                lemma_value_take_flatten_after_first(batch, rest, b);
                let x = rest.take(b - 1).flatten();
                assert(value_task_ids(batch + x) =~= value_task_ids(batch) + value_task_ids(x));
                assert(done + (value_task_ids(batch) + value_task_ids(x)) =~= (done
                    + value_task_ids(batch)) + value_task_ids(x));
            }
            assert forall|b: int, j: int|
                0 <= b < r.len() && 0 <= j < r[b].len() implies value_dependencies_met(
                #[trigger] r[b][j],
                done + value_ids_before(r, b),
            ) || (b == r.len() - 1 && forall|j2: int|
                0 <= j2 < r[b].len() ==> !value_dependencies_met(
                    r[b][j2],
                    done + value_ids_before(r, b),
                )) by {
                if b == 0 {
                    assert(r.take(0).flatten() =~= Seq::<YamlValue>::empty());
                    assert(done + value_ids_before(r, 0) =~= done);
                    assert(r[0] == batch);
                } else {
                    assert(r[b] == rest[b - 1]);
                }
            }
        }
    }
}

/// Every id in `ids` is the id of one of the task values.
pub open spec fn ids_of_task_values(ids: Seq<u32>, tasks: Seq<YamlValue>) -> bool {
    forall|i: int| 0 <= i < ids.len() ==> value_task_ids(tasks).contains(#[trigger] ids[i])
}

proof fn lemma_value_pass_ids(tasks: Seq<YamlValue>, done: Seq<u32>, k: int)
    requires
        0 <= k <= tasks.len(),
        done.no_duplicates(),
        ids_of_task_values(done, tasks),
    ensures
        value_scheduling_pass(tasks, done, k).1.no_duplicates(),
        ids_of_task_values(value_scheduling_pass(tasks, done, k).1, tasks),
    decreases k,
{
    if k > 0 {
        lemma_value_pass_ids(tasks, done, k - 1);
        let (batch, sched) = value_scheduling_pass(tasks, done, k - 1);
        let t = tasks[k - 1];
        match task_value_id(t) {
            Some(id) => {
                if !sched.contains(id) && value_dependencies_met(t, done) {
                    lemma_push_no_duplicates(sched, id);
                    assert(value_task_ids(tasks)[k - 1] == id);
                    assert forall|i: int| 0 <= i < sched.push(id).len() implies value_task_ids(
                        tasks,
                    ).contains(#[trigger] sched.push(id)[i]) by {
                        if i < sched.len() {
                            assert(sched.push(id)[i] == sched[i]);
                        }
                    }
                }
            },
            None => {},
        }
    }
}

proof fn lemma_value_unscheduled_holds(tasks: Seq<YamlValue>, done: Seq<u32>, k: int)
    requires
        0 <= k <= tasks.len(),
    ensures
        forall|i: int|
            0 <= i < k && (task_value_id(tasks[i]) matches Some(id) && !done.contains(id))
                ==> value_task_ids(value_unscheduled(tasks, done, k)).contains(
                #[trigger] value_task_ids(tasks)[i],
            ),
    decreases k,
{
    if k > 0 {
        lemma_value_unscheduled_holds(tasks, done, k - 1);
        let rest = value_unscheduled(tasks, done, k - 1);
        let r = value_unscheduled(tasks, done, k);
        assert forall|i: int|
            0 <= i < k && (task_value_id(tasks[i]) matches Some(id) && !done.contains(id))
                implies value_task_ids(r).contains(#[trigger] value_task_ids(tasks)[i]) by {
            if i < k - 1 {
                let m = choose|m: int|
                    0 <= m < value_task_ids(rest).len() && value_task_ids(rest)[m]
                        == value_task_ids(tasks)[i];
                if r.len() > rest.len() {
                    assert(r[m] == rest[m]);
                }
                assert(value_task_ids(r)[m] == value_task_ids(tasks)[i]);
            } else {
                assert(r[rest.len() as int] == tasks[k - 1]);
                assert(value_task_ids(r)[rest.len() as int] == value_task_ids(tasks)[i]);
            }
        }
    }
}

proof fn lemma_value_full_schedule(tasks: Seq<YamlValue>, done: Seq<u32>)
    requires
        done.no_duplicates(),
        ids_of_task_values(done, tasks),
        done.len() >= tasks.len(),
    ensures
        forall|i: int|
            0 <= i < tasks.len() && task_value_id(tasks[i]) is Some ==> done.contains(
                #[trigger] value_task_ids(tasks)[i],
            ),
{
    assert forall|i: int| 0 <= i < tasks.len() && task_value_id(tasks[i]) is Some implies done.contains(
        #[trigger] value_task_ids(tasks)[i],
    ) by {
        let ids = value_task_ids(tasks);
        let x = ids[i];
        if !done.contains(x) {
            done.unique_seq_to_set();
            ids.lemma_cardinality_of_set();
            assert(ids.to_set().contains(x));
            assert(done.to_set().subset_of(ids.to_set().remove(x))) by {
                assert forall|y: u32| done.to_set().contains(y) implies ids.to_set().remove(
                    x,
                ).contains(y) by {
                    let m = choose|m: int| 0 <= m < done.len() && done[m] == y;
                    assert(ids.contains(done[m]));
                }
            }
            vstd::set_lib::lemma_len_subset(done.to_set(), ids.to_set().remove(x));
            assert(false);
        }
    }
}

proof fn lemma_value_fallback_covers(tasks: Seq<YamlValue>, done: Seq<u32>)
    requires
        done.no_duplicates(),
        ids_of_task_values(done, tasks),
    ensures
        forall|i: int|
            0 <= i < tasks.len() && task_value_id(tasks[i]) is Some ==> (done + value_task_ids(
                value_fallback_from(tasks, done).flatten(),
            )).contains(#[trigger] value_task_ids(tasks)[i]),
    decreases (if done.len() < tasks.len() {
        tasks.len() - done.len()
    } else {
        0
    }),
{
    let r = value_fallback_from(tasks, done);
    let n = tasks.len() as int;
    if done.len() >= tasks.len() {
        lemma_value_full_schedule(tasks, done);
        assert(r.flatten() =~= Seq::<YamlValue>::empty());
        assert(done + value_task_ids(r.flatten()) =~= done);
    } else {
        lemma_value_pass_facts(tasks, done, n);
        lemma_value_pass_len(tasks, done, n);
        let (batch, sched) = value_scheduling_pass(tasks, done, n);
        if batch.len() == 0 {
            let rem = value_unscheduled(tasks, done, n);
            lemma_value_unscheduled_holds(tasks, done, n);
            let fin = done + value_task_ids(r.flatten());
            if rem.len() > 0 {
                assert(r == seq![rem]);
                assert(r.flatten() == rem) by {
                    assert(r.flatten() == r.first() + r.drop_first().flatten());
                    assert(r.drop_first() =~= Seq::<Seq<YamlValue>>::empty());
                    assert(r.drop_first().flatten() =~= Seq::<YamlValue>::empty());
                    assert(rem + Seq::<YamlValue>::empty() =~= rem);
                }
            }
            assert forall|i: int| 0 <= i < tasks.len() && task_value_id(tasks[i]) is Some
                implies fin.contains(#[trigger] value_task_ids(tasks)[i]) by {
                let x = value_task_ids(tasks)[i];
                if done.contains(x) {
                    let m = choose|m: int| 0 <= m < done.len() && done[m] == x;
                    assert(fin[m] == x);
                } else {
                    assert(value_task_ids(rem).contains(x));
                    let m = choose|m: int| 0 <= m < value_task_ids(rem).len() && value_task_ids(rem)[m] == x;
                    assert(fin[done.len() + m] == x);
                }
            }
        } else {
            lemma_value_pass_ids(tasks, done, n);
            lemma_value_fallback_covers(tasks, sched);
            let rest = value_fallback_from(tasks, sched);
            assert(r == seq![batch] + rest);
            assert(r.flatten() == batch + rest.flatten()) by {
                assert(r.flatten() == r.first() + r.drop_first().flatten());
                assert(r.drop_first() =~= rest);
            }
            assert(value_task_ids(batch + rest.flatten()) =~= value_task_ids(batch) + value_task_ids(
                rest.flatten(),
            ));
            assert(done + value_task_ids(r.flatten()) =~= sched + value_task_ids(rest.flatten()));
        }
    }
}

/// The fallback over task values places every task value that has an id,
/// and runs each task after the tasks it requires: every task value placed
/// in a batch has each dependency that
/// carries a numeric `task_id` among the ids of earlier batches, except in
/// a last batch made only of tasks for which that fails (circular or
/// unresolved dependencies).
pub proof fn law_value_fallback_dependencies_first(tasks: Seq<YamlValue>)
    ensures
        ({
            let r = value_fallback_from(tasks, Seq::empty());
            &&& forall|i: int|
                0 <= i < tasks.len() && task_value_id(tasks[i]) is Some ==> value_task_ids(
                    r.flatten(),
                ).contains(#[trigger] value_task_ids(tasks)[i])
            &&& forall|b: int, j: int|
                0 <= b < r.len() && 0 <= j < r[b].len() ==> value_requirements_in(
                    #[trigger] r[b][j],
                    value_ids_before(r, b),
                ) || (b == r.len() - 1 && forall|j2: int|
                    0 <= j2 < r[b].len() ==> !value_requirements_in(
                        r[b][j2],
                        value_ids_before(r, b),
                    ))
        }),
{
    lemma_value_fallback_layers(tasks, Seq::empty());
    lemma_value_fallback_covers(tasks, Seq::empty());
    let r = value_fallback_from(tasks, Seq::empty());
    assert(Seq::<u32>::empty() + value_task_ids(r.flatten()) =~= value_task_ids(r.flatten()));
    assert forall|b: int| 0 <= b <= r.len() implies Seq::<u32>::empty() + value_ids_before(r, b)
        == value_ids_before(r, b) by {
        assert(Seq::<u32>::empty() + value_ids_before(r, b) =~= value_ids_before(r, b));
    }
    assert forall|t: YamlValue, ids: Seq<u32>| value_requirements_in(t, ids)
        == value_dependencies_met(t, ids) by {
        lemma_requirements_are_dependencies(t, ids);
    }
}

fn value_dependencies_scheduled(task: &YamlNode, ids: &Vec<u32>, n: usize) -> (r: bool)
    requires
        n <= ids@.len(),
    ensures
        r == value_dependencies_met(task@, ids@.take(n as int)),
{
    let deps = match yaml_get(task, "task") {
        Some(t) => match yaml_get(t, "dependencies") {
            Some(d) => match yaml_get(d, "requires_completion_of") {
                Some(r) => yaml_as_list(r),
                None => None,
            },
            None => None,
        },
        None => None,
    };
    match deps {
        None => true,
        Some(list) => {
            proof {
                lemma_nodes_view(list@);
            }
            let ghost lv = nodes_view(list@);
            let mut i: usize = 0;
            while i < list.len()
                invariant
                    i <= list.len(),
                    lv == nodes_view(list@),
                    lv.len() == list@.len(),
                    task_value_dependencies(task@) == Some(lv),
                    forall|k: int| 0 <= k < list@.len() ==> #[trigger] lv[k] == list@[k]@,
                    n <= ids@.len(),
                    forall|k: int| 0 <= k < i ==> dependency_value_met(#[trigger] lv[k], ids@.take(n as int)),
                decreases list.len() - i,
            {
                let ok = match yaml_get(&list[i], "task_id") {
                    Some(v) => match yaml_as_u64(v) {
                        Some(u) => contains_id_upto(ids, u as u32, n),
                        None => true,
                    },
                    None => true,
                };
                if !ok {
                    assert(!dependency_value_met(lv[i as int], ids@.take(n as int)));
                    assert(!value_dependencies_met(task@, ids@.take(n as int))) by {
                        let deps = task_value_dependencies(task@)->0;
                        assert(deps == lv);
                        assert(!dependency_value_met(deps[i as int], ids@.take(n as int)));
                    }
                    return false;
                }
                i = i + 1;
            }
            true
        },
    }
}

/// Fallback dependency analysis over task values (see the typed
/// `build_execution_batches_fallback`): tasks without an id are never
/// scheduled, and a dependency without a numeric `task_id` counts as met.
pub fn build_execution_batches_fallback(tasks: &[YamlNode]) -> (res: Vec<Vec<YamlNode>>)
    ensures
        node_batch_views(res@) == value_fallback_from(node_views(tasks@), Seq::empty()),
{
    let ghost tv = node_views(tasks@);
    let mut scheduled: Vec<u32> = Vec::new();
    let mut batches: Vec<Vec<YamlNode>> = Vec::new();
    assert(node_batch_views(batches@) + value_fallback_from(tv, scheduled@) =~= value_fallback_from(
        tv,
        Seq::empty(),
    ));
    loop
        invariant_except_break
            tv == node_views(tasks@),
            tv.len() == tasks@.len(),
            node_batch_views(batches@) + value_fallback_from(tv, scheduled@) == value_fallback_from(
                tv,
                Seq::empty(),
            ),
        ensures
            node_batch_views(batches@) == value_fallback_from(tv, Seq::empty()),
        decreases (if scheduled.len() < tasks.len() {
            tasks.len() - scheduled.len()
        } else {
            0
        }),
    {
        if scheduled.len() >= tasks.len() {
            assert(node_batch_views(batches@) + value_fallback_from(tv, scheduled@)
                =~= node_batch_views(batches@));
            break ;
        }
        let ghost done0 = scheduled@;
        let n0 = scheduled.len();
        let mut current: Vec<YamlNode> = Vec::new();
        let mut i: usize = 0;
        while i < tasks.len()
            invariant
                i <= tasks.len(),
                tv == node_views(tasks@),
                tv.len() == tasks@.len(),
                n0 == done0.len(),
                (node_views(current@), scheduled@) == value_scheduling_pass(tv, done0, i as int),
            decreases tasks.len() - i,
        {
            let t = &tasks[i];
            assert(tv[i as int] == t@);
            proof {
                lemma_value_pass_len(tv, done0, i as int);
            }
            match get_task_id(t) {
                Some(id) => {
                    if !contains_id(&scheduled, id) && value_dependencies_scheduled(t, &scheduled, n0) {
                        let ghost prev = current@;
                        current.push(clone_node(t));
                        scheduled.push(id);
                        assert(node_views(current@) =~= node_views(prev).push(tv[i as int]));
                    }
                },
                None => {},
            }
            i = i + 1;
        }
        proof {
            lemma_value_pass_len(tv, done0, tv.len() as int);
        }
        if current.len() == 0 {
            let mut rem: Vec<YamlNode> = Vec::new();
            let mut j: usize = 0;
            while j < tasks.len()
                invariant
                    j <= tasks.len(),
                    tv == node_views(tasks@),
                    tv.len() == tasks@.len(),
                    node_views(rem@) == value_unscheduled(tv, done0, j as int),
                    scheduled@ == done0,
                decreases tasks.len() - j,
            {
                let t = &tasks[j];
                assert(tv[j as int] == t@);
                match get_task_id(t) {
                    Some(id) => {
                        if !contains_id(&scheduled, id) {
                            let ghost prev = rem@;
                            rem.push(clone_node(t));
                            assert(node_views(rem@) =~= node_views(prev).push(tv[j as int]));
                        }
                    },
                    None => {},
                }
                j = j + 1;
            }
            let ghost before = node_batch_views(batches@);
            if rem.len() > 0 {
                batches.push(rem);
                assert(node_batch_views(batches@) =~= before + seq![node_views(rem@)]);
            } else {
                assert(value_fallback_from(tv, done0) =~= Seq::<Seq<YamlValue>>::empty());
            }
            assert(node_batch_views(batches@) =~= before + value_fallback_from(tv, done0));
            break ;
        }
        let ghost before = node_batch_views(batches@);
        batches.push(current);
        assert(node_batch_views(batches@) =~= before + seq![
            value_scheduling_pass(tv, done0, tv.len() as int).0,
        ]);
        assert(value_fallback_from(tv, done0) == seq![
            value_scheduling_pass(tv, done0, tv.len() as int).0,
        ] + value_fallback_from(tv, scheduled@));
        assert(node_batch_views(batches@) + value_fallback_from(tv, scheduled@) =~= before
            + value_fallback_from(tv, done0));
    }
    batches
}


/// Clean an agent's YAML response: the body of its first ```` ```yaml ````
/// block, else of its first generic code block, else the whole response;
/// trimmed.
pub fn clean_yaml_response(response: &str) -> (res: String)
    ensures
        res@ == fenced_yaml_text(response@),
{
    fenced_yaml(response)
}

} // verus!
