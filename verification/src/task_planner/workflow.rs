//! The decisions of a task planner run: which phase runs, which saved file
//! is read in its place, and which files of a task directory are read.
use vstd::prelude::*;

use crate::task_planner::cli::{planner_args_problem, planner_phase_list, Args};
use crate::text::{has_prefix, push_str, str_to_chars};

verus! {

/// One step of a task planner run, in the order the run takes them.
#[derive(Clone, Copy, Debug, PartialEq, Eq, Structural)]
pub enum PlannerStep {
    /// Phase 0: generate the task overview from the IMPL file.
    GenerateOverview,
    /// Read the saved overview named by `overview_file`.
    LoadOverview,
    /// Phase 1: expand the tasks of the overview.
    ExpandTasks,
    /// Read the saved tasks named by `tasks_file` (a file, or a directory of
    /// task files).
    LoadTasks,
    /// Phase 2: review the expanded tasks.
    ReviewTasks,
}

/// The steps of a run whose arguments are complete.
pub open spec fn planner_plan(args: Args) -> Seq<PlannerStep> {
    let ph = planner_phase_list(args.phases@);
    let s0 = if ph.contains(0) {
        seq![PlannerStep::GenerateOverview]
    } else if args.overview_file is Some {
        seq![PlannerStep::LoadOverview]
    } else {
        seq![]
    };
    let s1 = if ph.contains(1) {
        seq![PlannerStep::ExpandTasks]
    } else if args.tasks_file is Some {
        seq![PlannerStep::LoadTasks]
    } else {
        seq![]
    };
    let s2 = if ph.contains(2) {
        seq![PlannerStep::ReviewTasks]
    } else {
        seq![]
    };
    s0 + s1 + s2
}

fn has_phase(phases: &Vec<usize>, p: usize) -> (r: bool)
    ensures
        r == phases@.contains(p),
{
    let mut i: usize = 0;
    while i < phases.len()
        invariant
            i <= phases.len(),
            forall|k: int| 0 <= k < i ==> phases@[k] != p,
        decreases phases.len() - i,
    {
        if phases[i] == p {
            assert(phases@[i as int] == p);
            return true;
        }
        i = i + 1;
    }
    false
}

proof fn lemma_phase_views(phases: Seq<usize>, ph: Seq<nat>, p: usize)
    requires
        phases.len() == ph.len(),
        forall|i: int| 0 <= i < phases.len() ==> phases[i] as nat == #[trigger] ph[i],
    ensures
        phases.contains(p) == ph.contains(p as nat),
{
    if phases.contains(p) {
        let k = choose|k: int| 0 <= k < phases.len() && phases[k] == p;
        assert(ph[k] == p as nat);
    }
    if ph.contains(p as nat) {
        let k = choose|k: int| 0 <= k < ph.len() && ph[k] == p as nat;
        assert(phases[k] == p);
    }
}

/// Decide the steps of a task planner run. The arguments are validated
/// first; an incomplete set is refused with `Invalid arguments: ` and the
/// first problem. Each stage then runs its phase when selected, or reads its
/// saved file when one is given.
pub fn plan_task_workflow(args: &Args) -> (res: Result<Vec<PlannerStep>, String>)
    ensures
        match planner_args_problem(*args) {
            Some(msg) => res matches Err(e) && e@ == "Invalid arguments: "@ + msg,
            None => res matches Ok(steps) && steps@ == planner_plan(*args),
        },
{
    match args.validate() {
        Err(e) => {
            let mut msg = String::from_str("Invalid arguments: ");
            push_str(&mut msg, e.as_str());
            return Err(msg);
        },
        Ok(()) => {},
    }
    let phases = args.get_phases();
    let ghost ph = planner_phase_list(args.phases@);
    let run0 = has_phase(&phases, 0);
    let run1 = has_phase(&phases, 1);
    let run2 = has_phase(&phases, 2);
    proof {
        lemma_phase_views(phases@, ph, 0);
        lemma_phase_views(phases@, ph, 1);
        lemma_phase_views(phases@, ph, 2);
    }
    let mut steps: Vec<PlannerStep> = Vec::new();
    if run0 {
        steps.push(PlannerStep::GenerateOverview);
    } else if args.overview_file.is_some() {
        steps.push(PlannerStep::LoadOverview);
    }
    if run1 {
        steps.push(PlannerStep::ExpandTasks);
    } else if args.tasks_file.is_some() {
        steps.push(PlannerStep::LoadTasks);
    }
    if run2 {
        steps.push(PlannerStep::ReviewTasks);
    }
    assert(steps@ =~= planner_plan(*args));
    Ok(steps)
}

/// `s` ends with `pat` (`str::ends_with`).
pub open spec fn has_suffix(s: Seq<char>, pat: Seq<char>) -> bool {
    pat.len() <= s.len() && s.subrange(s.len() - pat.len(), s.len() as int) == pat
}

/// A file of a task directory is read when its name starts with `task_` and
/// ends with `.yaml`.
pub open spec fn is_task_file_name(name: Seq<char>) -> bool {
    has_prefix(name, "task_"@) && has_suffix(name, ".yaml"@)
}

fn chars_match_at(s: &Vec<char>, pat: &Vec<char>, at: usize) -> (r: bool)
    requires
        at + pat.len() <= s.len(),
    ensures
        r == (s@.subrange(at as int, at + pat.len()) == pat@),
{
    let mut k: usize = 0;
    while k < pat.len()
        invariant
            at + pat.len() <= s.len(),
            k <= pat.len(),
            forall|j: int| 0 <= j < k ==> s@[at + j] == pat@[j],
        decreases pat.len() - k,
    {
        if s[at + k] != pat[k] {
            assert(s@.subrange(at as int, at + pat.len())[k as int] != pat@[k as int]);
            return false;
        }
        k = k + 1;
    }
    assert(s@.subrange(at as int, at + pat.len()) =~= pat@);
    true
}

/// Whether a directory entry named `name` is a task file.
pub fn task_file_selected(name: &str) -> (r: bool)
    ensures
        r == is_task_file_name(name@),
{
    let s = str_to_chars(name);
    let pre = str_to_chars("task_");
    let suf = str_to_chars(".yaml");
    proof {
        reveal_strlit("task_");
        reveal_strlit(".yaml");
    }
    if pre.len() > s.len() || suf.len() > s.len() {
        return false;
    }
    chars_match_at(&s, &pre, 0) && chars_match_at(&s, &suf, s.len() - suf.len())
}

/// The documents of `docs` joined with `sep` between each two.
pub open spec fn joined(docs: Seq<Seq<char>>, sep: Seq<char>) -> Seq<char>
    decreases docs.len(),
{
    if docs.len() == 0 {
        seq![]
    } else if docs.len() == 1 {
        docs[0]
    } else {
        joined(docs.drop_last(), sep) + sep + docs.last()
    }
}

/// The separator between two YAML documents of one stream.
pub open spec fn document_separator() -> Seq<char> {
    "\n---\n"@
}

/// The views of a list of strings.
pub open spec fn string_views(v: Seq<String>) -> Seq<Seq<char>> {
    v.map_values(|s: String| s@)
}

/// The task files of a directory read as one YAML stream: their contents
/// joined with a document separator between each two.
pub fn join_task_documents(docs: &Vec<String>) -> (res: String)
    ensures
        res@ == joined(string_views(docs@), document_separator()),
{
    let mut res = String::new();
    let mut i: usize = 0;
    while i < docs.len()
        invariant
            i <= docs.len(),
            res@ == joined(string_views(docs@.take(i as int)), document_separator()),
        decreases docs.len() - i,
    {
        let ghost prev = string_views(docs@.take(i as int));
        assert(string_views(docs@.take(i + 1)).drop_last() =~= prev);
        if i > 0 {
            push_str(&mut res, "\n---\n");
        }
        push_str(&mut res, docs[i].as_str());
        proof {
            let now = string_views(docs@.take(i + 1));
            assert(now.last() == docs@[i as int]@);
            if i == 0 {
                assert(now.len() == 1);
                assert(res@ =~= now[0]);
            }
        }
        i = i + 1;
    }
    assert(docs@.take(docs@.len() as int) =~= docs@);
    res
}

} // verus!
