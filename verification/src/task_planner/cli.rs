//! Command-line arguments of the task planner.
use vstd::prelude::*;

use crate::text::{parse_number_list, parse_separated_numbers};

verus! {

/// Task planner command-line arguments.
pub struct Args {
    /// Comma-separated phases to execute (0=overview, 1=expand, 2=review)
    pub phases: String,
    /// Path to IMPL.md file (required for phases 0 and 2)
    pub impl_file: Option<String>,
    /// Path to tasks_overview_template.yaml (required for phase 0)
    pub overview_template: Option<String>,
    /// Path to task_template.yaml (required for phases 1 and 2)
    pub task_template: Option<String>,
    /// Path to saved tasks_overview.yaml (for resuming from Phase 1)
    pub overview_file: Option<String>,
    /// Path to tasks.yaml (required for Phase 2 if Phase 1 didn't run)
    pub tasks_file: Option<String>,
    /// Number of tasks to process in parallel
    pub batch_size: usize,
    /// Use simple fixed-size batching instead of AI dependency analysis
    pub simple_batching: bool,
    /// Output directory for generated files
    pub output_dir: String,
    /// Directory path to analyze (defaults to the current directory)
    pub dir: Option<String>,
    /// Hidden metadata flag
    pub workflow_metadata: bool,
}

/// The phase numbers named by a comma separated list: the pieces that parse
/// as `usize` after trimming, in order.
pub open spec fn planner_phase_list(phases: Seq<char>) -> Seq<nat> {
    parse_number_list(phases, ',', usize::MAX as nat)
}

/// The first argument problem for the selected phases, in the order the
/// phases are checked; `None` when the arguments are complete.
pub open spec fn planner_args_problem(args: Args) -> Option<Seq<char>> {
    let ph = planner_phase_list(args.phases@);
    if ph.contains(0) && args.impl_file is None {
        Some("--impl-file is required when running phase 0"@)
    } else if ph.contains(0) && args.overview_template is None {
        Some("--overview-template is required when running phase 0"@)
    } else if ph.contains(1) && args.task_template is None {
        Some("--task-template is required when running phase 1"@)
    } else if ph.contains(1) && !ph.contains(0) && args.overview_file is None {
        Some(
            "Phase 1 requires either phase 0 to run first or --overview-file to be provided"@,
        )
    } else if ph.contains(2) && args.impl_file is None {
        Some("--impl-file is required when running phase 2"@)
    } else if ph.contains(2) && args.task_template is None {
        Some("--task-template is required when running phase 2"@)
    } else if ph.contains(2) && !ph.contains(0) && args.overview_file is None {
        Some(
            "Phase 2 requires either phase 0 to run first or --overview-file to be provided"@,
        )
    } else if ph.contains(2) && !ph.contains(1) && args.tasks_file is None {
        Some("Phase 2 requires either phase 1 to run first or --tasks-file to be provided"@)
    } else {
        None
    }
}

fn contains_phase(phases: &Vec<usize>, p: usize) -> (r: bool)
    ensures
        r == phases@.contains(p),
{
    let mut i: usize = 0;
    while i < phases.len()
        invariant
            i <= phases.len(),
            forall|k: int| 0 <= k < i ==> phases@[k] != p,
        decreases phases.len() - i,
    {
        if phases[i] == p {
            return true;
        }
        i = i + 1;
    }
    false
}

impl Args {
    /// Parse which phases to run: the comma separated numbers of `phases`;
    /// pieces that are not numbers are skipped.
    pub fn get_phases(&self) -> (res: Vec<usize>)
        ensures
            res@.len() == planner_phase_list(self.phases@).len(),
            forall|i: int|
                0 <= i < res@.len() ==> res@[i] as nat == #[trigger] planner_phase_list(
                    self.phases@,
                )[i],
    {
        let max = usize::MAX as u64;
        let values = parse_separated_numbers(self.phases.as_str(), ',', max);
        let mut res: Vec<usize> = Vec::new();
        let mut i: usize = 0;
        proof {
            crate::text::lemma_parse_number_list_bounded(self.phases@, ',', usize::MAX as nat);
        }
        while i < values.len()
            invariant
                i <= values.len(),
                max == usize::MAX,
                values@.len() == planner_phase_list(self.phases@).len(),
                forall|k: int|
                    0 <= k < values@.len() ==> values@[k] as nat == #[trigger] planner_phase_list(
                        self.phases@,
                    )[k],
                forall|k: int|
                    0 <= k < planner_phase_list(self.phases@).len() ==> #[trigger] planner_phase_list(
                        self.phases@,
                    )[k] <= usize::MAX,
                res@.len() == i,
                forall|k: int| 0 <= k < i ==> res@[k] as nat == values@[k] as nat,
            decreases values.len() - i,
        {
            assert(values@[i as int] as nat == planner_phase_list(self.phases@)[i as int]);
            res.push(values[i] as usize);
            i = i + 1;
        }
        res
    }

    /// Validate that required arguments are provided for the selected phases;
    /// the error names the first missing argument.
    pub fn validate(&self) -> (res: Result<(), String>)
        ensures
            match planner_args_problem(*self) {
                Some(msg) => res matches Err(e) && e@ == msg,
                None => res is Ok,
            },
    {
        let phases = self.get_phases();
        let ghost ph = planner_phase_list(self.phases@);
        assert(phases@.map_values(|p: usize| p as nat) =~= ph);
        let has0 = contains_phase(&phases, 0);
        let has1 = contains_phase(&phases, 1);
        let has2 = contains_phase(&phases, 2);
        assert(has0 == ph.contains(0)) by {
            if has0 {
                let k = choose|k: int| 0 <= k < phases@.len() && phases@[k] == 0;
                assert(ph[k] == 0);
            }
            if ph.contains(0) {
                let k = choose|k: int| 0 <= k < ph.len() && ph[k] == 0;
                assert(phases@[k] == 0);
            }
        }
        assert(has1 == ph.contains(1)) by {
            if has1 {
                let k = choose|k: int| 0 <= k < phases@.len() && phases@[k] == 1;
                assert(ph[k] == 1);
            }
            if ph.contains(1) {
                let k = choose|k: int| 0 <= k < ph.len() && ph[k] == 1;
                assert(phases@[k] == 1);
            }
        }
        assert(has2 == ph.contains(2)) by {
            if has2 {
                let k = choose|k: int| 0 <= k < phases@.len() && phases@[k] == 2;
                assert(ph[k] == 2);
            }
            if ph.contains(2) {
                let k = choose|k: int| 0 <= k < ph.len() && ph[k] == 2;
                assert(phases@[k] == 2);
            }
        }
        if has0 {
            if self.impl_file.is_none() {
                return Err("--impl-file is required when running phase 0".to_string());
            }
            if self.overview_template.is_none() {
                return Err("--overview-template is required when running phase 0".to_string());
            }
        }
        if has1 {
            if self.task_template.is_none() {
                return Err("--task-template is required when running phase 1".to_string());
            }
            if !has0 && self.overview_file.is_none() {
                return Err(
                    "Phase 1 requires either phase 0 to run first or --overview-file to be provided".to_string(),
                );
            }
        }
        if has2 {
            if self.impl_file.is_none() {
                return Err("--impl-file is required when running phase 2".to_string());
            }
            if self.task_template.is_none() {
                return Err("--task-template is required when running phase 2".to_string());
            }
            if !has0 && self.overview_file.is_none() {
                return Err(
                    "Phase 2 requires either phase 0 to run first or --overview-file to be provided".to_string(),
                );
            }
            if !has1 && self.tasks_file.is_none() {
                return Err(
                    "Phase 2 requires either phase 1 to run first or --tasks-file to be provided".to_string(),
                );
            }
        }
        Ok(())
    }
}

} // verus!
