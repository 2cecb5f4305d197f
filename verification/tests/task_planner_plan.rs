use workflow_manager::task_planner::cli::Args;
use workflow_manager::task_planner::execution_plan::{
    build_execution_batches_fallback, build_simple_execution_plan, parse_execution_plan, PlanError,
};
use workflow_manager::task_planner::types::{Dependencies, ExecutionPlan, TaskDependency, TaskInfo, TaskOverview};
use workflow_manager::task_planner::utils::clean_yaml_response;
use workflow_manager::task_planner::workflow::{
    join_task_documents, plan_task_workflow, task_file_selected, PlannerStep,
};

fn sample_task_with_deps(id: u32, name: &str, deps: Vec<u32>) -> TaskOverview {
    TaskOverview {
        task: TaskInfo {
            id,
            name: name.to_string(),
            context: format!("Task {} context", id),
        },
        dependencies: Dependencies {
            requires_completion_of: deps
                .into_iter()
                .map(|dep_id| TaskDependency {
                    task_id: dep_id,
                    reason: format!("Depends on task {}", dep_id),
                })
                .collect(),
        },
    }
}

fn ids(batches: &[Vec<TaskOverview>]) -> Vec<Vec<u32>> {
    batches
        .iter()
        .map(|b| b.iter().map(|t| t.task.id).collect())
        .collect()
}

// ---------------------------------------------------------------------------
// Fallback dependency analysis
// ---------------------------------------------------------------------------

#[test]
fn test_fallback_no_dependencies() {
    let tasks = vec![
        sample_task_with_deps(1, "Task 1", vec![]),
        sample_task_with_deps(2, "Task 2", vec![]),
        sample_task_with_deps(3, "Task 3", vec![]),
    ];

    let batches = build_execution_batches_fallback(&tasks);
    assert_eq!(batches.len(), 1);
    assert_eq!(batches[0].len(), 3);
}

#[test]
fn test_fallback_simple_dependency_chain() {
    let task1 = sample_task_with_deps(1, "Task 1", vec![]);
    let task2 = sample_task_with_deps(2, "Task 2", vec![1]);
    let task3 = sample_task_with_deps(3, "Task 3", vec![2]);

    let tasks = vec![task1, task2, task3];
    let batches = build_execution_batches_fallback(&tasks);

    // each task runs one batch after the task it depends on
    assert_eq!(batches.len(), 3);
    assert_eq!(ids(&batches), vec![vec![1], vec![2], vec![3]]);
}

#[test]
fn test_fallback_parallel_with_shared_dependency() {
    let task1 = sample_task_with_deps(1, "Task 1", vec![]);
    let task2 = sample_task_with_deps(2, "Task 2", vec![1]);
    let task3 = sample_task_with_deps(3, "Task 3", vec![1]);

    let tasks = vec![task1, task2, task3];
    let batches = build_execution_batches_fallback(&tasks);

    // Task 1, then Tasks 2 and 3 together
    assert_eq!(batches.len(), 2);
    assert_eq!(ids(&batches), vec![vec![1], vec![2, 3]]);
}

#[test]
fn test_fallback_complex_dependencies() {
    let task1 = sample_task_with_deps(1, "Task 1", vec![]);
    let task2 = sample_task_with_deps(2, "Task 2", vec![1]);
    let task3 = sample_task_with_deps(3, "Task 3", vec![1]);
    let task4 = sample_task_with_deps(4, "Task 4", vec![2, 3]);

    let tasks = vec![task1, task2, task3, task4];
    let batches = build_execution_batches_fallback(&tasks);

    assert_eq!(batches.len(), 3);
    assert_eq!(ids(&batches), vec![vec![1], vec![2, 3], vec![4]]);
}

#[test]
fn test_fallback_circular_dependency() {
    let task1 = sample_task_with_deps(1, "Task 1", vec![2]);
    let task2 = sample_task_with_deps(2, "Task 2", vec![1]);

    let tasks = vec![task1, task2];
    let batches = build_execution_batches_fallback(&tasks);

    assert!(!batches.is_empty());
    let total_scheduled: usize = batches.iter().map(|b| b.len()).sum();
    assert_eq!(total_scheduled, 2);
}

#[test]
fn test_fallback_self_dependency() {
    let task1 = sample_task_with_deps(1, "Task 1", vec![1]);

    let tasks = vec![task1];
    let batches = build_execution_batches_fallback(&tasks);

    assert!(!batches.is_empty());
}

#[test]
fn test_fallback_diamond_dependency() {
    let task1 = sample_task_with_deps(1, "Task 1", vec![]);
    let task2 = sample_task_with_deps(2, "Task 2", vec![1]);
    let task3 = sample_task_with_deps(3, "Task 3", vec![1]);
    let task4 = sample_task_with_deps(4, "Task 4", vec![2, 3]);

    let tasks = vec![task1, task2, task3, task4];
    let batches = build_execution_batches_fallback(&tasks);

    assert_eq!(batches.len(), 3);
    assert_eq!(ids(&batches), vec![vec![1], vec![2, 3], vec![4]]);
}

#[test]
fn test_fallback_handles_large_dependency_graph() {
    let tasks = vec![
        sample_task_with_deps(1, "Task 1", vec![]),
        sample_task_with_deps(2, "Task 2", vec![]),
        sample_task_with_deps(3, "Task 3", vec![1]),
        sample_task_with_deps(4, "Task 4", vec![1]),
        sample_task_with_deps(5, "Task 5", vec![2]),
        sample_task_with_deps(6, "Task 6", vec![3, 4]),
        sample_task_with_deps(7, "Task 7", vec![5, 6]),
    ];

    let batches = build_execution_batches_fallback(&tasks);

    let total_tasks: usize = batches.iter().map(|b| b.len()).sum();
    assert_eq!(total_tasks, 7);
    assert!(batches[0].iter().any(|t| t.task.id == 1));
    assert!(batches[0].iter().any(|t| t.task.id == 2));
    assert_eq!(ids(&batches), vec![vec![1, 2], vec![3, 4, 5], vec![6], vec![7]]);
}

#[test]
fn test_large_dependency_graph() {
    let tasks: Vec<TaskOverview> = (1..=50)
        .map(|i| {
            let deps = if i > 1 { vec![i - 1] } else { vec![] };
            sample_task_with_deps(i, &format!("Task {}", i), deps)
        })
        .collect();

    let batches = build_execution_batches_fallback(&tasks);
    // a chain of 50 tasks takes 50 batches of one task each
    assert_eq!(batches.len(), 50);
    assert!(batches.iter().enumerate().all(|(b, batch)| batch.len() == 1 && batch[0].task.id == b as u32 + 1));
}

#[test]
fn fallback_defers_a_task_whose_dependency_comes_later() {
    let tasks = vec![
        sample_task_with_deps(2, "Task 2", vec![1]),
        sample_task_with_deps(1, "Task 1", vec![]),
    ];
    assert_eq!(ids(&build_execution_batches_fallback(&tasks)), vec![vec![1], vec![2]]);
}

#[test]
fn fallback_puts_blocked_tasks_in_one_last_batch() {
    let tasks = vec![
        sample_task_with_deps(1, "Task 1", vec![]),
        sample_task_with_deps(2, "Task 2", vec![3]),
        sample_task_with_deps(3, "Task 3", vec![2]),
    ];
    assert_eq!(ids(&build_execution_batches_fallback(&tasks)), vec![vec![1], vec![2, 3]]);
}

#[test]
fn fallback_of_no_task_is_no_batch() {
    assert!(build_execution_batches_fallback(&[]).is_empty());
}

#[test]
fn fallback_schedules_a_repeated_id_once() {
    let tasks = vec![
        sample_task_with_deps(1, "Task 1", vec![]),
        sample_task_with_deps(1, "Task 1 again", vec![]),
    ];
    let batches = build_execution_batches_fallback(&tasks);
    assert_eq!(ids(&batches), vec![vec![1]]);
    assert_eq!(batches[0][0].task.name, "Task 1");
}

// ---------------------------------------------------------------------------
// Execution plan parsing
// ---------------------------------------------------------------------------

#[test]
fn test_parse_execution_plan_custom_structure() {
    let yaml = r#"
execution_plan:
  total_tasks: 3
  total_batches: 2
  batches:
    - batch_id: 1
      description: "First batch"
      strategy: "sequential"
      tasks:
        - task_id: 1
          task_name: "Task 1"
          reason: "No dependencies"
        - task_id: 2
          task_name: "Task 2"
          reason: "No dependencies"
      parallelization_rationale: "Both independent"
    - batch_id: 2
      description: "Second batch"
      strategy: "sequential"
      tasks:
        - task_id: 3
          task_name: "Task 3"
          reason: "Depends on batch 1"
      parallelization_rationale: "Depends on previous"
  dependencies_summary:
    critical_path:
      - 1
      - 3
    parallelization_potential: "medium"
    parallelization_explanation: "2 out of 3 tasks parallel"
"#;

    let tasks = vec![
        sample_task_with_deps(1, "Task 1", vec![]),
        sample_task_with_deps(2, "Task 2", vec![]),
        sample_task_with_deps(3, "Task 3", vec![1]),
    ];

    let batches = parse_execution_plan(yaml, &tasks, false).unwrap();
    assert_eq!(batches.len(), 2);
    assert_eq!(batches[0].len(), 2);
    assert_eq!(batches[1].len(), 1);
}

#[test]
fn test_parse_execution_plan_without_wrapper() {
    let yaml = r#"
total_tasks: 2
total_batches: 1
batches:
  - batch_id: 1
    description: "Batch"
    strategy: "sequential"
    tasks:
      - task_id: 1
        task_name: "Task 1"
        reason: "Test"
    parallelization_rationale: "Test"
dependencies_summary:
  critical_path: []
  parallelization_potential: "high"
  parallelization_explanation: "Test"
"#;

    let tasks = vec![sample_task_with_deps(1, "Task 1", vec![])];
    let batches = parse_execution_plan(yaml, &tasks, false).unwrap();
    assert_eq!(batches.len(), 1);
}

#[test]
fn test_parse_execution_plan_missing_task() {
    let yaml = r#"
execution_plan:
  total_tasks: 1
  total_batches: 1
  batches:
    - batch_id: 1
      description: "Test"
      strategy: "sequential"
      tasks:
        - task_id: 999
          task_name: "Nonexistent"
          reason: "Test"
      parallelization_rationale: "Test"
  dependencies_summary:
    critical_path: []
    parallelization_potential: "low"
    parallelization_explanation: "Test"
"#;

    let tasks = vec![sample_task_with_deps(1, "Task 1", vec![])];
    let batches = parse_execution_plan(yaml, &tasks, false).unwrap();
    assert_eq!(batches.len(), 1);
    assert_eq!(batches[0].len(), 1);
}

#[test]
fn test_parse_execution_plan_falls_back_on_error() {
    let invalid_yaml = "not: valid: execution: plan";
    let tasks = vec![sample_task_with_deps(1, "Task 1", vec![])];

    let result = parse_execution_plan(invalid_yaml, &tasks, false);
    assert!(result.is_err());
}

#[test]
fn parse_plan_error_is_the_parser_message() {
    let tasks = vec![sample_task_with_deps(1, "Task 1", vec![])];
    match parse_execution_plan("a: [", &tasks, true) {
        Err(PlanError::InvalidYaml(msg)) => assert!(!msg.is_empty()),
        _ => panic!("expected a parse error"),
    }
    assert_eq!(PlanError::InvalidYaml("x".to_string()).message(), "Failed to parse execution plan YAML");
    assert_eq!(PlanError::MissingBatches.message(), "Missing execution_plan.batches in plan");
}

#[test]
fn parse_plan_keeps_order_of_named_tasks_and_skips_unknown_ones() {
    let yaml = "batches:\n  - tasks:\n      - task_id: 3\n      - task_id: 7\n      - task_id: 1\n  - tasks: []\n  - tasks:\n      - task_id: 2\n";
    let tasks = vec![
        sample_task_with_deps(1, "Task 1", vec![]),
        sample_task_with_deps(2, "Task 2", vec![]),
        sample_task_with_deps(3, "Task 3", vec![]),
    ];
    let batches = parse_execution_plan(yaml, &tasks, false).unwrap();
    assert_eq!(ids(&batches), vec![vec![3, 1], vec![2]]);
}

// ---------------------------------------------------------------------------
// Simple batching
// ---------------------------------------------------------------------------

#[test]
fn simple_plan_cuts_tasks_into_fixed_batches() {
    let tasks: Vec<TaskOverview> = (1..=5)
        .map(|i| sample_task_with_deps(i, &format!("Task {}", i), vec![]))
        .collect();
    let plan = build_simple_execution_plan(&tasks, 2);
    assert_eq!(plan.total_tasks, 5);
    assert_eq!(plan.total_batches, 3);
    assert_eq!(plan.batches.len(), 3);
    let sizes: Vec<usize> = plan.batches.iter().map(|b| b.tasks.len()).collect();
    assert_eq!(sizes, vec![2, 2, 1]);
    assert_eq!(plan.batches[0].batch_id, 1);
    assert_eq!(plan.batches[0].tasks[0].task_id, 1);
    assert_eq!(plan.batches[0].tasks[1].task_id, 2);
    assert_eq!(plan.batches[2].tasks[0].task_name, "Task 5");
    assert_eq!(plan.batches[0].strategy, "sequential");
    assert_eq!(plan.dependencies_summary.parallelization_potential, "high");
    assert_eq!(
        plan.dependencies_summary.parallelization_explanation,
        "Tasks split into 3 fixed-size batches of up to 2 tasks each"
    );
    assert!(plan.dependencies_summary.critical_path.is_empty());
}

#[test]
fn simple_plan_single_batch_has_low_potential() {
    let tasks = vec![sample_task_with_deps(1, "Task 1", vec![])];
    let plan = build_simple_execution_plan(&tasks, 5);
    assert_eq!(plan.total_batches, 1);
    assert_eq!(plan.dependencies_summary.parallelization_potential, "low");
    let empty = build_simple_execution_plan(&[], 3);
    assert_eq!(empty.total_batches, 0);
    assert!(empty.batches.is_empty());
}

// ---------------------------------------------------------------------------
// Cleaning agent responses
// ---------------------------------------------------------------------------

#[test]
fn test_clean_yaml_response_with_yaml_fence() {
    let input = "Some text\n```yaml\nkey: value\n```\nMore text";
    let result = clean_yaml_response(input);
    assert_eq!(result, "key: value");
}

#[test]
fn test_clean_yaml_response_with_yaml_fence_multiline() {
    let input = r#"Here is the YAML:
```yaml
task:
  id: 1
  name: Test
```
That's it!"#;
    let cleaned = clean_yaml_response(input);
    assert_eq!(cleaned, "task:\n  id: 1\n  name: Test");
}

#[test]
fn test_clean_yaml_response_with_generic_fence() {
    let input = "```\nkey: value\n```";
    let result = clean_yaml_response(input);
    assert_eq!(result, "key: value");
}

#[test]
fn test_clean_yaml_response_without_fence() {
    let input = "key: value\nother: data";
    let result = clean_yaml_response(input);
    assert_eq!(result, "key: value\nother: data");
}

#[test]
fn test_clean_yaml_response_empty() {
    let input = "";
    let result = clean_yaml_response(input);
    assert_eq!(result, "");
}

#[test]
fn test_clean_yaml_response_only_fence() {
    let input = "```yaml\n```";
    let result = clean_yaml_response(input);
    assert_eq!(result, "");
}

#[test]
fn test_clean_yaml_response_nested_fences() {
    let input = r#"
Outer text
```yaml
outer: value
```
More text
"#;
    let result = clean_yaml_response(input);
    assert_eq!(result.trim(), "outer: value");
}

#[test]
fn clean_yaml_response_keeps_document_separators() {
    assert_eq!(clean_yaml_response("```yaml\n---\na: 1\n```"), "---\na: 1");
}

// ---------------------------------------------------------------------------
// Command line and run plan
// ---------------------------------------------------------------------------

fn args(phases: &str) -> Args {
    Args {
        phases: phases.to_string(),
        impl_file: None,
        overview_template: None,
        task_template: None,
        overview_file: None,
        tasks_file: None,
        batch_size: 5,
        simple_batching: false,
        output_dir: ".".to_string(),
        dir: None,
        workflow_metadata: false,
    }
}

#[test]
fn get_phases_skips_pieces_that_are_not_numbers() {
    assert_eq!(args("0,1,2").get_phases(), vec![0, 1, 2]);
    assert_eq!(args(" 2 , x, 0").get_phases(), vec![2, 0]);
    assert!(args("").get_phases().is_empty());
}

#[test]
fn validate_names_the_first_missing_argument() {
    assert_eq!(
        args("0").validate().unwrap_err(),
        "--impl-file is required when running phase 0"
    );
    let mut a = args("0");
    a.impl_file = Some("IMPL.md".to_string());
    assert_eq!(
        a.validate().unwrap_err(),
        "--overview-template is required when running phase 0"
    );
    a.overview_template = Some("o.yaml".to_string());
    assert!(a.validate().is_ok());

    let mut b = args("1");
    b.task_template = Some("t.yaml".to_string());
    assert_eq!(
        b.validate().unwrap_err(),
        "Phase 1 requires either phase 0 to run first or --overview-file to be provided"
    );
    b.overview_file = Some("ov.yaml".to_string());
    assert!(b.validate().is_ok());

    let mut c = args("2");
    c.impl_file = Some("IMPL.md".to_string());
    c.task_template = Some("t.yaml".to_string());
    c.overview_file = Some("ov.yaml".to_string());
    assert_eq!(
        c.validate().unwrap_err(),
        "Phase 2 requires either phase 1 to run first or --tasks-file to be provided"
    );
}

#[test]
fn plan_task_workflow_runs_or_loads_each_stage() {
    let mut a = args("1,2");
    a.impl_file = Some("IMPL.md".to_string());
    a.task_template = Some("t.yaml".to_string());
    a.overview_file = Some("ov.yaml".to_string());
    assert_eq!(
        plan_task_workflow(&a).unwrap(),
        vec![
            PlannerStep::LoadOverview,
            PlannerStep::ExpandTasks,
            PlannerStep::ReviewTasks
        ]
    );
    let mut b = args("2");
    b.impl_file = Some("IMPL.md".to_string());
    b.task_template = Some("t.yaml".to_string());
    b.overview_file = Some("ov.yaml".to_string());
    b.tasks_file = Some("tasks".to_string());
    assert_eq!(
        plan_task_workflow(&b).unwrap(),
        vec![
            PlannerStep::LoadOverview,
            PlannerStep::LoadTasks,
            PlannerStep::ReviewTasks
        ]
    );
    assert_eq!(
        plan_task_workflow(&args("0")).unwrap_err(),
        "Invalid arguments: --impl-file is required when running phase 0"
    );
}

#[test]
fn task_files_are_named_task_something_yaml() {
    assert!(task_file_selected("task_1.yaml"));
    assert!(task_file_selected("task_.yaml"));
    assert!(!task_file_selected("task_1.yml"));
    assert!(!task_file_selected("tasks.yaml"));
    assert!(!task_file_selected("overview.yaml"));
    assert!(!task_file_selected("task.yaml"));
}

#[test]
fn task_documents_are_joined_with_separators() {
    let docs = vec!["a: 1".to_string(), "b: 2".to_string(), "c: 3".to_string()];
    assert_eq!(join_task_documents(&docs), "a: 1\n---\nb: 2\n---\nc: 3");
    assert_eq!(join_task_documents(&vec!["x".to_string()]), "x");
    assert_eq!(join_task_documents(&vec![]), "");
}

// ---------------------------------------------------------------------------
// Simple batching, as the planner writes it out and reads it back
// ---------------------------------------------------------------------------

/// The plan in the YAML form in which the planner saves it.
fn plan_yaml(plan: &ExecutionPlan) -> String {
    let mut out = format!("total_tasks: {}\ntotal_batches: {}\nbatches:\n", plan.total_tasks, plan.total_batches);
    for b in &plan.batches {
        out.push_str(&format!("- batch_id: {}\n  description: {}\n  strategy: {}\n  tasks:\n", b.batch_id, b.description, b.strategy));
        for t in &b.tasks {
            out.push_str(&format!("  - task_id: {}\n    task_name: {}\n    reason: {}\n", t.task_id, t.task_name, t.reason));
        }
        out.push_str(&format!("  parallelization_rationale: {}\n", b.parallelization_rationale));
    }
    let s = &plan.dependencies_summary;
    out.push_str(&format!(
        "dependencies_summary:\n  critical_path: []\n  parallelization_potential: {}\n  parallelization_explanation: {}\n",
        s.parallelization_potential, s.parallelization_explanation
    ));
    out
}

fn numbered_tasks(n: u32) -> Vec<TaskOverview> {
    (1..=n).map(|i| sample_task_with_deps(i, &format!("Task {}", i), vec![])).collect()
}

#[test]
fn test_simple_batching_single_batch() {
    let tasks = vec![
        sample_task_with_deps(1, "Task 1", vec![]),
        sample_task_with_deps(2, "Task 2", vec![]),
    ];

    let plan = build_simple_execution_plan(&tasks, 5);
    assert_eq!(plan.total_tasks, 2);
    assert_eq!(plan.total_batches, 1);
    assert_eq!(plan.batches.len(), 1);
    assert_eq!(plan.batches[0].batch_id, 1);
}

#[test]
fn test_simple_batching_multiple_batches() {
    let tasks = numbered_tasks(7);
    let plan = build_simple_execution_plan(&tasks, 3);
    assert_eq!(plan.total_tasks, 7);
    assert_eq!(plan.total_batches, 3);
    assert_eq!(plan.batches.len(), 3);
    assert_eq!(plan.batches[0].tasks.len(), 3);
    assert_eq!(plan.batches[1].tasks.len(), 3);
    assert_eq!(plan.batches[2].tasks.len(), 1);
}

#[test]
fn test_simple_batching_exact_multiple() {
    let plan = build_simple_execution_plan(&numbered_tasks(6), 3);
    assert_eq!(plan.batches.len(), 2);
}

#[test]
fn test_simple_batching_batch_size_one() {
    let plan = build_simple_execution_plan(&numbered_tasks(3), 1);
    assert_eq!(plan.batches.len(), 3);
}

#[test]
fn test_simple_batching_empty_tasks() {
    let tasks: Vec<TaskOverview> = vec![];
    let plan = build_simple_execution_plan(&tasks, 5);
    assert_eq!(plan.total_tasks, 0);
    assert_eq!(plan.total_batches, 0);
}

#[test]
fn test_simple_batching_preserves_order() {
    let plan = build_simple_execution_plan(&numbered_tasks(5), 2);
    assert_eq!(plan.batches[0].tasks[0].task_id, 1);
    assert_eq!(plan.batches[0].tasks[1].task_id, 2);
}

#[test]
fn test_simple_execution_plan() {
    let plan = build_simple_execution_plan(&numbered_tasks(3), 2);
    assert_eq!(plan.batches[0].batch_id, 1);
    assert_eq!(plan.batches[1].batch_id, 2);
    assert_eq!(plan.total_tasks, 3);
    let text = plan_yaml(&plan);
    assert!(text.contains("batch_id: 1"));
    assert!(text.contains("batch_id: 2"));
    assert!(text.contains("total_tasks: 3"));
}

#[test]
fn test_parse_execution_plan_simple() {
    let tasks = vec![
        sample_task_with_deps(1, "Task 1", vec![]),
        sample_task_with_deps(2, "Task 2", vec![]),
    ];
    let text = plan_yaml(&build_simple_execution_plan(&tasks, 5));
    let batches = parse_execution_plan(&text, &tasks, false).unwrap();
    assert_eq!(batches.len(), 1);
    assert_eq!(batches[0].len(), 2);
}

#[test]
fn test_parse_execution_plan_multiple_batches() {
    let tasks = numbered_tasks(6);
    let text = plan_yaml(&build_simple_execution_plan(&tasks, 2));
    let batches = parse_execution_plan(&text, &tasks, false).unwrap();
    assert_eq!(batches.len(), 3);
    assert_eq!(batches[0].len(), 2);
    assert_eq!(batches[1].len(), 2);
    assert_eq!(batches[2].len(), 2);
}

#[test]
fn test_execution_plan_yaml_valid() {
    let tasks = vec![sample_task_with_deps(1, "Task 1", vec![])];
    let text = plan_yaml(&build_simple_execution_plan(&tasks, 5));
    let _: serde_yaml::Value = serde_yaml::from_str(&text).unwrap();
    let parsed_batches = parse_execution_plan(&text, &tasks, false).unwrap();
    assert!(!parsed_batches.is_empty());
}

#[test]
fn test_circular_dependency_detection() {
    let tasks = vec![
        sample_task_with_deps(1, "Task 1", vec![2]),
        sample_task_with_deps(2, "Task 2", vec![1]),
    ];
    let batches = build_execution_batches_fallback(&tasks);
    assert!(!batches.is_empty());
}

#[test]
fn test_module_imports_execution_plan() {
    let _: fn(&[TaskOverview], usize) -> ExecutionPlan = build_simple_execution_plan;
    let _: fn(&[TaskOverview]) -> Vec<Vec<TaskOverview>> = build_execution_batches_fallback;
}

#[test]
fn test_e2e_dependency_analysis() {
    let tasks = vec![
        sample_task_with_deps(1, "Task 1", vec![]),
        sample_task_with_deps(2, "Task 2", vec![1]),
        sample_task_with_deps(3, "Task 3", vec![1]),
        sample_task_with_deps(4, "Task 4", vec![2, 3]),
    ];
    let batches = build_execution_batches_fallback(&tasks);
    // Task 1; Tasks 2 and 3 after it; Task 4 after both
    assert_eq!(batches.len(), 3);
    assert_eq!(ids(&batches), vec![vec![1], vec![2, 3], vec![4]]);
}

#[test]
fn test_dependency_analysis_fallback() {
    let tasks = vec![
        sample_task_with_deps(1, "Task 1", vec![]),
        sample_task_with_deps(2, "Task 2", vec![1]),
        sample_task_with_deps(3, "Task 3", vec![1]),
        sample_task_with_deps(4, "Task 4", vec![2, 3]),
    ];

    let batches = build_execution_batches_fallback(&tasks);

    // Batch 1: Task 1 (no deps)
    assert_eq!(batches[0].len(), 1);
    assert_eq!(batches[0][0].task.id, 1);

    // Batch 2: Tasks 2 and 3 (both depend on 1)
    assert_eq!(batches[1].len(), 2);

    // Batch 3: Task 4 (depends on 2 and 3)
    assert_eq!(batches[2].len(), 1);
    assert_eq!(batches[2][0].task.id, 4);
}
