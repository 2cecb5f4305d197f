use workflow_manager::task_planner::prompts::{
    answer_yaml, expand_query_prompt, expand_system_prompt, expansion_agent_name,
    expansion_request, join_parts, overview_prompt, plan_prompt, token_usage, OVERVIEW_SYSTEM_PROMPT,
    PLAN_SYSTEM_PROMPT,
};
use workflow_manager::task_planner::review::{
    answer_json, count_approved, pair_by_id, pair_review_values, pair_reviews, review_report,
    review_results_from_answer, review_task_list,
};
use workflow_manager::task_planner::types::{
    Dependencies, DetailedTask, FormalVerification, ReviewResult, TaskInfo, TaskOverview, TestImplementation,
    TestSpec, TestStrategy,
};
use workflow_manager::task_planner::utils::generate_simple_execution_plan;
use workflow_manager::workflow_utils::yaml::parse_yaml_documents;
use workflow_manager::yaml_model::YamlNode;

fn yaml(text: &str) -> YamlNode {
    parse_yaml_documents(text).expect("valid YAML").remove(0)
}

#[test]
fn test_system_prompt_contains_key_instructions() {
    // Ensure the system prompt has key elements
    let system_prompt = OVERVIEW_SYSTEM_PROMPT;
    assert!(system_prompt.contains("task planning"));
}

#[test]
fn overview_prompt_embeds_document_and_template() {
    let p = overview_prompt("# IMPL", "task:\n  id: 1");
    assert!(p.starts_with("Using the implementation document below, generate tasks_overview.yaml"));
    assert!(p.contains("# Implementation Document:\n```\n# IMPL\n```\n\n# Template Structure (tasks_overview_template.yaml):\n```yaml\ntask:\n  id: 1\n```\n\nGenerate a complete"));
    assert!(p.ends_with("just output the yaml and only that."));
    assert!(OVERVIEW_SYSTEM_PROMPT.ends_with("Output only valid YAML, no markdown code blocks or extra commentary."));
}

#[test]
fn expansion_prompts_name_the_task() {
    let sys = expand_system_prompt(3, "Build", "task:\n  id: 3", "TEMPLATE");
    assert!(sys.starts_with("Your task is to expand Task 3 (\"Build\") from a high-level overview"));
    assert!(sys.contains("This is the current state of Task 3 - a strategic description"));
    assert!(sys.contains("```yaml\ntask:\n  id: 3\n```\n\n## OUTPUT TARGET"));
    assert!(sys.contains("this template structure:\n```yaml\nTEMPLATE\n```"));
    assert!(sys.contains("- Preserve task id (3) and name (\"Build\") from the overview"));
    assert!(sys.ends_with("Your job is to OUTPUT the specification, not to implement it"));
    assert_eq!(
        expand_query_prompt(12, "Docs"),
        "Expand Task 12 (\"Docs\") by coordinating with your specialized agents.\n\nIMPORTANT: Run all agents in parallel for maximum efficiency:\n- Invoke @files, @functions, @formal, and @tests agents simultaneously\n- Wait for all agents to complete\n- Then combine their outputs into the complete task specification in YAML format."
    );
    assert_eq!(expansion_agent_name(7), "task_7_suborchestrator");
}

#[test]
fn expansion_request_needs_an_id_and_a_name() {
    let task = yaml("task:\n  id: 4\n  name: Parser\n");
    let r = expansion_request(&task, "OV", "TPL").expect("complete task");
    assert_eq!(r.task_id, "expand_4");
    assert_eq!(r.agent_name, "Task 4 Suborchestrator");
    assert_eq!(r.description, "Expanding task 4 with sub-agents");
    assert_eq!(r.system_prompt, expand_system_prompt(4, "Parser", "OV", "TPL"));
    assert_eq!(r.query, expand_query_prompt(4, "Parser"));
    let no_id = yaml("task:\n  name: Parser\n");
    assert_eq!(expansion_request(&no_id, "", "").err(), Some("Task missing id field".to_string()));
    let no_name = yaml("task:\n  id: 4\n  name: 5\n");
    assert_eq!(expansion_request(&no_name, "", "").err(), Some("Task missing name field".to_string()));
}

#[test]
fn token_counts_default_to_zero_and_wrap_at_32_bits() {
    let u = token_usage(Some(120), None);
    assert_eq!((u.input_tokens, u.output_tokens), (120, 0));
    let w = token_usage(Some((1u64 << 32) + 7), Some(u64::MAX));
    assert_eq!((w.input_tokens, w.output_tokens), (7, u32::MAX));
}

#[test]
fn answers_are_joined_then_cleaned() {
    let parts = vec!["Sure:\n```yaml\na: 1".to_string(), "b: 2\n```".to_string()];
    assert_eq!(join_parts(&parts, "\n"), "Sure:\n```yaml\na: 1\nb: 2\n```");
    assert_eq!(answer_yaml(&parts, "\n"), "a: 1\nb: 2");
    assert_eq!(answer_yaml(&parts, ""), "a: 1b: 2");
    assert_eq!(join_parts(&Vec::new(), "--"), "");
}

#[test]
fn review_json_is_taken_from_the_first_block() {
    assert_eq!(answer_json("Here:\n```json\n[1]\n```\nDone"), "[1]");
    assert_eq!(answer_json("a```json [1] ```json [2]```"), "[1]");
    assert_eq!(answer_json("```\n{}\n```"), "{}");
    assert_eq!(answer_json("  [] "), "[]");
    assert_eq!(answer_json("```json\n[3]"), "[3]");
}

#[test]
fn review_results_read_from_json() {
    let answer = "```json\n[{\"task_id\": 2, \"success\": true, \"issues\": [\"a\", 3, \"b\"], \"summary\": \"ok\"}, {\"task_id\": 4294967301, \"success\": false}]\n```";
    let results = review_results_from_answer(answer).expect("valid results");
    assert_eq!(results.len(), 2);
    assert_eq!(results[0].task_id, 2);
    assert!(results[0].success);
    assert_eq!(results[0].issues, vec!["a", "b"]);
    assert_eq!(results[0].summary, "ok");
    assert_eq!(results[1].task_id, 5);
    assert!(!results[1].success);
    assert!(results[1].issues.is_empty());
    assert_eq!(results[1].summary, "No summary");
}

#[test]
fn review_results_errors() {
    let err = |a: &str| review_results_from_answer(a).err().expect("an error");
    assert_eq!(err("[{\"success\": true}]"), "Missing task_id");
    assert_eq!(err("[{\"task_id\": -1, \"success\": true}]"), "Missing task_id");
    assert_eq!(err("[{\"task_id\": 1}]"), "Missing success");
    assert_eq!(err("[{\"task_id\": 1, \"success\": true}, {\"task_id\": 2}]"), "Missing success");
    assert_eq!(err("{\"task_id\": 1}"), "Expected JSON array");
    assert_eq!(err("not json"), "Failed to parse review results JSON");
}

#[test]
fn reviews_pair_each_overview_with_the_last_matching_spec() {
    let pairs = pair_by_id(&vec![1, 2, 1, 3], &vec![Some(2), Some(1), None, Some(2), Some(5)]);
    assert_eq!(pairs, vec![(0, 1), (1, 3)]);
    let overviews = vec![yaml("task:\n  id: 1\n"), yaml("other: x\n"), yaml("task:\n  id: 0\n")];
    let detailed = vec![yaml("task:\n  id: 0\n"), yaml("task:\n  id: 1\n"), yaml("no: id\n")];
    // the overview without an id is looked up as task 0
    assert_eq!(pair_review_values(&overviews, &detailed), vec![(0, 1), (1, 0)]);
}

#[test]
fn review_task_list_names_each_task() {
    let tasks = vec![yaml("task:\n  id: 1\n  name: A\n"), yaml("foo: bar\n")];
    assert_eq!(review_task_list(&tasks), "  - Task 1: A\n  - Task 0: Unknown");
}

fn result(id: u32, success: bool, issues: &[&str], summary: &str) -> ReviewResult {
    ReviewResult {
        task_id: id,
        success,
        issues: issues.iter().map(|s| s.to_string()).collect(),
        summary: summary.to_string(),
    }
}

#[test]
fn review_report_lists_results_with_issues() {
    let results = vec![result(1, true, &[], "fine"), result(2, false, &["x", "y"], "bad")];
    assert_eq!(count_approved(&results), 1);
    let rule = "=".repeat(80);
    let expected = format!(
        "{}\nTASK REVIEW REPORT\n{}\n\nTotal tasks: 2\nApproved: 1\nNeeds revision: 1\n\n\nTask 1: APPROVED\nSummary: fine\n\n\nTask 2: NEEDS REVISION\nSummary: bad\nIssues:\n  - x\n  - y\n\n",
        rule, rule
    );
    assert_eq!(review_report(&results), expected);
    let empty = format!("{}\nTASK REVIEW REPORT\n{}\n\nTotal tasks: 0\nApproved: 0\nNeeds revision: 0\n\n", rule, rule);
    assert_eq!(review_report(&Vec::new()), empty);
}

#[test]
fn plan_prompt_embeds_overview_and_template() {
    let p = plan_prompt("task:\n  id: 1", "execution_plan:\n  total_tasks: [NUMBER]");
    assert!(p.starts_with("Analyze the tasks and their dependencies, then generate an execution plan.\n\n# Tasks Overview:\n```yaml\ntask:\n  id: 1\n```\n\n# Execution Plan Template:\n```yaml\nexecution_plan:\n  total_tasks: [NUMBER]\n```\n\nGenerate a complete execution_plan.yaml that:"));
    assert!(p.ends_with("Output only the YAML, no markdown formatting."));
    assert!(PLAN_SYSTEM_PROMPT.starts_with("You are an execution planning specialist"));
}

fn info(id: u32) -> TaskInfo {
    TaskInfo { id, name: format!("Task {}", id), context: String::new() }
}

fn overview(id: u32) -> TaskOverview {
    TaskOverview { task: info(id), dependencies: Dependencies { requires_completion_of: Vec::new() } }
}

fn detailed(id: u32) -> DetailedTask {
    DetailedTask {
        task: info(id),
        files: Vec::new(),
        functions: Vec::new(),
        formal_verification: FormalVerification {
            needed: false,
            level: "None".to_string(),
            explanation: String::new(),
            system_prompt: None,
            properties: None,
            strategy: None,
        },
        tests: TestSpec {
            strategy: TestStrategy { approach: String::new(), rationale: Vec::new() },
            implementation: TestImplementation { file: String::new(), location: String::new(), code: String::new() },
            coverage: Vec::new(),
        },
        dependencies: Dependencies { requires_completion_of: Vec::new() },
    }
}

#[test]
fn typed_reviews_pair_by_task_id() {
    let overviews = vec![overview(3), overview(1), overview(3), overview(9)];
    let specs = vec![detailed(1), detailed(3), detailed(1)];
    assert_eq!(pair_reviews(&overviews, &specs), vec![(0, 1), (1, 2)]);
}

#[test]
fn simple_plan_of_task_values_cuts_in_order() {
    let tasks: Vec<YamlNode> = (1..=5).map(|i| yaml(&format!("task:\n  id: {}\n", i))).collect();
    let batches = generate_simple_execution_plan(&tasks, 2).expect("a plan");
    assert_eq!(batches.len(), 3);
    assert_eq!(batches[0].len(), 2);
    assert_eq!(batches[2].len(), 1);
    let ids: Vec<Vec<u32>> = batches
        .iter()
        .map(|b| b.iter().map(|t| workflow_manager::task_planner::utils::get_task_id(t).unwrap()).collect())
        .collect();
    assert_eq!(ids, vec![vec![1, 2], vec![3, 4], vec![5]]);
}
