use workflow_manager::research::phases::{
    analysis_check, analysis_give_up_message, analysis_prompt, artifact_file, documentation_file,
    error_headline, fix_yaml_prompt, prompts_from_answer, prompts_request, research_result,
    research_result_file, research_task_id, synthesis_prompt, writer_system_prompt, AnalysisCheck,
    yaml_file_name, yaml_file_paths, Artifact, ANALYSIS_SYSTEM_PROMPT, CONDENSER_PROMPT,
    RESEARCH_APPEND,
};
use workflow_manager::text::{sort_texts, text_le_exec};
use workflow_manager::research::types::ResearchPrompt;

#[test]
fn analysis_prompt_names_the_codebase() {
    let p = analysis_prompt("/src/project");
    assert!(p.starts_with("Analyze the codebase at /src/project and provide a structured overview.\n\n# CRITICAL"));
    assert!(p.contains("  - Count .rs lines: find . -name \"*.rs\" -type f -exec wc -l {} + | tail -1\n"));
    assert!(p.ends_with("Be comprehensive and ACCURATE with all metrics."));
    assert!(ANALYSIS_SYSTEM_PROMPT.starts_with("You are a codebase analyst."));
}

#[test]
fn prompt_writer_gets_analysis_and_style() {
    assert_eq!(writer_system_prompt("W", "a: 1", "S"), "W\n\n# Codebase Analysis\na: 1\n\n# Output Style\nS");
    assert_eq!(prompts_request("why?"), "Generate research prompts for: why?");
}

#[test]
fn prompts_are_read_from_the_answer() {
    let answer = "Here they are:\n```yaml\nobjective: Learn\nprompts:\n  - title: T1\n    query: Q1\n    focus: [a, 2, b]\n  - title: T2\n  - title: T3\n    query: Q3\n```\n";
    let data = prompts_from_answer(answer).expect("valid YAML");
    assert_eq!(data.objective, "Learn");
    assert_eq!(data.prompts.len(), 2);
    assert_eq!(data.prompts[0].title, "T1");
    assert_eq!(data.prompts[0].query, "Q1");
    assert_eq!(data.prompts[0].focus, vec!["a", "b"]);
    assert_eq!(data.prompts[1].title, "T3");
    assert!(data.prompts[1].focus.is_empty());
}

#[test]
fn prompts_without_objective_or_list() {
    let data = prompts_from_answer("objective: 3\nprompts: none\n").expect("valid YAML");
    assert_eq!(data.objective, "Unknown objective");
    assert!(data.prompts.is_empty());
    let err = prompts_from_answer("```yaml\na: [1\n```").err().expect("invalid YAML");
    assert!(err.starts_with("Failed to parse prompts YAML: "));
}

#[test]
fn research_results_are_numbered_files() {
    assert_eq!(research_result_file(3, "20240101_120000"), "./RESULTS/research_result_3_20240101_120000.yaml");
    assert_eq!(research_task_id(12), "research_12");
    let prompt = ResearchPrompt {
        title: "Title".to_string(),
        query: "Query".to_string(),
        focus: vec!["x".to_string(), "y".to_string()],
    };
    let r = research_result(&prompt, 2, "ts");
    assert_eq!(r.title, "Title");
    assert_eq!(r.query, "Query");
    assert_eq!(r.response_file, "./RESULTS/research_result_2_ts.yaml");
    assert_eq!(r.focus, vec!["x", "y"]);
    assert!(RESEARCH_APPEND.starts_with("IMPORTANT: DO NOT create or write any files."));
}

#[test]
fn fix_prompt_shows_file_error_and_content() {
    assert_eq!(
        fix_yaml_prompt("f.yaml", "bad indent", "a: [1"),
        "The following YAML file has validation errors. Please fix it and output ONLY the corrected YAML.\n\nFile: f.yaml\n\nValidation Error:\nbad indent\n\nCurrent Content:\n```yaml\na: [1\n```\n\nOutput the fixed YAML wrapped in ```yaml code blocks."
    );
    assert_eq!(error_headline("line one\nline two"), "line one");
    assert_eq!(error_headline("only\r\n"), "only");
    assert_eq!(error_headline("\nsecond"), "");
    assert_eq!(error_headline(""), "Unknown error");
}

#[test]
fn analysis_is_checked_three_times_at_most() {
    assert!(matches!(analysis_check(1, true), AnalysisCheck::Load));
    assert!(matches!(analysis_check(1, false), AnalysisCheck::Repair));
    assert!(matches!(analysis_check(3, false), AnalysisCheck::Repair));
    assert!(matches!(analysis_check(4, true), AnalysisCheck::GiveUp));
    assert_eq!(analysis_give_up_message(), "Failed to fix YAML after 3 attempts. Manual intervention required.");
}

#[test]
fn run_files_are_stamped() {
    assert_eq!(artifact_file(Artifact::CodebaseAnalysis, "T"), "./OUTPUT/codebase_analysis_T.yaml");
    assert_eq!(artifact_file(Artifact::ResearchPrompts, "T"), "./OUTPUT/research_prompts_T.yaml");
    assert_eq!(artifact_file(Artifact::ResearchResults, "T"), "./RESULTS/research_results_T.yaml");
    assert_eq!(documentation_file(&None, "T"), "./OUTPUT/research_output_T.md");
    assert_eq!(documentation_file(&Some("docs.md".to_string()), "T"), "docs.md");
}

#[test]
fn synthesis_prompt_names_overview_and_output() {
    let p = synthesis_prompt("r.yaml", "o.md");
    assert!(p.starts_with("Read the research results overview file at r.yaml and create comprehensive documentation."));
    assert!(p.contains("5. **Write output**: Write the final documentation to o.md\n"));
    assert!(p.ends_with("Your goal is comprehensive yet manageable documentation"));
    assert!(CONDENSER_PROMPT.contains("Target output: 5,000-10,000 characters"));
}

#[test]
fn yaml_files_are_known_by_their_extension() {
    assert!(yaml_file_name("a.yaml"));
    assert!(yaml_file_name("b.yml"));
    assert!(yaml_file_name("x.tar.yml"));
    assert!(!yaml_file_name(".yaml"));
    assert!(!yaml_file_name("c.YAML"));
    assert!(!yaml_file_name("d.yaml.bak"));
    assert!(!yaml_file_name("e"));
    assert!(!yaml_file_name(".."));
}

#[test]
fn yaml_paths_are_selected_and_sorted() {
    let entries: Vec<(String, String)> = [("d/b.yml", "b.yml"), ("d/notes.txt", "notes.txt"), ("d/a.yaml", "a.yaml"), ("d/.yaml", ".yaml"), ("d/B.yaml", "B.yaml")]
        .iter()
        .map(|(p, n)| (p.to_string(), n.to_string()))
        .collect();
    assert_eq!(yaml_file_paths(entries), vec!["d/B.yaml", "d/a.yaml", "d/b.yml"]);
}

#[test]
fn texts_sort_like_strings() {
    let v: Vec<String> = ["pear", "apple", "é", "app", "Zed", "apple"].iter().map(|s| s.to_string()).collect();
    let mut expected = v.clone();
    expected.sort();
    assert_eq!(sort_texts(v), expected);
    assert!(text_le_exec("app", "apple"));
    assert!(!text_le_exec("b", "a"));
    assert!(text_le_exec("", ""));
}
