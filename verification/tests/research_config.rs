use workflow_manager::research::workflow::{
    fix_round_task_id, fixer_prefix, fixer_task_id, next_fix_step, FixStep, files_to_validate, invalid_files, plan_research, yaml_check_passed, ConfigError,
    MissingInput, ResearchStep,
};
use workflow_manager::research::{
    CodebaseAnalysis, PromptsData, ResearchPrompt, ResearchResult, WorkflowConfig,
};
use workflow_manager::workflow_utils::yaml::parse_yaml;
use workflow_manager::yaml_model::{yaml_as_u64, yaml_get, YamlNode};

// ---------------------------------------------------------------------------
// WorkflowConfig
// ---------------------------------------------------------------------------

#[test]
fn test_module_imports() {
    let _config = WorkflowConfig::default();
    assert!(true);
}

#[test]
fn test_workflow_config_builder_pattern() {
    let config = WorkflowConfig {
        objective: Some("Test".to_string()),
        phases: vec![0, 1, 2, 3, 4],
        batch_size: 2,
        dir: Some(".".to_string()),
        system_prompt: Some("prompts/writer.md".to_string()),
        append: Some("prompts/style.md".to_string()),
        ..Default::default()
    };

    assert!(config.objective.is_some());
    assert_eq!(config.phases.len(), 5);
}

#[test]
fn test_default_config_has_all_phases() {
    let config = WorkflowConfig::default();
    assert_eq!(config.phases, vec![0, 1, 2, 3, 4]);
}

#[test]
fn test_config_can_run_single_phase() {
    let config = WorkflowConfig {
        phases: vec![3],
        results_dir: Some("RESULTS".to_string()),
        ..Default::default()
    };

    assert_eq!(config.phases.len(), 1);
    assert_eq!(config.phases[0], 3);
}

#[test]
fn test_config_validation_logic() {
    let config_valid_phase1 = WorkflowConfig {
        objective: Some("Test".to_string()),
        phases: vec![1],
        system_prompt: Some("prompt".to_string()),
        append: Some("style".to_string()),
        ..Default::default()
    };

    assert!(config_valid_phase1.objective.is_some());
    assert!(config_valid_phase1.system_prompt.is_some());
    assert!(config_valid_phase1.append.is_some());
    assert!(config_valid_phase1.phases.contains(&1));
}

#[test]
fn test_workflow_config_default() {
    let config = WorkflowConfig::default();

    assert_eq!(config.phases, vec![0, 1, 2, 3, 4]);
    assert_eq!(config.batch_size, 1);
    assert!(config.objective.is_none());
    assert!(config.dir.is_none());
    assert!(config.analysis_file.is_none());
    assert!(config.prompts_file.is_none());
    assert!(config.results_file.is_none());
    assert!(config.results_dir.is_none());
    assert!(config.output.is_none());
    assert!(config.system_prompt.is_none());
    assert!(config.append.is_none());
}

#[test]
fn test_workflow_config_custom_phases() {
    let config = WorkflowConfig {
        phases: vec![0, 1],
        ..Default::default()
    };

    assert_eq!(config.phases, vec![0, 1]);
    assert_eq!(config.batch_size, 1);
}

#[test]
fn test_workflow_config_custom_batch_size() {
    let config = WorkflowConfig {
        batch_size: 5,
        ..Default::default()
    };

    assert_eq!(config.batch_size, 5);
}

#[test]
fn test_workflow_config_with_objective() {
    let config = WorkflowConfig {
        objective: Some("Test objective".to_string()),
        ..Default::default()
    };

    assert_eq!(config.objective, Some("Test objective".to_string()));
}

#[test]
fn test_workflow_config_with_directory() {
    let config = WorkflowConfig {
        dir: Some("./test".to_string()),
        ..Default::default()
    };

    assert_eq!(config.dir, Some("./test".to_string()));
}

#[test]
fn test_workflow_config_full_custom() {
    let config = WorkflowConfig {
        objective: Some("Test objective".to_string()),
        phases: vec![2, 3, 4],
        batch_size: 3,
        dir: Some("./test".to_string()),
        analysis_file: Some("analysis.yaml".to_string()),
        prompts_file: Some("prompts.yaml".to_string()),
        results_file: Some("results.yaml".to_string()),
        results_dir: Some("./RESULTS".to_string()),
        output: Some("output.md".to_string()),
        system_prompt: Some("prompts/writer.md".to_string()),
        append: Some("prompts/style.md".to_string()),
    };

    assert_eq!(config.objective, Some("Test objective".to_string()));
    assert_eq!(config.phases, vec![2, 3, 4]);
    assert_eq!(config.batch_size, 3);
    assert_eq!(config.dir, Some("./test".to_string()));
    assert_eq!(config.analysis_file, Some("analysis.yaml".to_string()));
    assert_eq!(config.prompts_file, Some("prompts.yaml".to_string()));
    assert_eq!(config.results_file, Some("results.yaml".to_string()));
    assert_eq!(config.results_dir, Some("./RESULTS".to_string()));
    assert_eq!(config.output, Some("output.md".to_string()));
    assert_eq!(config.system_prompt, Some("prompts/writer.md".to_string()));
    assert_eq!(config.append, Some("prompts/style.md".to_string()));
}

#[test]
fn test_workflow_config_clone() {
    let config = WorkflowConfig {
        objective: Some("Test objective".to_string()),
        phases: vec![0, 1, 2],
        batch_size: 2,
        dir: Some(".".to_string()),
        ..Default::default()
    };

    let cloned = config.clone();
    assert_eq!(cloned.objective, config.objective);
    assert_eq!(cloned.phases, config.phases);
    assert_eq!(cloned.batch_size, config.batch_size);
    assert_eq!(cloned.dir, config.dir);
}

#[test]
fn test_workflow_config_phase_variations() {
    let config1 = WorkflowConfig {
        phases: vec![0],
        ..Default::default()
    };
    assert_eq!(config1.phases, vec![0]);

    let config2 = WorkflowConfig {
        phases: vec![1, 2, 3],
        ..Default::default()
    };
    assert_eq!(config2.phases, vec![1, 2, 3]);

    let config3 = WorkflowConfig {
        phases: vec![3, 1, 4],
        ..Default::default()
    };
    assert_eq!(config3.phases, vec![3, 1, 4]);

    let config4 = WorkflowConfig {
        phases: vec![],
        ..Default::default()
    };
    assert!(config4.phases.is_empty());
}

#[test]
fn test_workflow_config_batch_size_edge_cases() {
    let config1 = WorkflowConfig {
        batch_size: 1,
        ..Default::default()
    };
    assert_eq!(config1.batch_size, 1);

    let config2 = WorkflowConfig {
        batch_size: 100,
        ..Default::default()
    };
    assert_eq!(config2.batch_size, 100);
}

#[test]
fn test_workflow_config_resume_from_phase1() {
    let config = WorkflowConfig {
        objective: Some("Test objective".to_string()),
        phases: vec![1, 2, 3, 4],
        analysis_file: Some("OUTPUT/codebase_analysis.yaml".to_string()),
        system_prompt: Some("prompts/writer.md".to_string()),
        append: Some("prompts/style.md".to_string()),
        ..Default::default()
    };

    assert_eq!(config.phases, vec![1, 2, 3, 4]);
    assert!(config.analysis_file.is_some());
    assert!(config.objective.is_some());
}

#[test]
fn test_workflow_config_resume_from_phase2() {
    let config = WorkflowConfig {
        phases: vec![2, 3, 4],
        prompts_file: Some("OUTPUT/research_prompts.yaml".to_string()),
        batch_size: 2,
        ..Default::default()
    };

    assert_eq!(config.phases, vec![2, 3, 4]);
    assert!(config.prompts_file.is_some());
    assert!(config.objective.is_none());
}

#[test]
fn test_workflow_config_resume_from_phase3() {
    let config = WorkflowConfig {
        phases: vec![3, 4],
        results_dir: Some("RESULTS".to_string()),
        batch_size: 3,
        ..Default::default()
    };

    assert_eq!(config.phases, vec![3, 4]);
    assert!(config.results_dir.is_some());
}

#[test]
fn test_workflow_config_only_phase4() {
    let config = WorkflowConfig {
        phases: vec![4],
        results_file: Some("RESULTS/research_results.yaml".to_string()),
        output: Some("docs/guide.md".to_string()),
        ..Default::default()
    };

    assert_eq!(config.phases, vec![4]);
    assert!(config.results_file.is_some());
    assert!(config.output.is_some());
}

// ---------------------------------------------------------------------------
// Research data types
// ---------------------------------------------------------------------------

#[test]
fn test_research_prompt_creation() {
    let prompt = ResearchPrompt {
        title: "Test Prompt".to_string(),
        query: "What is this?".to_string(),
        focus: vec!["Focus area".to_string()],
    };

    assert_eq!(prompt.title, "Test Prompt");
    assert_eq!(prompt.query, "What is this?");
    assert_eq!(prompt.focus, vec!["Focus area".to_string()]);
}

#[test]
fn test_research_prompt_empty_focus() {
    let prompt = ResearchPrompt {
        title: "Test Prompt".to_string(),
        query: "What is this?".to_string(),
        focus: vec![],
    };

    assert_eq!(prompt.title, "Test Prompt");
    assert_eq!(prompt.query, "What is this?");
    assert!(prompt.focus.is_empty());
}

#[test]
fn test_prompts_data_creation() {
    let prompts_data = PromptsData {
        objective: "Test objective".to_string(),
        prompts: vec![ResearchPrompt {
            title: "Prompt 1".to_string(),
            query: "Query 1".to_string(),
            focus: vec![],
        }],
    };

    assert_eq!(prompts_data.objective, "Test objective");
    assert_eq!(prompts_data.prompts.len(), 1);
    assert_eq!(prompts_data.prompts[0].title, "Prompt 1");
}

#[test]
fn test_prompts_data_multiple_prompts() {
    let prompts_data = PromptsData {
        objective: "Test objective".to_string(),
        prompts: vec![
            ResearchPrompt {
                title: "Prompt 1".to_string(),
                query: "Query 1".to_string(),
                focus: vec!["Auth".to_string()],
            },
            ResearchPrompt {
                title: "Prompt 2".to_string(),
                query: "Query 2".to_string(),
                focus: vec!["API".to_string()],
            },
        ],
    };

    assert_eq!(prompts_data.prompts.len(), 2);
    assert_eq!(prompts_data.prompts[0].title, "Prompt 1");
    assert_eq!(prompts_data.prompts[1].title, "Prompt 2");
}

#[test]
fn test_research_result_creation() {
    let result = ResearchResult {
        title: "Result 1".to_string(),
        query: "Query 1".to_string(),
        response_file: "output/result1.yaml".to_string(),
        focus: vec!["Authentication".to_string()],
    };

    assert_eq!(result.title, "Result 1");
    assert_eq!(result.query, "Query 1");
    assert_eq!(result.response_file, "output/result1.yaml");
    assert_eq!(result.focus, vec!["Authentication".to_string()]);
}

#[test]
fn test_research_prompt_clone() {
    let prompt = ResearchPrompt {
        title: "Test".to_string(),
        query: "Query".to_string(),
        focus: vec!["Focus".to_string()],
    };

    let cloned = prompt.clone();
    assert_eq!(cloned.title, prompt.title);
    assert_eq!(cloned.query, prompt.query);
    assert_eq!(cloned.focus, prompt.focus);
}

#[test]
fn test_research_result_clone() {
    let result = ResearchResult {
        title: "Result".to_string(),
        query: "Query".to_string(),
        response_file: "output/result.yaml".to_string(),
        focus: vec!["Focus".to_string()],
    };

    let cloned = result.clone();
    assert_eq!(cloned.title, result.title);
    assert_eq!(cloned.query, result.query);
    assert_eq!(cloned.response_file, result.response_file);
    assert_eq!(cloned.focus, result.focus);
}

// ---------------------------------------------------------------------------
// Planning a run
// ---------------------------------------------------------------------------

fn full_config() -> WorkflowConfig {
    WorkflowConfig {
        objective: Some("How does auth work?".to_string()),
        system_prompt: Some("writer.md".to_string()),
        append: Some("style.md".to_string()),
        ..Default::default()
    }
}

#[test]
fn plan_full_run_takes_every_phase_in_order() {
    let steps = plan_research(&full_config()).unwrap();
    assert_eq!(
        steps,
        vec![
            ResearchStep::AnalyzeCodebase,
            ResearchStep::GeneratePrompts,
            ResearchStep::ExecuteResearch,
            ResearchStep::ValidateYaml,
            ResearchStep::Synthesize,
        ]
    );
}

#[test]
fn plan_phase1_needs_objective_then_system_prompt_then_append() {
    let mut c = full_config();
    c.objective = None;
    c.system_prompt = None;
    assert_eq!(plan_research(&c).unwrap_err(), ConfigError::NoObjective);
    c.objective = Some("x".to_string());
    assert_eq!(plan_research(&c).unwrap_err(), ConfigError::NoSystemPrompt);
    c.system_prompt = Some("y".to_string());
    c.append = None;
    assert_eq!(plan_research(&c).unwrap_err(), ConfigError::NoAppend);
    assert_eq!(
        ConfigError::NoAppend.message(),
        "--append is required when running phase 1"
    );
    assert_eq!(
        ConfigError::NoObjective.message(),
        "--input is required when running phase 1"
    );
    assert_eq!(
        ConfigError::NoSystemPrompt.message(),
        "--system-prompt is required when running phase 1"
    );
}

#[test]
fn plan_arguments_of_phase1_not_needed_without_it() {
    let c = WorkflowConfig {
        phases: vec![2, 3, 4],
        prompts_file: Some("OUTPUT/research_prompts.yaml".to_string()),
        ..Default::default()
    };
    assert_eq!(
        plan_research(&c).unwrap(),
        vec![
            ResearchStep::LoadPrompts,
            ResearchStep::ExecuteResearch,
            ResearchStep::ValidateYaml,
            ResearchStep::Synthesize,
        ]
    );
}

#[test]
fn plan_resume_from_saved_files() {
    let c = WorkflowConfig {
        objective: Some("o".to_string()),
        phases: vec![1, 2],
        analysis_file: Some("a.yaml".to_string()),
        system_prompt: Some("s".to_string()),
        append: Some("p".to_string()),
        ..Default::default()
    };
    assert_eq!(
        plan_research(&c).unwrap(),
        vec![
            ResearchStep::LoadAnalysis,
            ResearchStep::GeneratePrompts,
            ResearchStep::ExecuteResearch
        ]
    );
}

#[test]
fn plan_stops_where_an_input_is_missing() {
    let c = WorkflowConfig {
        objective: Some("o".to_string()),
        phases: vec![1],
        system_prompt: Some("s".to_string()),
        append: Some("p".to_string()),
        ..Default::default()
    };
    assert_eq!(
        plan_research(&c).unwrap(),
        vec![ResearchStep::Stop(MissingInput::Analysis)]
    );

    let c = WorkflowConfig {
        phases: vec![0, 2],
        ..Default::default()
    };
    assert_eq!(
        plan_research(&c).unwrap(),
        vec![
            ResearchStep::AnalyzeCodebase,
            ResearchStep::Stop(MissingInput::Prompts)
        ]
    );

    let c = WorkflowConfig {
        phases: vec![3, 4],
        results_dir: Some("RESULTS".to_string()),
        ..Default::default()
    };
    assert_eq!(
        plan_research(&c).unwrap(),
        vec![
            ResearchStep::ValidateYaml,
            ResearchStep::Stop(MissingInput::ResultsFile)
        ]
    );
    assert_eq!(
        MissingInput::ResultsFile.message(),
        "No research results file available. Run Phase 2 first or provide --results-file"
    );
    assert_eq!(
        MissingInput::Analysis.message(),
        "Phase 0 must run before Phase 1, or provide --analysis-file"
    );
    assert_eq!(
        MissingInput::Prompts.message(),
        "Phase 1 must run before Phase 2, or provide --prompts-file"
    );
}

#[test]
fn plan_only_phase4_with_results_file() {
    let c = WorkflowConfig {
        phases: vec![4],
        results_file: Some("RESULTS/research_results.yaml".to_string()),
        ..Default::default()
    };
    assert_eq!(
        plan_research(&c).unwrap(),
        vec![ResearchStep::LoadResults, ResearchStep::Synthesize]
    );
}

#[test]
fn plan_with_no_phase_is_empty() {
    let c = WorkflowConfig {
        phases: vec![],
        ..Default::default()
    };
    assert!(plan_research(&c).unwrap().is_empty());
}

// ---------------------------------------------------------------------------
// Phase 3 decisions
// ---------------------------------------------------------------------------

#[test]
fn validation_prefers_the_scanned_directory() {
    let found = vec!["RESULTS/a.yaml".to_string()];
    let responses = vec!["b.yaml".to_string()];
    assert_eq!(
        files_to_validate(Some(found.clone()), responses.clone()).unwrap(),
        found
    );
    assert_eq!(files_to_validate(None, responses.clone()).unwrap(), responses);
    assert_eq!(
        files_to_validate(None, vec![]).unwrap_err(),
        "No YAML files to validate. Run Phase 2 first, provide --results-file, or specify --results-dir"
    );
    assert_eq!(files_to_validate(Some(vec![]), vec![]).unwrap(), Vec::<String>::new());
}

#[test]
fn yaml_check_verdict_reads_status_and_output() {
    assert!(yaml_check_passed(true, "all good"));
    assert!(!yaml_check_passed(false, "all good"));
    assert!(!yaml_check_passed(true, "❌ bad indentation"));
    assert!(!yaml_check_passed(true, "Error: line 3"));
    assert!(yaml_check_passed(true, "error in lower case is not flagged"));
}

#[test]
fn invalid_files_keep_failures_in_order() {
    let reports = vec![
        ("a.yaml".to_string(), true, "".to_string()),
        ("b.yaml".to_string(), false, "Error 1".to_string()),
        ("c.yaml".to_string(), false, "Error 2".to_string()),
    ];
    assert_eq!(
        invalid_files(&reports),
        vec![
            ("b.yaml".to_string(), "Error 1".to_string()),
            ("c.yaml".to_string(), "Error 2".to_string())
        ]
    );
    assert!(invalid_files(&vec![]).is_empty());
}

#[test]
fn response_files_follow_results() {
    let results = vec![
        ResearchResult {
            title: "t".to_string(),
            query: "q".to_string(),
            response_file: "r1.yaml".to_string(),
            focus: vec![],
        },
        ResearchResult {
            title: "t2".to_string(),
            query: "q2".to_string(),
            response_file: "r2.yaml".to_string(),
            focus: vec![],
        },
    ];
    assert_eq!(
        workflow_manager::research::types::response_files(&results),
        vec!["r1.yaml".to_string(), "r2.yaml".to_string()]
    );
}

#[test]
fn test_public_api_accessibility() {
    let _prompt = ResearchPrompt {
        title: "Test".to_string(),
        query: "Query".to_string(),
        focus: vec![],
    };

    let _prompts = PromptsData {
        objective: "Test".to_string(),
        prompts: vec![],
    };

    let _result = ResearchResult {
        title: "Test".to_string(),
        query: "Query".to_string(),
        response_file: "file.yaml".to_string(),
        focus: vec![],
    };

    let _config = WorkflowConfig::default();

    let _analysis: CodebaseAnalysis = parse_yaml("key: value").unwrap();
}

#[test]
fn test_codebase_analysis_yaml_value() {
    let analysis: CodebaseAnalysis = parse_yaml(
        r#"
        files:
          total: 100
          by_extension:
            rs: 50
            toml: 5
        "#,
    )
    .unwrap();

    assert!(matches!(analysis, YamlNode::Mapping(_)));
    let files = yaml_get(&analysis, "files").expect("files");
    assert_eq!(yaml_get(files, "total").and_then(yaml_as_u64), Some(100));
}

#[test]
fn phase_three_fixes_until_no_file_fails() {
    assert!(matches!(next_fix_step(0, Vec::new()), FixStep::AllValid));
    assert!(matches!(next_fix_step(4, Vec::new()), FixStep::AllValid));
    let failing = vec![("a.yaml".to_string(), "bad".to_string()), ("b.yaml".to_string(), "worse".to_string())];
    match next_fix_step(2, failing.clone()) {
        FixStep::FixRound { iteration, files } => {
            assert_eq!(iteration, 3);
            assert_eq!(files, failing);
        }
        FixStep::AllValid => panic!("expected a fix round"),
    }
    assert_eq!(fixer_prefix(12), "[YAML Fixer 12]: ");
    assert_eq!(fixer_task_id(1), "fix_yaml_1");
    assert_eq!(fix_round_task_id(3), "fix_iteration_3");
}
