use workflow_manager::task_planner::types::{
    Batch, BatchTask, CodeItem, Dependencies, DependenciesSummary, DetailedTask, ExecutionPlan,
    FileSpec, FormalVerification, FunctionGroup, ReviewResult, TaskDependency, TaskInfo,
    TaskOverview, TestImplementation, TestSpec, TestStrategy, TokenUsage, UsageStats,
};

fn sample_task_overview() -> TaskOverview {
    TaskOverview {
        task: TaskInfo {
            id: 1,
            name: "Sample Task".to_string(),
            context: "This is a sample task for testing".to_string(),
        },
        dependencies: Dependencies {
            requires_completion_of: vec![],
        },
    }
}

fn sample_detailed_task() -> DetailedTask {
    DetailedTask {
        task: TaskInfo {
            id: 1,
            name: "Detailed Task".to_string(),
            context: "This is a detailed task specification".to_string(),
        },
        files: vec![FileSpec {
            path: "src/example.rs".to_string(),
            description: "Example implementation file".to_string(),
        }],
        functions: vec![FunctionGroup {
            file: "src/example.rs".to_string(),
            items: vec![CodeItem {
                item_type: "function".to_string(),
                name: "example_function".to_string(),
                description: "An example function".to_string(),
                preconditions: Some("Input must be valid".to_string()),
                postconditions: Some("Returns valid result".to_string()),
                invariants: None,
            }],
        }],
        formal_verification: FormalVerification {
            needed: false,
            level: "None".to_string(),
            explanation: "Simple function doesn't require formal verification".to_string(),
            system_prompt: None,
            properties: None,
            strategy: None,
        },
        tests: TestSpec {
            strategy: TestStrategy {
                approach: "Unit tests".to_string(),
                rationale: vec!["Test core functionality".to_string()],
            },
            implementation: TestImplementation {
                file: "tests/example_test.rs".to_string(),
                location: "Create new file".to_string(),
                code: "#[test]\nfn test_example() {\n    assert!(true);\n}".to_string(),
            },
            coverage: vec!["Basic functionality".to_string()],
        },
        dependencies: Dependencies::default(),
    }
}

fn sample_execution_plan() -> ExecutionPlan {
    ExecutionPlan {
        total_tasks: 3,
        total_batches: 2,
        batches: vec![
            Batch {
                batch_id: 1,
                description: "First batch".to_string(),
                strategy: "sequential".to_string(),
                tasks: vec![
                    BatchTask {
                        task_id: 1,
                        task_name: "Task 1".to_string(),
                        reason: "No dependencies".to_string(),
                    },
                    BatchTask {
                        task_id: 2,
                        task_name: "Task 2".to_string(),
                        reason: "No dependencies".to_string(),
                    },
                ],
                parallelization_rationale: "Both tasks have no dependencies".to_string(),
            },
            Batch {
                batch_id: 2,
                description: "Second batch".to_string(),
                strategy: "sequential".to_string(),
                tasks: vec![BatchTask {
                    task_id: 3,
                    task_name: "Task 3".to_string(),
                    reason: "Depends on batch 1".to_string(),
                }],
                parallelization_rationale: "Depends on previous batch".to_string(),
            },
        ],
        dependencies_summary: DependenciesSummary {
            critical_path: vec![1, 3],
            parallelization_potential: "medium".to_string(),
            parallelization_explanation: "2 out of 3 tasks can run in parallel".to_string(),
        },
    }
}

fn sample_review_result(success: bool) -> ReviewResult {
    ReviewResult {
        task_id: 1,
        success,
        issues: if success {
            vec![]
        } else {
            vec!["Missing test coverage".to_string()]
        },
        summary: if success {
            "Task passes all checks".to_string()
        } else {
            "Task has issues that need fixing".to_string()
        },
    }
}

#[test]
fn test_task_overview_creation() {
    let task = sample_task_overview();
    assert_eq!(task.task.id, 1);
    assert_eq!(task.task.name, "Sample Task");
    assert_eq!(task.task.context, "This is a sample task for testing");
    assert!(task.dependencies.requires_completion_of.is_empty());
}

#[test]
fn test_task_overview_clone() {
    let task = sample_task_overview();
    let cloned = task.clone();
    assert_eq!(task.task.id, cloned.task.id);
    assert_eq!(task.task.name, cloned.task.name);
}

#[test]
fn test_task_info_creation() {
    let info = TaskInfo {
        id: 123,
        name: "Test Task Info".to_string(),
        context: "Context info".to_string(),
    };
    assert_eq!(info.id, 123);
    assert_eq!(info.name, "Test Task Info");
}

#[test]
fn test_dependencies_default() {
    let deps = Dependencies::default();
    assert!(deps.requires_completion_of.is_empty());
}

#[test]
fn test_dependencies_with_items() {
    let deps = Dependencies {
        requires_completion_of: vec![
            TaskDependency {
                task_id: 1,
                reason: "Needs task 1".to_string(),
            },
            TaskDependency {
                task_id: 2,
                reason: "Needs task 2".to_string(),
            },
        ],
    };
    assert_eq!(deps.requires_completion_of.len(), 2);
    assert_eq!(deps.requires_completion_of[0].task_id, 1);
}

#[test]
fn test_task_dependency_creation() {
    let dep = TaskDependency {
        task_id: 42,
        reason: "Required for functionality".to_string(),
    };
    assert_eq!(dep.task_id, 42);
    assert_eq!(dep.reason, "Required for functionality");
}

#[test]
fn test_detailed_task_creation() {
    let task = sample_detailed_task();
    assert_eq!(task.task.id, 1);
    assert_eq!(task.files.len(), 1);
    assert_eq!(task.functions.len(), 1);
    assert!(!task.formal_verification.needed);
}

#[test]
fn test_file_spec_creation() {
    let file = FileSpec {
        path: "src/main.rs".to_string(),
        description: "Main entry point".to_string(),
    };
    assert_eq!(file.path, "src/main.rs");
    assert_eq!(file.description, "Main entry point");
}

#[test]
fn test_function_group_creation() {
    let group = FunctionGroup {
        file: "src/lib.rs".to_string(),
        items: vec![],
    };
    assert_eq!(group.file, "src/lib.rs");
    assert!(group.items.is_empty());
}

#[test]
fn test_function_group_with_items() {
    let group = FunctionGroup {
        file: "src/utils.rs".to_string(),
        items: vec![CodeItem {
            item_type: "function".to_string(),
            name: "helper".to_string(),
            description: "Helper function".to_string(),
            preconditions: None,
            postconditions: None,
            invariants: None,
        }],
    };
    assert_eq!(group.items.len(), 1);
    assert_eq!(group.items[0].name, "helper");
}

#[test]
fn test_code_item_creation() {
    let item = CodeItem {
        item_type: "function".to_string(),
        name: "calculate".to_string(),
        description: "Calculates result".to_string(),
        preconditions: Some("x > 0".to_string()),
        postconditions: Some("result >= 0".to_string()),
        invariants: Some("state unchanged".to_string()),
    };
    assert_eq!(item.item_type, "function");
    assert_eq!(item.name, "calculate");
    assert!(item.preconditions.is_some());
}

#[test]
fn test_code_item_without_conditions() {
    let item = CodeItem {
        item_type: "struct".to_string(),
        name: "Config".to_string(),
        description: "Configuration struct".to_string(),
        preconditions: None,
        postconditions: None,
        invariants: None,
    };
    assert!(item.preconditions.is_none());
    assert!(item.postconditions.is_none());
    assert!(item.invariants.is_none());
}

#[test]
fn test_formal_verification_not_needed() {
    let verification = FormalVerification {
        needed: false,
        level: "None".to_string(),
        explanation: "Simple function".to_string(),
        system_prompt: None,
        properties: None,
        strategy: None,
    };
    assert!(!verification.needed);
    assert_eq!(verification.level, "None");
}

#[test]
fn test_formal_verification_needed() {
    let verification = FormalVerification {
        needed: true,
        level: "Critical".to_string(),
        explanation: "Safety-critical code".to_string(),
        system_prompt: Some("Verify safety properties".to_string()),
        properties: Some(vec!["No memory leaks".to_string()]),
        strategy: Some("Model checking".to_string()),
    };
    assert!(verification.needed);
    assert!(verification.properties.is_some());
}

#[test]
fn test_test_spec_creation() {
    let spec = TestSpec {
        strategy: TestStrategy {
            approach: "Unit tests".to_string(),
            rationale: vec!["Fast feedback".to_string()],
        },
        implementation: TestImplementation {
            file: "tests/unit.rs".to_string(),
            location: "Create new".to_string(),
            code: "test code".to_string(),
        },
        coverage: vec!["Core logic".to_string()],
    };
    assert_eq!(spec.strategy.approach, "Unit tests");
    assert_eq!(spec.coverage.len(), 1);
}

#[test]
fn test_test_strategy_creation() {
    let strategy = TestStrategy {
        approach: "Integration tests".to_string(),
        rationale: vec![
            "Test component interactions".to_string(),
            "Verify system behavior".to_string(),
        ],
    };
    assert_eq!(strategy.rationale.len(), 2);
}

#[test]
fn test_test_implementation_creation() {
    let impl_spec = TestImplementation {
        file: "tests/integration.rs".to_string(),
        location: "Append to existing".to_string(),
        code: "#[test]\nfn test() {}".to_string(),
    };
    assert_eq!(impl_spec.file, "tests/integration.rs");
    assert!(impl_spec.code.contains("#[test]"));
}

#[test]
fn test_execution_plan_creation() {
    let plan = sample_execution_plan();
    assert_eq!(plan.total_tasks, 3);
    assert_eq!(plan.total_batches, 2);
    assert_eq!(plan.batches.len(), 2);
}

#[test]
fn test_batch_creation() {
    let batch = Batch {
        batch_id: 1,
        description: "First batch".to_string(),
        strategy: "parallel".to_string(),
        tasks: vec![],
        parallelization_rationale: "Independent tasks".to_string(),
    };
    assert_eq!(batch.batch_id, 1);
    assert_eq!(batch.strategy, "parallel");
}

#[test]
fn test_batch_with_tasks() {
    let batch = sample_execution_plan().batches[0].clone();
    assert_eq!(batch.tasks.len(), 2);
    assert_eq!(batch.tasks[0].task_id, 1);
}

#[test]
fn test_batch_task_creation() {
    let task = BatchTask {
        task_id: 42,
        task_name: "Task 42".to_string(),
        reason: "Part of first batch".to_string(),
    };
    assert_eq!(task.task_id, 42);
    assert_eq!(task.task_name, "Task 42");
}

#[test]
fn test_dependencies_summary_creation() {
    let summary = DependenciesSummary {
        critical_path: vec![1, 3, 5],
        parallelization_potential: "high".to_string(),
        parallelization_explanation: "Many independent tasks".to_string(),
    };
    assert_eq!(summary.critical_path.len(), 3);
    assert_eq!(summary.parallelization_potential, "high");
}

#[test]
fn test_token_usage_creation() {
    let usage = TokenUsage {
        input_tokens: 2000,
        output_tokens: 1500,
    };
    assert_eq!(usage.input_tokens, 2000);
    assert_eq!(usage.output_tokens, 1500);
}

#[test]
fn test_review_result_success() {
    let result = sample_review_result(true);
    assert!(result.success);
    assert!(result.issues.is_empty());
    assert!(result.summary.contains("passes"));
}

#[test]
fn test_review_result_failure() {
    let result = sample_review_result(false);
    assert!(!result.success);
    assert!(!result.issues.is_empty());
    assert_eq!(result.issues[0], "Missing test coverage");
}

#[test]
fn test_public_api_type_creation() {
    let _task_overview = sample_task_overview();
    let _detailed_task = sample_detailed_task();
    let _usage_stats = sample_usage_stats();
    let _execution_plan = sample_execution_plan();
    let _review_result = sample_review_result(true);
}

#[test]
fn test_module_imports_types() {
    let _task_overview: TaskOverview;
    let _task_info: TaskInfo;
    let _dependencies: Dependencies;
    let _task_dependency: TaskDependency;
    let _detailed_task: DetailedTask;
    let _file_spec: FileSpec;
    let _function_group: FunctionGroup;
    let _code_item: CodeItem;
    let _formal_verification: FormalVerification;
    let _test_spec: TestSpec;
    let _test_strategy: TestStrategy;
    let _test_implementation: TestImplementation;
    let _execution_plan: ExecutionPlan;
    let _batch: Batch;
    let _batch_task: BatchTask;
    let _dependencies_summary: DependenciesSummary;
    let _usage_stats: UsageStats;
    let _token_usage: TokenUsage;
    let _review_result: ReviewResult;
}

fn sample_usage_stats() -> UsageStats {
    UsageStats {
        duration_ms: 1500,
        duration_api_ms: Some(1200),
        num_turns: 2,
        usage: TokenUsage {
            input_tokens: 1000,
            output_tokens: 500,
        },
        session_id: Some("test-session-123".to_string()),
    }
}

#[test]
fn test_usage_stats_creation() {
    let stats = sample_usage_stats();
    assert_eq!(stats.duration_ms, 1500);
    assert_eq!(stats.num_turns, 2);
    assert_eq!(stats.usage.input_tokens, 1000);
    assert_eq!(stats.usage.output_tokens, 500);
}
