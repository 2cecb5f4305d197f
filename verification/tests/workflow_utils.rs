use workflow_manager::workflow_utils::agent::{
    block_computable, extract_subagent_name, extract_tool_details, tool_details_computable,
    ContentEvent, DelegationTracker, StreamAction, StreamState, ToolInput,
};
use workflow_manager::yaml_model::{yaml_as_str, yaml_as_u64, yaml_get, YamlNode};
use workflow_manager::workflow_utils::batch::{batch_contexts, gather_outcomes, TaskContext};
use workflow_manager::workflow_utils::yaml::{
    clean_yaml, extract_yaml, fenced_yaml, parse_yaml, parse_yaml_documents, validate_yaml_syntax, yaml_documents,
};

fn tool_input(fields: &[(&str, &str)]) -> ToolInput {
    let mut i = ToolInput::new();
    for (k, v) in fields {
        i = i.with_field(k, v);
    }
    i
}

// ---------------------------------------------------------------------------
// Sub-agent detection and tool descriptions
// ---------------------------------------------------------------------------

#[test]
fn test_extract_subagent_name_explicit() {
    let input = tool_input(&[("subagent_type", "file-condenser")]);
    assert_eq!(extract_subagent_name(&input), Some("file-condenser".to_string()));
}

#[test]
fn test_extract_subagent_name_from_prompt() {
    let input = tool_input(&[("prompt", "@file-condenser please process this file")]);
    assert_eq!(extract_subagent_name(&input), Some("file-condenser".to_string()));
}

#[test]
fn test_extract_subagent_name_from_message() {
    let input = tool_input(&[("message", "Using @checker to validate")]);
    assert_eq!(extract_subagent_name(&input), Some("checker".to_string()));
}

#[test]
fn test_extract_subagent_name_none() {
    let input = tool_input(&[("prompt", "No subagent here")]);
    assert_eq!(extract_subagent_name(&input), None);
}

#[test]
fn subagent_name_stops_at_punctuation_and_skips_bare_at() {
    let input = tool_input(&[("prompt", "@ and then @files, please")]);
    assert_eq!(extract_subagent_name(&input), Some("files".to_string()));
    let input = tool_input(&[("prompt", "mail me at a@b"), ("description", "@tests_1 run")]);
    assert_eq!(extract_subagent_name(&input), Some("tests_1".to_string()));
}

#[test]
fn test_delegation_tracker() {
    let mut tracker = DelegationTracker::new();

    tracker.start_delegation("tool1".to_string(), "agent1".to_string());
    tracker.start_delegation("tool2".to_string(), "agent2".to_string());

    assert_eq!(tracker.complete_delegation("tool1"), Some("agent1".to_string()));
    assert_eq!(tracker.complete_delegation("tool2"), Some("agent2".to_string()));
    assert_eq!(tracker.complete_delegation("tool3"), None);
}

#[test]
fn delegation_tracker_restart_replaces_and_completion_is_once() {
    let mut tracker = DelegationTracker::new();
    tracker.start_delegation("t".to_string(), "a".to_string());
    tracker.start_delegation("t".to_string(), "b".to_string());
    assert_eq!(tracker.complete_delegation("t"), Some("b".to_string()));
    assert_eq!(tracker.complete_delegation("t"), None);
}

#[test]
fn test_extract_tool_details_read() {
    let input = tool_input(&[("file_path", "/path/to/file.rs")]);
    assert_eq!(extract_tool_details("Read", &input), "📖 Reading: /path/to/file.rs");
}

#[test]
fn test_extract_tool_details_write() {
    let input = tool_input(&[("file_path", "/path/to/output.yaml"), ("content", "some content")]);
    assert_eq!(
        extract_tool_details("Write", &input),
        "✍️  Writing: /path/to/output.yaml"
    );
}

#[test]
fn test_extract_tool_details_bash() {
    let input = tool_input(&[("command", "find . -name '*.rs' | wc -l")]);
    assert_eq!(
        extract_tool_details("Bash", &input),
        "⚡ Running: find . -name '*.rs' | wc -l"
    );
}

#[test]
fn test_extract_tool_details_bash_long_command() {
    let long_cmd = "a".repeat(100);
    let input = tool_input(&[("command", long_cmd.as_str())]);

    let result = extract_tool_details("Bash", &input);
    assert!(result.starts_with("⚡ Running: "));
    assert!(result.ends_with("..."));
    assert!(result.len() < 100);
}

#[test]
fn test_extract_tool_details_grep() {
    let input = tool_input(&[("pattern", "async fn"), ("path", "./src")]);
    assert_eq!(
        extract_tool_details("Grep", &input),
        "🔍 Searching: \"async fn\" in ./src"
    );
}

#[test]
fn test_extract_tool_details_glob() {
    let input = tool_input(&[("pattern", "**/*.rs")]);
    assert_eq!(extract_tool_details("Glob", &input), "📂 Finding: **/*.rs");
}

#[test]
fn test_extract_tool_details_task_with_subagent() {
    let input = tool_input(&[
        ("subagent_type", "file-condenser"),
        ("prompt", "Condense this large file"),
    ]);
    assert_eq!(
        extract_tool_details("Task", &input),
        "🤝 Delegating to @file-condenser: Condense this large file"
    );
}

#[test]
fn test_extract_tool_details_unknown_tool() {
    let input = ToolInput::new();
    assert_eq!(
        extract_tool_details("UnknownTool", &input),
        "🔧 Using tool: UnknownTool"
    );
}

#[test]
fn tool_details_defaults_when_fields_are_missing() {
    let empty = ToolInput::new();
    assert_eq!(extract_tool_details("Read", &empty), "📖 Reading file");
    assert_eq!(extract_tool_details("Bash", &empty), "⚡ Running bash command");
    assert_eq!(extract_tool_details("Grep", &empty), "🔍 Searching: \"?\" in .");
    assert_eq!(extract_tool_details("WebSearch", &empty), "🌐 Web search");
    assert_eq!(extract_tool_details("WebFetch", &empty), "🌐 Fetching URL");
    assert_eq!(extract_tool_details("Task", &empty), "🔧 Using tool: Task");
}

#[test]
fn tool_details_task_mention_is_removed_from_context() {
    let input = tool_input(&[("prompt", "@checker check the plan")]);
    assert_eq!(
        extract_tool_details("Task", &input),
        "🤝 Delegating to @checker: check the plan"
    );
    let only = input_only_mention();
    assert_eq!(extract_tool_details("Task", &only), "🤝 Delegating to @files");
}

fn input_only_mention() -> ToolInput {
    tool_input(&[("prompt", "@files")])
}

#[test]
fn tool_details_web_search_is_shortened() {
    let q = "q".repeat(61);
    let input = tool_input(&[("query", q.as_str())]);
    let expected = format!("🌐 Searching: {}...", "q".repeat(57));
    assert_eq!(extract_tool_details("WebSearch", &input), expected);
}

// ---------------------------------------------------------------------------
// Stream handling
// ---------------------------------------------------------------------------

#[test]
fn stream_collects_text_and_tracks_delegations() {
    let mut st = StreamState::new();
    match st.handle_block(ContentEvent::Text("Hello ".to_string())) {
        StreamAction::PrintAndLog(t) => assert_eq!(t, "Hello "),
        _ => panic!("text is printed"),
    }
    st.handle_block(ContentEvent::Text("world".to_string()));
    assert_eq!(st.response, "Hello world");

    let task_input = tool_input(&[("subagent_type", "files"), ("prompt", "List files")]);
    match st.handle_block(ContentEvent::ToolUse {
        id: "tu1".to_string(),
        name: "Task".to_string(),
        input: task_input,
    }) {
        StreamAction::Log(l) => assert_eq!(l, "🤝 Delegating to @files: List files"),
        _ => panic!("tool use is logged"),
    }
    match st.handle_block(ContentEvent::ToolResult { tool_use_id: "tu1".to_string() }) {
        StreamAction::Log(l) => assert_eq!(l, "✓ Sub-agent @files completed"),
        _ => panic!("result is logged"),
    }
    match st.handle_block(ContentEvent::ToolResult { tool_use_id: "tu1".to_string() }) {
        StreamAction::Log(l) => assert_eq!(l, "✓ Tool result: tu1"),
        _ => panic!("result is logged"),
    }
    assert!(matches!(st.handle_block(ContentEvent::Other), StreamAction::Nothing));
}

// ---------------------------------------------------------------------------
// YAML extraction
// ---------------------------------------------------------------------------

#[test]
fn test_extract_yaml_from_markdown() {
    let text = r#"
Some text here

```yaml
title: Test
count: 42
```

More text
        "#;

    let yaml = extract_yaml(text);
    assert!(yaml.contains("title: Test"));
    assert!(yaml.contains("count: 42"));
    assert!(!yaml.contains("```"));
}

#[test]
fn test_extract_yaml_generic_block() {
    let text = r#"
```
title: Test
count: 42
```
        "#;

    let yaml = extract_yaml(text);
    assert!(yaml.contains("title: Test"));
}

#[test]
fn test_extract_yaml_raw() {
    let text = r#"
---
title: Test
count: 42
        "#;

    let yaml = extract_yaml(text);
    assert!(!yaml.starts_with("---"));
    assert!(yaml.contains("title: Test"));
}

#[test]
fn extract_yaml_exact_results() {
    assert_eq!(extract_yaml("x\n```yaml\n---\na: 1\n```\ny"), "a: 1");
    assert_eq!(extract_yaml("```yaml\na: 1"), "a: 1");
    assert_eq!(extract_yaml("  plain  "), "plain");
    assert_eq!(fenced_yaml("```yaml\n---\na: 1\n```"), "---\na: 1");
    assert_eq!(clean_yaml("------ a: 1 "), "a: 1");
    assert_eq!(clean_yaml(""), "");
}

#[test]
fn test_validate_yaml_syntax() {
    assert!(validate_yaml_syntax("title: Test").is_ok());
    assert!(validate_yaml_syntax("invalid: [unclosed").is_err());
}

#[test]
fn yaml_documents_split_at_separators() {
    let docs = yaml_documents("\n---\ntitle: First\ncount: 1\n---\ntitle: Second\ncount: 2\n");
    assert_eq!(docs, vec!["title: First\ncount: 1".to_string(), "title: Second\ncount: 2".to_string()]);
    assert!(yaml_documents("").is_empty());
    assert!(yaml_documents(" --- --- ").is_empty());
    assert_eq!(yaml_documents("a------b"), vec!["a".to_string(), "b".to_string()]);
}

// ---------------------------------------------------------------------------
// Batches
// ---------------------------------------------------------------------------

#[test]
fn batch_contexts_number_tasks_from_one() {
    let ctx = batch_contexts(2, 3);
    assert_eq!(
        ctx,
        vec![
            TaskContext { phase: 2, task_number: 1, total_tasks: 3 },
            TaskContext { phase: 2, task_number: 2, total_tasks: 3 },
            TaskContext { phase: 2, task_number: 3, total_tasks: 3 },
        ]
    );
    assert!(batch_contexts(1, 0).is_empty());
}

#[test]
fn gather_outcomes_fails_fast_in_completion_order() {
    let ok: Vec<Result<i32, String>> = vec![Ok(2), Ok(4), Ok(6)];
    assert_eq!(gather_outcomes(ok), Ok(vec![2, 4, 6]));
    let failed: Vec<Result<i32, String>> =
        vec![Ok(2), Err("Failed at 3".to_string()), Err("later".to_string())];
    assert_eq!(gather_outcomes(failed), Err("Failed at 3".to_string()));
    let none: Vec<Result<i32, String>> = vec![];
    assert_eq!(gather_outcomes(none), Ok(vec![]));
}

#[test]
fn validation_error_is_a_fixed_message() {
    assert_eq!(validate_yaml_syntax("a: [1").err(), Some("YAML syntax validation failed".to_string()));
}

#[test]
fn multi_document_yaml_is_parsed_piece_by_piece() {
    let docs = parse_yaml_documents("---\na: 1\n---\n\n---\nb: [x]\n").expect("valid documents");
    assert_eq!(docs.len(), 2);
    assert_eq!(parse_yaml_documents("").expect("no document").len(), 0);
    // the position counts the empty pieces too
    assert_eq!(parse_yaml_documents("a: 1\n---\n---\nb: [1\n").err(), Some("Failed to parse document 2".to_string()));
    assert_eq!(parse_yaml_documents("x: [\n---\ny: ]").err(), Some("Failed to parse document 0".to_string()));
}

#[test]
fn tool_details_are_computable_unless_a_cut_splits_a_character() {
    let long_ascii = "x".repeat(100);
    assert!(tool_details_computable("Bash", &tool_input(&[("command", long_ascii.as_str())])));
    // 76 ASCII bytes then a two-byte character: byte 77 falls inside it
    let split = format!("{}é{}", "a".repeat(76), "b".repeat(10));
    assert!(!tool_details_computable("Bash", &tool_input(&[("command", split.as_str())])));
    assert!(tool_details_computable("Read", &tool_input(&[("file_path", split.as_str())])));
    let query = format!("{}é{}", "q".repeat(56), "r".repeat(10));
    assert!(!tool_details_computable("WebSearch", &tool_input(&[("query", query.as_str())])));
    let prompt = format!("@helper {}é{}", "p".repeat(56), "s".repeat(10));
    assert!(!tool_details_computable("Task", &tool_input(&[("prompt", prompt.as_str())])));
    assert!(tool_details_computable("Task", &tool_input(&[("prompt", "@helper short")])));
    let event = ContentEvent::ToolUse {
        id: "t1".to_string(),
        name: "Bash".to_string(),
        input: tool_input(&[("command", split.as_str())]),
    };
    assert!(!block_computable(&event));
    assert!(block_computable(&ContentEvent::Text("hi".to_string())));
}

fn title_and_count(node: &YamlNode) -> (String, u64) {
    let title = yaml_get(node, "title").and_then(yaml_as_str).expect("a title").to_string();
    let count = yaml_get(node, "count").and_then(yaml_as_u64).expect("a count");
    (title, count)
}

#[test]
fn test_parse_yaml() {
    let yaml = r#"
title: Test
count: 42
        "#;

    let data = parse_yaml(yaml).unwrap();
    let (title, count) = title_and_count(&data);
    assert_eq!(title, "Test");
    assert_eq!(count, 42);
}

#[test]
fn test_parse_yaml_multi() {
    let yaml = r#"
---
title: First
count: 1
---
title: Second
count: 2
        "#;

    let docs = parse_yaml_documents(yaml).unwrap();
    assert_eq!(docs.len(), 2);
    assert_eq!(title_and_count(&docs[0]).0, "First");
    assert_eq!(title_and_count(&docs[1]).0, "Second");
}

#[test]
fn parse_yaml_refuses_invalid_text() {
    assert_eq!(parse_yaml("invalid: [unclosed").err(), Some("Failed to parse YAML".to_string()));
}

#[test]
fn latest_delegation_of_an_id_wins() {
    let mut t = DelegationTracker::new();
    assert_eq!(t.complete_delegation("x"), None);
    t.start_delegation("a".to_string(), "files".to_string());
    t.start_delegation("b".to_string(), "tests".to_string());
    t.start_delegation("a".to_string(), "formal".to_string());
    t.start_delegation("c".to_string(), "functions".to_string());
    assert_eq!(t.complete_delegation("c"), Some("functions".to_string()));
    assert_eq!(t.complete_delegation("a"), Some("formal".to_string()));
    assert_eq!(t.complete_delegation("a"), None);
    assert_eq!(t.complete_delegation("b"), Some("tests".to_string()));
}

#[test]
fn blocks_that_cannot_be_described_are_refused_untouched() {
    let mut st = StreamState::new();
    let split = format!("{}é{}", "a".repeat(76), "b".repeat(10));
    let bad = ContentEvent::ToolUse {
        id: "t1".to_string(),
        name: "Bash".to_string(),
        input: tool_input(&[("command", split.as_str())]),
    };
    assert!(st.try_handle_block(bad).is_none());
    assert_eq!(st.response, "");
    match st.try_handle_block(ContentEvent::Text("hello".to_string())) {
        Some(StreamAction::PrintAndLog(t)) => assert_eq!(t, "hello"),
        _ => panic!("expected the text to be shown"),
    }
    assert_eq!(st.response, "hello");
}
