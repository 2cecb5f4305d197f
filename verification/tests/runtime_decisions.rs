use workflow_manager::runtime::{
    classify_stderr_line, command_args, exit_status, find_workflow, log_window, restored_execution,
    validate_inputs, validate_workflow_inputs, CliField, LogBatch, StderrLine,
};
use workflow_manager::ui::tree::RunStatus;

fn field(name: &str, cli_arg: &str, required: bool) -> CliField {
    CliField { name: name.to_string(), cli_arg: cli_arg.to_string(), required }
}

fn params(v: &[(&str, &str)]) -> Vec<(String, String)> {
    v.iter().map(|(a, b)| (a.to_string(), b.to_string())).collect()
}

#[test]
fn command_passes_non_empty_values_in_field_order() {
    let fields = vec![field("topic", "--topic", true), field("out", "--output", false), field("dir", "--dir", false)];
    let args = command_args(&fields, &params(&[("dir", "/tmp"), ("out", ""), ("topic", "rust")]));
    assert_eq!(args, vec!["--topic", "rust", "--dir", "/tmp"]);
    assert!(command_args(&fields, &Vec::new()).is_empty());
}

#[test]
fn launch_refuses_the_first_missing_required_field() {
    let fields = vec![field("a", "-a", false), field("b", "-b", true), field("c", "-c", true)];
    assert_eq!(validate_inputs(&fields, &params(&[("a", "1")])), Err("Required field 'b' missing".to_string()));
    assert_eq!(validate_inputs(&fields, &params(&[("b", "")])), Err("Required field 'c' missing".to_string()));
    // an empty value counts as entered
    assert_eq!(validate_inputs(&fields, &params(&[("b", ""), ("c", "x")])), Ok(()));
}

#[test]
fn stderr_lines_with_the_marker_are_events() {
    match classify_stderr_line("__WF_EVENT__:{\"type\":\"x\"}") {
        StderrLine::Event(json) => assert_eq!(json, "{\"type\":\"x\"}"),
        StderrLine::Raw(_) => panic!("expected an event"),
    }
    match classify_stderr_line("__WF_EVENT__:") {
        StderrLine::Event(json) => assert_eq!(json, ""),
        StderrLine::Raw(_) => panic!("expected an event"),
    }
    match classify_stderr_line("warning: __WF_EVENT__:{}") {
        StderrLine::Raw(line) => assert_eq!(line, "warning: __WF_EVENT__:{}"),
        StderrLine::Event(_) => panic!("expected raw output"),
    }
}

#[test]
fn log_batch_writes_at_fifty_lines_or_after_five_seconds() {
    let mut batch: LogBatch<String> = LogBatch::new();
    for i in 0..49 {
        assert!(batch.add(i, format!("line {}", i), 1_000).is_none());
    }
    assert_eq!(batch.len(), 49);
    let out = batch.add(49, "line 49".to_string(), 0).expect("the fiftieth line is written");
    assert_eq!(out.len(), 50);
    assert_eq!(out[0], (0, "line 0".to_string()));
    assert_eq!(out[49], (49, "line 49".to_string()));
    assert_eq!(batch.len(), 0);
    // exactly five seconds is not yet late
    assert!(batch.add(50, "a".to_string(), 5_000_000_000).is_none());
    let late = batch.add(51, "b".to_string(), 5_000_000_001).expect("late lines are written");
    assert_eq!(late, vec![(50, "a".to_string()), (51, "b".to_string())]);
    assert!(batch.finish().is_none());
}

#[test]
fn log_batch_keeps_lines_in_order_until_the_end() {
    let mut batch: LogBatch<u8> = LogBatch::new();
    let mut written: Vec<(usize, u8)> = Vec::new();
    for i in 0..120usize {
        if let Some(out) = batch.add(i, (i % 7) as u8, if i == 30 { 6_000_000_000 } else { 0 }) {
            written.extend(out);
        }
    }
    if let Some(rest) = batch.finish() {
        written.extend(rest);
    }
    let expected: Vec<(usize, u8)> = (0..120usize).map(|i| (i, (i % 7) as u8)).collect();
    assert_eq!(written, expected);
}

#[test]
fn log_window_takes_the_last_lines() {
    assert_eq!(log_window(10, None), (0, 10));
    assert_eq!(log_window(10, Some(3)), (7, 10));
    assert_eq!(log_window(10, Some(10)), (0, 10));
    assert_eq!(log_window(2, Some(5)), (0, 2));
    assert_eq!(log_window(0, Some(0)), (0, 0));
}

#[test]
fn execution_state_after_exit_and_restart() {
    assert_eq!(exit_status(true), RunStatus::Completed);
    assert_eq!(exit_status(false), RunStatus::Failed);
    assert_eq!(restored_execution(RunStatus::Running, 10u64, None), (RunStatus::Failed, Some(10u64), true));
    assert_eq!(restored_execution(RunStatus::Completed, 10u64, Some(20u64)), (RunStatus::Completed, Some(20u64), false));
    assert_eq!(restored_execution(RunStatus::Failed, 10u64, None), (RunStatus::Failed, None, false));
}

#[test]
fn workflows_are_found_by_identifier() {
    let ids = vec!["research".to_string(), "planner".to_string(), "research".to_string()];
    assert_eq!(find_workflow(&ids, "planner"), Ok(1));
    assert_eq!(find_workflow(&ids, "research"), Ok(0));
    assert_eq!(find_workflow(&ids, "missing"), Err("Workflow 'missing' not found".to_string()));
    assert_eq!(find_workflow(&Vec::new(), ""), Err("Workflow '' not found".to_string()));
}

#[test]
fn workflow_inputs_are_checked_against_the_named_workflow() {
    let catalog = vec![
        ("research".to_string(), vec![field("topic", "--topic", true)]),
        ("planner".to_string(), vec![field("impl", "--impl", true), field("out", "-o", false)]),
    ];
    assert_eq!(
        validate_workflow_inputs(&catalog, "missing", &Vec::new()),
        Err("Workflow 'missing' not found".to_string())
    );
    assert_eq!(
        validate_workflow_inputs(&catalog, "planner", &params(&[("topic", "x")])),
        Err("Required field 'impl' missing".to_string())
    );
    assert_eq!(validate_workflow_inputs(&catalog, "planner", &params(&[("impl", "a.md")])), Ok(()));
    assert_eq!(validate_workflow_inputs(&catalog, "research", &params(&[("topic", "rust")])), Ok(()));
}
