use workflow_manager::executions::{ExecutionRecord, ExecutionTable};
use workflow_manager::ui::tree::RunStatus;

fn launched(workflow: &str, start: u64) -> ExecutionRecord<u64> {
    ExecutionRecord {
        workflow_id: workflow.to_string(),
        workflow_name: format!("{} workflow", workflow),
        status: RunStatus::Running,
        holds_process: true,
        start_time: start,
        end_time: None,
        params: vec![("topic".to_string(), "rust".to_string())],
        exit_code: None,
    }
}

fn restored(workflow: &str, status: RunStatus) -> ExecutionRecord<u64> {
    ExecutionRecord {
        workflow_id: workflow.to_string(),
        workflow_name: workflow.to_string(),
        status,
        holds_process: false,
        start_time: 1,
        end_time: Some(2),
        params: Vec::new(),
        exit_code: Some(0),
    }
}

#[test]
fn a_registered_execution_is_read_back() {
    let mut t: ExecutionTable<u64> = ExecutionTable::new();
    assert_eq!(t.status(7), None);
    assert!(t.get(7).is_none());
    t.insert(7, launched("research", 100));
    t.insert(9, restored("planner", RunStatus::Completed));
    assert_eq!(t.status(7), Some(RunStatus::Running));
    assert_eq!(t.status(9), Some(RunStatus::Completed));
    let rec = t.get(7).unwrap();
    assert_eq!(rec.workflow_id, "research");
    assert_eq!(rec.params, vec![("topic".to_string(), "rust".to_string())]);
    assert_eq!(rec.start_time, 100);
    assert_eq!(t.status(8), None);
}

#[test]
fn registering_an_identifier_again_replaces_its_record() {
    let mut t: ExecutionTable<u64> = ExecutionTable::new();
    t.insert(1, launched("a", 5));
    t.insert(1, restored("b", RunStatus::Failed));
    assert_eq!(t.status(1), Some(RunStatus::Failed));
    assert_eq!(t.get(1).unwrap().workflow_id, "b");
}

#[test]
fn cancelling_marks_a_held_execution_failed() {
    let mut t: ExecutionTable<u64> = ExecutionTable::new();
    t.insert(3, launched("a", 10));
    assert_eq!(t.cancel(3, 42), Some(true));
    let rec = t.get(3).unwrap();
    assert_eq!(rec.status, RunStatus::Failed);
    assert_eq!(rec.end_time, Some(42));
    assert!(!rec.holds_process);
    assert_eq!(rec.exit_code, None);
    // nothing is held any more: a second cancel changes nothing
    assert_eq!(t.cancel(3, 50), Some(false));
    assert_eq!(t.get(3).unwrap().end_time, Some(42));
    // an unknown execution
    assert_eq!(t.cancel(4, 50), None);
}

#[test]
fn taking_the_process_of_an_execution() {
    let mut t: ExecutionTable<u64> = ExecutionTable::new();
    assert_eq!(t.take_process(1), Err("Execution not found"));
    t.insert(1, launched("a", 0));
    assert_eq!(t.take_process(1), Ok(()));
    assert!(!t.get(1).unwrap().holds_process);
    assert_eq!(t.get(1).unwrap().status, RunStatus::Running);
    assert_eq!(t.take_process(1), Err("No child process available"));
}

#[test]
fn an_exit_sets_status_end_and_code() {
    let mut t: ExecutionTable<u64> = ExecutionTable::new();
    t.insert(1, launched("a", 0));
    t.insert(2, launched("b", 0));
    assert!(t.record_exit(1, true, Some(0), 30));
    assert!(t.record_exit(2, false, Some(3), 31));
    assert!(!t.record_exit(5, true, None, 32));
    let a = t.get(1).unwrap();
    assert_eq!((a.status, a.end_time, a.exit_code), (RunStatus::Completed, Some(30), Some(0)));
    let b = t.get(2).unwrap();
    assert_eq!((b.status, b.end_time, b.exit_code), (RunStatus::Failed, Some(31), Some(3)));
}

#[test]
fn clean_up_keeps_only_running_executions() {
    let mut t: ExecutionTable<u64> = ExecutionTable::new();
    t.insert(1, launched("a", 0));
    t.insert(2, restored("b", RunStatus::Completed));
    t.insert(3, launched("c", 0));
    t.insert(4, restored("d", RunStatus::Failed));
    t.insert(5, restored("e", RunStatus::NotStarted));
    assert!(t.record_exit(3, true, Some(0), 9));
    t.remove_finished();
    assert_eq!(t.status(1), Some(RunStatus::Running));
    assert_eq!(t.status(2), None);
    assert_eq!(t.status(3), None);
    assert_eq!(t.status(4), None);
    assert_eq!(t.status(5), None);
    // cancelling then cleaning up drops the cancelled execution
    assert_eq!(t.cancel(1, 10), Some(true));
    t.remove_finished();
    assert_eq!(t.status(1), None);
}
