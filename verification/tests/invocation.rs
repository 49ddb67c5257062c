use csv_to_db_bridge::{conclude, InvocationError, ProcessOutput, RunOutcome};

fn completed(exit_code: Option<i32>, stdout: &str, stderr: &str) -> RunOutcome {
    RunOutcome::Completed(ProcessOutput {
        exit_code,
        stdout: stdout.as_bytes().to_vec(),
        stderr: stderr.as_bytes().to_vec(),
    })
}

#[test]
fn completed_run_has_an_outcome() {
    let result = conclude(completed(Some(0), "インポートされたレコード数: 42", ""));
    let report = result.expect("a completed run has an outcome");
    assert!(report.success());
    assert_eq!(report.message(), "インポートされたレコード数: 42");
    assert_eq!(report.records_imported(), Some(42));
}

#[test]
fn failure_reported_by_the_importer_is_no_error() {
    let result = conclude(completed(Some(1), "", "file not found"));
    let report = result.expect("a completed run has an outcome");
    assert!(!report.success());
    assert_eq!(report.message(), "file not found");
    assert_eq!(report.records_imported(), None);
}

#[test]
fn importer_that_cannot_be_started_is_a_spawn_failure() {
    let result = conclude(RunOutcome::SpawnFailed(
        "No such file or directory (os error 2)".to_string(),
    ));
    assert_eq!(
        result,
        Err(InvocationError::SpawnFailure(
            "No such file or directory (os error 2)".to_string()
        ))
    );
}

#[test]
fn task_that_did_not_complete_is_a_scheduling_failure() {
    let result = conclude(RunOutcome::SchedulingFailed("task 7 was cancelled".to_string()));
    assert_eq!(
        result,
        Err(InvocationError::SchedulingFailure("task 7 was cancelled".to_string()))
    );
}

#[test]
fn spawn_failure_message() {
    let error = InvocationError::SpawnFailure("Permission denied (os error 13)".to_string());
    assert_eq!(error.message(), "コマンド実行エラー: Permission denied (os error 13)");
}

#[test]
fn scheduling_failure_message() {
    let error = InvocationError::SchedulingFailure("task 7 panicked".to_string());
    assert_eq!(error.message(), "タスク実行エラー: task 7 panicked");
}

#[test]
fn the_two_failures_can_be_told_apart() {
    let spawn = InvocationError::SpawnFailure("x".to_string());
    let scheduling = InvocationError::SchedulingFailure("x".to_string());
    assert_ne!(spawn, scheduling);
    assert_ne!(spawn.message(), scheduling.message());
}

#[test]
fn message_of_an_empty_description_is_the_prefix() {
    assert_eq!(
        InvocationError::SpawnFailure(String::new()).message(),
        "コマンド実行エラー: "
    );
    assert_eq!(
        InvocationError::SchedulingFailure(String::new()).message(),
        "タスク実行エラー: "
    );
}

#[test]
fn error_of_a_failed_start_reaches_the_caller_as_text() {
    let result = conclude(RunOutcome::SpawnFailed("not found".to_string()));
    let text = result.map_err(|e| e.message());
    assert_eq!(text, Err("コマンド実行エラー: not found".to_string()));
}
