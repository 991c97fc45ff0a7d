use rde::tasks::{list_tokio_tasks, TokioScanner};
use rde::types::TaskState;
use std::time::Instant;

#[test]
fn test_tokio_scanner_no_runtime() {
    let scanner = TokioScanner::new();
    let tasks = scanner.list_tasks(1234).unwrap();
    assert_eq!(tasks.len(), 1);
    assert_eq!(tasks[0].task_id, 0);
    assert_eq!(tasks[0].state, TaskState::Completed);
    assert_eq!(tasks[0].function_name, Some("No Tokio runtime detected".to_string()));
}

#[test]
fn bench_tokio_task_listing() {
    let scanner = TokioScanner::new();
    let start = Instant::now();
    let tasks = scanner.list_tasks(1234).unwrap();
    let elapsed = start.elapsed();

    println!("Tokio task listing (no runtime): {:?} — {} tasks", elapsed, tasks.len());
    assert!(elapsed.as_secs_f64() < 2.0, "Task listing took too long: {:?}", elapsed);
}

#[test]
fn list_tokio_tasks_reports_no_runtime() {
    let tasks = list_tokio_tasks(42).unwrap();
    assert_eq!(tasks.len(), 1);
    assert_eq!(tasks[0].runtime_thread_id, None);
    assert_eq!(tasks[0].function_name.as_deref(), Some("No Tokio runtime detected"));
}
