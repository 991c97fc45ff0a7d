//! Inspection of the Tokio runtime in the debuggee: the async tasks it runs.

use vstd::prelude::*;
use crate::types::{AsyncTask, DebugError, TaskState};

verus! {

/// The list a scan gives when it finds no Tokio runtime: one completed
/// stand-in task, with id 0, that says so.
pub open spec fn no_runtime_tasks(tasks: Seq<AsyncTask>) -> bool {
    &&& tasks.len() == 1
    &&& tasks[0].task_id == 0
    &&& tasks[0].state == TaskState::Completed
    &&& tasks[0].function_name matches Some(n) && n@ == "No Tokio runtime detected"@
    &&& tasks[0].runtime_thread_id is None
}

/// Scans the debuggee for Tokio runtime tasks.
pub struct TokioScanner;

impl TokioScanner {
    /// A scanner.
    pub fn new() -> (r: Self) {
        TokioScanner
    }

    /// The Tokio tasks of the process `process_id`. Runtime detection is
    /// not implemented: every process reads as having no runtime.
    pub fn list_tasks(&self, process_id: u32) -> (r: Result<Vec<AsyncTask>, DebugError>)
        ensures
            r matches Ok(tasks) && no_runtime_tasks(tasks@),
    {
        let task = AsyncTask {
            task_id: 0,
            state: TaskState::Completed,
            function_name: Some("No Tokio runtime detected".to_owned()),
            runtime_thread_id: None,
        };
        let mut tasks: Vec<AsyncTask> = Vec::new();
        tasks.push(task);
        Ok(tasks)
    }
}

/// List the Tokio async tasks of the process `process_id`.
pub fn list_tokio_tasks(process_id: u32) -> (r: Result<Vec<AsyncTask>, DebugError>)
    ensures
        r matches Ok(tasks) && no_runtime_tasks(tasks@),
{
    let scanner = TokioScanner::new();
    scanner.list_tasks(process_id)
}

} // verus!
