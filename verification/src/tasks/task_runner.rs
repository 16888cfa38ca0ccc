//! Running tasks one after another.
use vstd::prelude::*;

verus! {

/// Runs a list of tasks in order.
pub struct TaskRunner;

impl TaskRunner {
    /// After a task ran: whether to print a blank line before its output
    /// (only between two tasks that both produced output) and whether the
    /// next task follows output.
    pub fn separator(last_had_output: bool, had_output: bool) -> (r: (bool, bool))
        ensures
            r.0 == (last_had_output && had_output),
            r.1 == had_output,
    {
        (last_had_output && had_output, had_output)
    }
}

} // verus!
