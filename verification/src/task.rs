//! The task record and what it stands for in contracts.

use vstd::prelude::*;

verus! {

/// One entry of the list.
#[derive(Debug, PartialEq, Eq)]
pub struct Task {
    /// Position in the list, counted from one, while the list is in good order.
    pub id: usize,
    /// Free text, kept as given.
    pub description: String,
    /// When the task was added, as text; never changed afterwards.
    pub created_at: String,
    /// Whether the task has been completed. Goes from `false` to `true` only.
    pub done: bool,
}

/// What a [`Task`] stands for in contracts.
pub struct TaskView {
    pub id: nat,
    pub description: Seq<char>,
    pub created_at: Seq<char>,
    pub done: bool,
}

impl View for Task {
    type V = TaskView;

    open spec fn view(&self) -> TaskView {
        TaskView {
            id: self.id as nat,
            description: self.description@,
            created_at: self.created_at@,
            done: self.done,
        }
    }
}

/// The views of a sequence of tasks, in the same order.
pub open spec fn views(tasks: Seq<Task>) -> Seq<TaskView> {
    Seq::new(tasks.len(), |i: int| tasks[i]@)
}

} // verus!
