//! The task record and its mathematical value.

use crate::text::{append_decimal, decimal, mark_text, status_mark};
use vstd::prelude::*;
use vstd::string::StringExecFns;

verus! {

/// A task as a mathematical value: what contracts speak of.
pub struct TaskView {
    pub id: nat,
    pub description: Seq<char>,
    pub completed: bool,
}

impl TaskView {
    /// The line that a listing shows for the task: a check mark or a cross,
    /// the id in brackets, then the description.
    pub open spec fn line(self) -> Seq<char> {
        status_mark(self.completed) + " [ID: "@ + decimal(self.id) + "] "@ + self.description
    }
}

/// One entry of the task list.
///
/// The `id` and the `description` are fixed when the task is created;
/// `completed` starts `false` and can only become `true`.
#[derive(Debug, PartialEq, Eq)]
pub struct Task {
    pub id: usize,
    pub description: String,
    pub completed: bool,
}

impl View for Task {
    type V = TaskView;

    open spec fn view(&self) -> TaskView {
        TaskView {
            id: self.id as nat,
            description: self.description@,
            completed: self.completed,
        }
    }
}

/// The values of `tasks`, in the same order.
pub open spec fn views_of(tasks: Seq<Task>) -> Seq<TaskView> {
    tasks.map_values(|task: Task| task@)
}

impl Task {
    /// The line that a listing shows for the task.
    pub fn line(&self) -> (line: String)
        ensures
            line@ == self@.line(),
    {
        let mut line = String::from_str(mark_text(self.completed));
        line.append(" [ID: ");
        append_decimal(&mut line, self.id);
        line.append("] ");
        line.append(self.description.as_str());
        line
    }
}

impl Clone for Task {
    fn clone(&self) -> (copy: Task)
        ensures
            copy == *self,
    {
        Task { id: self.id, description: self.description.clone(), completed: self.completed }
    }
}

} // verus!
