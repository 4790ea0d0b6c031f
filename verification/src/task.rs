//! A single to-do item and its mathematical model.

use vstd::prelude::*;

verus! {

/// What a task is, as a mathematical value: its identifier, its text and
/// whether it has been completed.
pub struct TaskView {
    pub id: nat,
    pub description: Seq<char>,
    pub completed: bool,
}

/// A single to-do item.
#[derive(Debug, Clone, PartialEq, Eq)]
pub struct Task {
    /// The free-text description of the task.
    pub task: String,
    /// Whether the task has been completed.
    pub is_completed: bool,
    /// The identifier the task was created with.
    pub id: u64,
}

impl View for Task {
    type V = TaskView;

    open spec fn view(&self) -> TaskView {
        TaskView { id: self.id as nat, description: self.task@, completed: self.is_completed }
    }
}

impl Task {
    /// Marks the task as completed. A task that is already completed stays so.
    pub fn update_status(&mut self)
        ensures
            final(self)@ == (TaskView { completed: true, ..old(self)@ }),
    {
        self.is_completed = true;
    }

    /// Replaces the description of the task by `new_name`.
    pub fn update_task(&mut self, new_name: &str)
        ensures
            final(self)@ == (TaskView { description: new_name@, ..old(self)@ }),
    {
        self.task = new_name.to_owned();
    }
}

} // verus!
