//! What can go wrong with a command, and the message that reports it.

use vstd::prelude::*;
use crate::text::decimal;
use crate::text::append_decimal;

verus! {

/// The token that a command was given without.
#[derive(Debug, Clone, Copy, PartialEq, Eq, Structural)]
pub enum Missing {
    /// No command word at all.
    Command,
    /// The description of the task to add.
    TaskName,
    /// The identifier of the task to delete or to complete.
    TaskId,
    /// The identifier or the new description of the task to update.
    UpdateArguments,
}

/// A failure of one command. Each one is reported by a single message and
/// leaves the registry and the stored tasks as they were.
#[derive(Debug, Clone, PartialEq, Eq)]
pub enum TodoError {
    /// A required token is absent.
    MissingArgument(Missing),
    /// The token given as an identifier denotes none.
    InvalidId(String),
    /// No task has the identifier.
    NotFound(u64),
    /// Every identifier has been handed out.
    IdsExhausted,
    /// The tasks could not be written to storage.
    PersistenceFailure,
}

/// A failure as a mathematical value.
pub enum TodoErrorView {
    MissingArgument(Missing),
    InvalidId(Seq<char>),
    NotFound(nat),
    IdsExhausted,
    PersistenceFailure,
}

impl TodoErrorView {
    /// The message that reports the failure.
    pub open spec fn message(self) -> Seq<char> {
        match self {
            TodoErrorView::MissingArgument(Missing::Command) => "No command provided."@,
            TodoErrorView::MissingArgument(Missing::TaskName) => "Please provide a task name"@,
            TodoErrorView::MissingArgument(Missing::TaskId) => "Please provide a task id"@,
            TodoErrorView::MissingArgument(Missing::UpdateArguments) =>
                "Usage: update <id> <new_task_name>"@,
            TodoErrorView::InvalidId(token) => "Invalid Id: "@ + token,
            TodoErrorView::NotFound(id) => "Task Id not found: "@ + decimal(id),
            TodoErrorView::IdsExhausted => "No task ids left"@,
            TodoErrorView::PersistenceFailure => "Warning: the tasks could not be saved"@,
        }
    }
}

impl View for TodoError {
    type V = TodoErrorView;

    open spec fn view(&self) -> TodoErrorView {
        match self {
            TodoError::MissingArgument(missing) => TodoErrorView::MissingArgument(*missing),
            TodoError::InvalidId(token) => TodoErrorView::InvalidId(token@),
            TodoError::NotFound(id) => TodoErrorView::NotFound(*id as nat),
            TodoError::IdsExhausted => TodoErrorView::IdsExhausted,
            TodoError::PersistenceFailure => TodoErrorView::PersistenceFailure,
        }
    }
}

impl TodoError {
    /// The message that reports the failure to the user.
    pub fn message(&self) -> (text: String)
        ensures
            text@ == self@.message(),
    {
        match self {
            TodoError::MissingArgument(Missing::Command) => "No command provided.".to_owned(),
            TodoError::MissingArgument(Missing::TaskName) => "Please provide a task name".to_owned(),
            TodoError::MissingArgument(Missing::TaskId) => "Please provide a task id".to_owned(),
            TodoError::MissingArgument(Missing::UpdateArguments) =>
                "Usage: update <id> <new_task_name>".to_owned(),
            TodoError::InvalidId(token) => {
                let mut text = "Invalid Id: ".to_owned();
                text.append(token.as_str());
                text
            },
            TodoError::NotFound(id) => {
                let mut text = "Task Id not found: ".to_owned();
                append_decimal(&mut text, *id);
                text
            },
            TodoError::IdsExhausted => "No task ids left".to_owned(),
            TodoError::PersistenceFailure => "Warning: the tasks could not be saved".to_owned(),
        }
    }
}

} // verus!
