//! The commands of the to-do list and how the arguments of a line name one.

use vstd::prelude::*;
use crate::error::Missing;
use crate::error::TodoError;
use crate::error::TodoErrorView;
use crate::text::id_of_token;
use crate::text::parse_id;
use crate::text::same_text;
use crate::text::texts;

verus! {

/// One command, with what it needs to be carried out.
#[derive(Debug, PartialEq, Eq)]
pub enum Command {
    /// Add a task with the given description.
    Add(String),
    /// Show all tasks.
    Show,
    /// Delete the task with the given identifier.
    Delete(u64),
    /// Give the task with the given identifier the given description.
    Update(u64, String),
    /// Mark the task with the given identifier as completed.
    Done(u64),
    /// Leave the program.
    Exit,
    /// Show the help text. Every unknown command word stands for this one.
    Help,
}

/// A command as a mathematical value.
pub enum CommandView {
    Add(Seq<char>),
    Show,
    Delete(nat),
    Update(nat, Seq<char>),
    Done(nat),
    Exit,
    Help,
}

impl View for Command {
    type V = CommandView;

    open spec fn view(&self) -> CommandView {
        match self {
            Command::Add(description) => CommandView::Add(description@),
            Command::Show => CommandView::Show,
            Command::Delete(id) => CommandView::Delete(*id as nat),
            Command::Update(id, description) => CommandView::Update(*id as nat, description@),
            Command::Done(id) => CommandView::Done(*id as nat),
            Command::Exit => CommandView::Exit,
            Command::Help => CommandView::Help,
        }
    }
}

/// What reading the arguments of a line gives, as a mathematical value.
pub open spec fn parse_view(r: Result<Command, TodoError>) -> Result<CommandView, TodoErrorView> {
    match r {
        Ok(command) => Ok(command@),
        Err(error) => Err(error@),
    }
}

/// The identifier that the argument `token` names, or the failure to name
/// one, which keeps the token.
pub open spec fn id_argument(token: Seq<char>) -> Result<nat, TodoErrorView> {
    match id_of_token(token) {
        Some(id) => Ok(id as nat),
        None => Err(TodoErrorView::InvalidId(token)),
    }
}

/// The command that `args` name: the first argument is the command word, the
/// others are what the command needs. A command word that is not known
/// stands for `help`; arguments beyond those that a command needs are not
/// looked at.
pub open spec fn parsed(args: Seq<Seq<char>>) -> Result<CommandView, TodoErrorView> {
    if args.len() == 0 {
        Err(TodoErrorView::MissingArgument(Missing::Command))
    } else if args[0] == "add"@ {
        if args.len() > 1 {
            Ok(CommandView::Add(args[1]))
        } else {
            Err(TodoErrorView::MissingArgument(Missing::TaskName))
        }
    } else if args[0] == "show"@ {
        Ok(CommandView::Show)
    } else if args[0] == "delete"@ {
        if args.len() > 1 {
            match id_argument(args[1]) {
                Ok(id) => Ok(CommandView::Delete(id)),
                Err(error) => Err(error),
            }
        } else {
            Err(TodoErrorView::MissingArgument(Missing::TaskId))
        }
    } else if args[0] == "update"@ {
        if args.len() > 2 {
            match id_argument(args[1]) {
                Ok(id) => Ok(CommandView::Update(id, args[2])),
                Err(error) => Err(error),
            }
        } else {
            Err(TodoErrorView::MissingArgument(Missing::UpdateArguments))
        }
    } else if args[0] == "done"@ {
        if args.len() > 1 {
            match id_argument(args[1]) {
                Ok(id) => Ok(CommandView::Done(id)),
                Err(error) => Err(error),
            }
        } else {
            Err(TodoErrorView::MissingArgument(Missing::TaskId))
        }
    } else if args[0] == "exit"@ {
        Ok(CommandView::Exit)
    } else {
        Ok(CommandView::Help)
    }
}

/// Reads `token` as the identifier of a task.
pub fn id_from(token: &String) -> (r: Result<u64, TodoError>)
    ensures
        match r {
            Ok(id) => id_argument(token@) == Ok::<nat, TodoErrorView>(id as nat),
            Err(error) => id_argument(token@) == Err::<nat, TodoErrorView>(error@),
        },
{
    match parse_id(token.as_str()) {
        Some(id) => Ok(id),
        None => Err(TodoError::InvalidId(token.clone())),
    }
}

impl Command {
    /// The command that `args` name, or the failure to name one: a missing
    /// argument, or an argument that should be an identifier and is none.
    pub fn parse(args: &Vec<String>) -> (r: Result<Command, TodoError>)
        ensures
            parse_view(r) == parsed(texts(args@)),
    {
        if args.len() == 0 {
            return Err(TodoError::MissingArgument(Missing::Command));
        }
        let word = &args[0];
        assert(texts(args@)[0] == word@);
        if same_text(word, "add") {
            if args.len() > 1 {
                assert(texts(args@)[1] == args@[1]@);
                Ok(Command::Add(args[1].clone()))
            } else {
                Err(TodoError::MissingArgument(Missing::TaskName))
            }
        } else if same_text(word, "show") {
            Ok(Command::Show)
        } else if same_text(word, "delete") {
            if args.len() > 1 {
                assert(texts(args@)[1] == args@[1]@);
                match id_from(&args[1]) {
                    Ok(id) => Ok(Command::Delete(id)),
                    Err(error) => Err(error),
                }
            } else {
                Err(TodoError::MissingArgument(Missing::TaskId))
            }
        } else if same_text(word, "update") {
            if args.len() > 2 {
                assert(texts(args@)[1] == args@[1]@);
                assert(texts(args@)[2] == args@[2]@);
                match id_from(&args[1]) {
                    Ok(id) => Ok(Command::Update(id, args[2].clone())),
                    Err(error) => Err(error),
                }
            } else {
                Err(TodoError::MissingArgument(Missing::UpdateArguments))
            }
        } else if same_text(word, "done") {
            if args.len() > 1 {
                assert(texts(args@)[1] == args@[1]@);
                match id_from(&args[1]) {
                    Ok(id) => Ok(Command::Done(id)),
                    Err(error) => Err(error),
                }
            } else {
                Err(TodoError::MissingArgument(Missing::TaskId))
            }
        } else if same_text(word, "exit") {
            Ok(Command::Exit)
        } else {
            Ok(Command::Help)
        }
    }
}

} // verus!
