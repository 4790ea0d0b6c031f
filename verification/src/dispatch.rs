//! The dispatcher: one command is carried out on the registry, and the
//! outcome says what to show and whether the tasks have to be stored.

use vstd::prelude::*;
use crate::command::parsed;
use crate::command::Command;
use crate::command::CommandView;
use crate::error::TodoError;
use crate::error::TodoErrorView;
use crate::registry::Registry;
use crate::registry::RegistryView;
use crate::render::display_help;
use crate::render::display_todo;
use crate::render::help_lines;
use crate::render::listing;
use crate::text::append_decimal;
use crate::text::decimal;
use crate::text::texts;
use crate::words::arguments;
use crate::words::tokenize;
use crate::words::words;

verus! {

/// What one command leads to.
#[derive(Debug, PartialEq, Eq)]
pub struct Outcome {
    /// The lines to show, in order.
    pub output: Vec<String>,
    /// Whether the tasks have to be written to storage: whether the command
    /// was one that changes the registry, and succeeded.
    pub persist: bool,
    /// Whether the program is to end.
    pub exit: bool,
}

/// An outcome as a mathematical value.
pub struct OutcomeView {
    pub output: Seq<Seq<char>>,
    pub persist: bool,
    pub exit: bool,
}

impl View for Outcome {
    type V = OutcomeView;

    open spec fn view(&self) -> OutcomeView {
        OutcomeView { output: texts(self.output@), persist: self.persist, exit: self.exit }
    }
}

/// The outcome of a command that only shows `output`.
pub open spec fn shown(output: Seq<Seq<char>>) -> OutcomeView {
    OutcomeView { output, persist: false, exit: false }
}

/// The outcome of a command that changed the registry and reports it with
/// `output`: the tasks have to be stored.
pub open spec fn changed(output: Seq<Seq<char>>) -> OutcomeView {
    OutcomeView { output, persist: true, exit: false }
}

/// The outcome of a command that failed with `error`: its message, and
/// nothing to store.
pub open spec fn failed(error: TodoErrorView) -> OutcomeView {
    shown(seq![error.message()])
}

/// The outcome of a blank line: nothing to show and nothing to store.
pub open spec fn silent() -> OutcomeView {
    shown(Seq::empty())
}

/// The registry after `command`, and the outcome of the command.
pub open spec fn executed(command: CommandView, registry: RegistryView) -> (
    RegistryView,
    OutcomeView,
) {
    match command {
        CommandView::Add(description) => {
            if registry.next_id <= u64::MAX {
                let after = registry.add(description);
                (after, changed(seq!["Task added: "@ + description] + listing(after.tasks)))
            } else {
                (registry, failed(TodoErrorView::IdsExhausted))
            }
        },
        CommandView::Show => (registry, shown(listing(registry.tasks))),
        CommandView::Delete(id) => {
            if registry.contains_id(id) {
                (registry.remove(id), changed(seq!["Task "@ + decimal(id) + " deleted"@]))
            } else {
                (registry, failed(TodoErrorView::NotFound(id)))
            }
        },
        CommandView::Update(id, description) => {
            if registry.contains_id(id) {
                (
                    registry.update_description(id, description),
                    changed(seq!["Task "@ + decimal(id) + " updated"@]),
                )
            } else {
                (registry, failed(TodoErrorView::NotFound(id)))
            }
        },
        CommandView::Done(id) => {
            if registry.contains_id(id) {
                (
                    registry.mark_completed(id),
                    changed(seq!["Task "@ + decimal(id) + " marked done"@]),
                )
            } else {
                (registry, failed(TodoErrorView::NotFound(id)))
            }
        },
        CommandView::Exit => (
            registry,
            OutcomeView { output: Seq::empty(), persist: false, exit: true },
        ),
        CommandView::Help => (registry, shown(help_lines())),
    }
}

/// The registry after the command that `args` name, and the outcome. Where
/// the arguments name no command, the registry stays as it is.
pub open spec fn dispatched(args: Seq<Seq<char>>, registry: RegistryView) -> (
    RegistryView,
    OutcomeView,
) {
    match parsed(args) {
        Ok(command) => executed(command, registry),
        Err(error) => (registry, failed(error)),
    }
}

/// The registry after the command that the line `line` holds, and the
/// outcome. A blank line changes nothing and shows nothing.
pub open spec fn interpreted(line: Seq<char>, registry: RegistryView) -> (
    RegistryView,
    OutcomeView,
) {
    if words(line).len() == 0 {
        (registry, silent())
    } else {
        dispatched(arguments(words(line)), registry)
    }
}

/// The line that reports what was done to the task `id`.
fn report(id: u64, what: &str) -> (lines: Vec<String>)
    ensures
        texts(lines@) == seq!["Task "@ + decimal(id as nat) + what@],
{
    let mut line = "Task ".to_owned();
    append_decimal(&mut line, id);
    line.append(what);
    let mut lines: Vec<String> = Vec::new();
    lines.push(line);
    assert(texts(lines@) =~= seq!["Task "@ + decimal(id as nat) + what@]);
    lines
}

/// The outcome of a command that failed with `error`.
pub fn failure(error: &TodoError) -> (outcome: Outcome)
    ensures
        outcome@ == failed(error@),
{
    let mut output: Vec<String> = Vec::new();
    output.push(error.message());
    assert(texts(output@) =~= seq![error@.message()]);
    Outcome { output, persist: false, exit: false }
}

/// The outcome of a registry operation on the task `id`: the report `what`
/// where it succeeded, the failure where it did not.
fn reported(result: Result<(), TodoError>, id: u64, what: &str) -> (outcome: Outcome)
    ensures
        outcome@ == match result {
            Ok(_) => changed(seq!["Task "@ + decimal(id as nat) + what@]),
            Err(error) => failed(error@),
        },
{
    match result {
        Ok(_) => Outcome { output: report(id, what), persist: true, exit: false },
        Err(error) => failure(&error),
    }
}

/// Adds a task with the description `task_name` and reports it, followed by
/// the listing of all tasks. Where no identifier is left, nothing is added.
pub fn add_new_task(registry: &mut Registry, task_name: &str) -> (outcome: Outcome)
    requires
        old(registry).wf(),
    ensures
        final(registry).wf(),
        (final(registry)@, outcome@) == executed(CommandView::Add(task_name@), old(registry)@),
{
    match registry.try_add(task_name) {
        Ok(_) => {
            let mut line = "Task added: ".to_owned();
            line.append(task_name);
            let mut output: Vec<String> = Vec::new();
            output.push(line);
            let mut list = display_todo(registry.list());
            let ghost head = output@;
            let ghost tail = list@;
            output.append(&mut list);
            assert(texts(output@) =~= seq!["Task added: "@ + task_name@] + listing(
                registry@.tasks,
            )) by {
                assert(output@ =~= head + tail);
                assert(texts(head + tail) =~= texts(head) + texts(tail));
                assert(texts(head) =~= seq!["Task added: "@ + task_name@]);
            }
            Outcome { output, persist: true, exit: false }
        },
        Err(error) => failure(&error),
    }
}

/// Removes the task with the identifier `id` and reports it. Where no task
/// has the identifier, nothing is removed.
pub fn remove_task(registry: &mut Registry, id: u64) -> (outcome: Outcome)
    requires
        old(registry).wf(),
    ensures
        final(registry).wf(),
        (final(registry)@, outcome@) == executed(CommandView::Delete(id as nat), old(registry)@),
{
    let result = registry.remove(id);
    reported(result, id, " deleted")
}

/// Carries out `command` on the registry.
pub fn execute(command: Command, registry: &mut Registry) -> (outcome: Outcome)
    requires
        old(registry).wf(),
    ensures
        final(registry).wf(),
        (final(registry)@, outcome@) == executed(command@, old(registry)@),
{
    match command {
        Command::Add(description) => add_new_task(registry, description.as_str()),
        Command::Show => Outcome {
            output: display_todo(registry.list()),
            persist: false,
            exit: false,
        },
        Command::Delete(id) => remove_task(registry, id),
        Command::Update(id, description) => {
            let result = registry.update_description(id, description.as_str());
            reported(result, id, " updated")
        },
        Command::Done(id) => {
            let result = registry.mark_completed(id);
            reported(result, id, " marked done")
        },
        Command::Exit => {
            let output: Vec<String> = Vec::new();
            assert(texts(output@) =~= Seq::<Seq<char>>::empty());
            Outcome { output, persist: false, exit: true }
        },
        Command::Help => Outcome { output: display_help(), persist: false, exit: false },
    }
}

/// Carries out the command that `args` name: the first argument is the
/// command word, the others are what the command needs. The outcome holds
/// the lines to show, and says whether the tasks have to be stored (only
/// after a command that changes the registry has succeeded) and whether the
/// program is to end. A command that fails leaves the registry as it is.
pub fn run(args: Vec<String>, registry: &mut Registry) -> (outcome: Outcome)
    requires
        old(registry).wf(),
    ensures
        final(registry).wf(),
        (final(registry)@, outcome@) == dispatched(texts(args@), old(registry)@),
{
    match Command::parse(&args) {
        Ok(command) => execute(command, registry),
        Err(error) => failure(&error),
    }
}

/// Carries out the command that the line `line` holds. A blank line changes
/// nothing and shows nothing.
pub fn run_line(line: &str, registry: &mut Registry) -> (outcome: Outcome)
    requires
        old(registry).wf(),
    ensures
        final(registry).wf(),
        (final(registry)@, outcome@) == interpreted(line@, old(registry)@),
{
    let args = tokenize(line);
    if args.len() == 0 {
        let output: Vec<String> = Vec::new();
        assert(texts(output@) =~= Seq::<Seq<char>>::empty());
        return Outcome { output, persist: false, exit: false };
    }
    run(args, registry)
}

} // verus!
