use todo::add_new_task;
use todo::display_help;
use todo::display_todo;
use todo::remove_task;
use todo::run;
use todo::run_line;
use todo::Command;
use todo::Missing;
use todo::Outcome;
use todo::Registry;
use todo::Task;
use todo::TodoError;

fn strings(items: &[&str]) -> Vec<String> {
    items.iter().map(|s| s.to_string()).collect()
}

fn shown(lines: &[&str]) -> Outcome {
    Outcome { output: strings(lines), persist: false, exit: false }
}

fn changed(lines: &[&str]) -> Outcome {
    Outcome { output: strings(lines), persist: true, exit: false }
}

fn task(id: u64, name: &str, done: bool) -> Task {
    Task { task: name.to_string(), is_completed: done, id }
}

#[test]
fn parse_names_each_command() {
    assert_eq!(Command::parse(&strings(&["add", "buy milk"])), Ok(Command::Add("buy milk".to_string())));
    assert_eq!(Command::parse(&strings(&["add", ""])), Ok(Command::Add(String::new())));
    assert_eq!(Command::parse(&strings(&["show"])), Ok(Command::Show));
    assert_eq!(Command::parse(&strings(&["show", "ignored"])), Ok(Command::Show));
    assert_eq!(Command::parse(&strings(&["delete", "4"])), Ok(Command::Delete(4)));
    assert_eq!(
        Command::parse(&strings(&["update", "4", "new text"])),
        Ok(Command::Update(4, "new text".to_string()))
    );
    assert_eq!(Command::parse(&strings(&["done", "+4"])), Ok(Command::Done(4)));
    assert_eq!(Command::parse(&strings(&["exit"])), Ok(Command::Exit));
    assert_eq!(Command::parse(&strings(&["help"])), Ok(Command::Help));
    assert_eq!(Command::parse(&strings(&["frobnicate", "1"])), Ok(Command::Help));
    assert_eq!(Command::parse(&strings(&["ADD", "x"])), Ok(Command::Help));
}

#[test]
fn parse_reports_what_is_missing() {
    assert_eq!(Command::parse(&strings(&[])), Err(TodoError::MissingArgument(Missing::Command)));
    assert_eq!(Command::parse(&strings(&["add"])), Err(TodoError::MissingArgument(Missing::TaskName)));
    assert_eq!(Command::parse(&strings(&["delete"])), Err(TodoError::MissingArgument(Missing::TaskId)));
    assert_eq!(Command::parse(&strings(&["done"])), Err(TodoError::MissingArgument(Missing::TaskId)));
    assert_eq!(
        Command::parse(&strings(&["update"])),
        Err(TodoError::MissingArgument(Missing::UpdateArguments))
    );
    assert_eq!(
        Command::parse(&strings(&["update", "1"])),
        Err(TodoError::MissingArgument(Missing::UpdateArguments))
    );
}

#[test]
fn parse_reports_a_token_that_is_no_id() {
    for token in ["abc", "-1", "1.5", "", "18446744073709551616"] {
        let expected = Err(TodoError::InvalidId(token.to_string()));
        assert_eq!(Command::parse(&strings(&["delete", token])), expected);
        assert_eq!(Command::parse(&strings(&["done", token])), expected);
        assert_eq!(Command::parse(&strings(&["update", token, "text"])), expected);
    }
}

#[test]
fn each_error_has_its_message() {
    assert_eq!(TodoError::MissingArgument(Missing::Command).message(), "No command provided.");
    assert_eq!(TodoError::MissingArgument(Missing::TaskName).message(), "Please provide a task name");
    assert_eq!(TodoError::MissingArgument(Missing::TaskId).message(), "Please provide a task id");
    assert_eq!(
        TodoError::MissingArgument(Missing::UpdateArguments).message(),
        "Usage: update <id> <new_task_name>"
    );
    assert_eq!(TodoError::InvalidId("x1".to_string()).message(), "Invalid Id: x1");
    assert_eq!(TodoError::NotFound(999).message(), "Task Id not found: 999");
    assert_eq!(TodoError::IdsExhausted.message(), "No task ids left");
    assert_eq!(TodoError::PersistenceFailure.message(), "Warning: the tasks could not be saved");
}

#[test]
fn display_todo_shows_one_line_per_task() {
    assert_eq!(display_todo(&vec![]), strings(&["Empty Todo list"]));
    assert_eq!(
        display_todo(&vec![task(1, "buy milk", false), task(12, "", true)]),
        strings(&["id: 1, name: buy milk, completed: false", "id: 12, name: , completed: true"])
    );
}

#[test]
fn empty_listing_differs_from_every_task_line() {
    let tricky = display_todo(&vec![task(0, "Empty Todo list", false)]);
    assert_eq!(tricky.len(), 1);
    assert_ne!(tricky, display_todo(&vec![]));
    assert_ne!(tricky[0], "Empty Todo list");
}

#[test]
fn display_help_is_the_help_text() {
    assert_eq!(
        display_help(),
        strings(&[
            "",
            "Todo List Application",
            "",
            "Commands:",
            "  add <task_name>      - Add a new task (multi-word names allowed)",
            "  show                 - Show all tasks",
            "  delete <task_id>     - Delete a task by ID",
            "  update <id> <name>   - Update task name",
            "  done <task_id>       - Mark task as completed",
            "  exit                 - Exit application",
            "  help                 - Show this help",
            "",
        ])
    );
}

#[test]
fn add_new_task_reports_and_lists() {
    let mut registry = Registry::new();
    assert_eq!(
        add_new_task(&mut registry, "buy milk"),
        changed(&["Task added: buy milk", "id: 1, name: buy milk, completed: false"])
    );
    assert_eq!(
        add_new_task(&mut registry, "walk"),
        changed(&[
            "Task added: walk",
            "id: 1, name: buy milk, completed: false",
            "id: 2, name: walk, completed: false",
        ])
    );
}

#[test]
fn add_without_a_spare_id_changes_nothing() {
    let mut registry = Registry::from_tasks(vec![task(u64::MAX, "last", false)]).unwrap();
    assert_eq!(add_new_task(&mut registry, "more"), shown(&["No task ids left"]));
    assert_eq!(run(strings(&["add", "more"]), &mut registry), shown(&["No task ids left"]));
    assert_eq!(registry.list(), &vec![task(u64::MAX, "last", false)]);
}

#[test]
fn remove_task_reports_or_fails() {
    let mut registry = Registry::new();
    registry.add("a");
    assert_eq!(remove_task(&mut registry, 2), shown(&["Task Id not found: 2"]));
    assert_eq!(remove_task(&mut registry, 1), changed(&["Task 1 deleted"]));
    assert!(registry.list().is_empty());
}

#[test]
fn run_without_arguments_says_so() {
    let mut registry = Registry::new();
    assert_eq!(run(strings(&[]), &mut registry), shown(&["No command provided."]));
}

#[test]
fn run_of_exit_asks_to_end() {
    let mut registry = Registry::new();
    registry.add("a");
    assert_eq!(
        run(strings(&["exit"]), &mut registry),
        Outcome { output: vec![], persist: false, exit: true }
    );
    assert_eq!(registry.list(), &vec![task(1, "a", false)]);
}

#[test]
fn run_of_help_or_anything_unknown_shows_help() {
    let mut registry = Registry::new();
    let help = Outcome { output: display_help(), persist: false, exit: false };
    assert_eq!(run(strings(&["help"]), &mut registry), help);
    assert_eq!(run(strings(&["what", "ever"]), &mut registry), help);
    assert_eq!(run(strings(&[""]), &mut registry), help);
}

#[test]
fn run_of_update_changes_the_description() {
    let mut registry = Registry::new();
    registry.add("a");
    assert_eq!(run(strings(&["update", "1", "b c"]), &mut registry), changed(&["Task 1 updated"]));
    assert_eq!(registry.list(), &vec![task(1, "b c", false)]);
    assert_eq!(
        run(strings(&["update", "2", "x"]), &mut registry),
        shown(&["Task Id not found: 2"])
    );
    assert_eq!(run(strings(&["update", "z", "x"]), &mut registry), shown(&["Invalid Id: z"]));
    assert_eq!(
        run(strings(&["update", "1"]), &mut registry),
        shown(&["Usage: update <id> <new_task_name>"])
    );
    assert_eq!(registry.list(), &vec![task(1, "b c", false)]);
}

#[test]
fn run_of_done_twice_succeeds_twice() {
    let mut registry = Registry::new();
    registry.add("a");
    assert_eq!(run(strings(&["done", "1"]), &mut registry), changed(&["Task 1 marked done"]));
    assert_eq!(run(strings(&["done", "1"]), &mut registry), changed(&["Task 1 marked done"]));
    assert_eq!(registry.list(), &vec![task(1, "a", true)]);
    assert_eq!(run(strings(&["done"]), &mut registry), shown(&["Please provide a task id"]));
    assert_eq!(run(strings(&["done", "-1"]), &mut registry), shown(&["Invalid Id: -1"]));
}

#[test]
fn failed_delete_leaves_the_listing_and_stores_nothing() {
    let mut registry = Registry::new();
    registry.add("a");
    registry.add("b");
    let before = run(strings(&["show"]), &mut registry);
    let outcome = run(strings(&["delete", "999"]), &mut registry);
    assert_eq!(outcome, shown(&["Task Id not found: 999"]));
    assert!(!outcome.persist);
    assert_eq!(run(strings(&["show"]), &mut registry), before);
    assert_eq!(run(strings(&["delete", "x"]), &mut registry), shown(&["Invalid Id: x"]));
    assert_eq!(run(strings(&["delete"]), &mut registry), shown(&["Please provide a task id"]));
    assert_eq!(run(strings(&["add"]), &mut registry), shown(&["Please provide a task name"]));
    assert_eq!(run(strings(&["show"]), &mut registry), before);
}

#[test]
fn scenario_add_done_delete_reload() {
    let mut registry = Registry::restore(None);
    assert_eq!(
        run(strings(&["add", "buy milk"]), &mut registry),
        changed(&["Task added: buy milk", "id: 1, name: buy milk, completed: false"])
    );
    assert_eq!(registry.list(), &vec![task(1, "buy milk", false)]);
    assert_eq!(
        run(strings(&["show"]), &mut registry),
        shown(&["id: 1, name: buy milk, completed: false"])
    );
    assert_eq!(run(strings(&["done", "1"]), &mut registry), changed(&["Task 1 marked done"]));
    assert_eq!(
        run(strings(&["show"]), &mut registry),
        shown(&["id: 1, name: buy milk, completed: true"])
    );
    assert_eq!(run(strings(&["delete", "1"]), &mut registry), changed(&["Task 1 deleted"]));
    assert_eq!(run(strings(&["show"]), &mut registry), shown(&["Empty Todo list"]));
    let stored: Vec<Task> = registry.list().clone();
    let reloaded = Registry::restore(Some(stored));
    assert!(reloaded.list().is_empty());
}

#[test]
fn run_line_reads_whole_lines() {
    let mut registry = Registry::new();
    assert_eq!(run_line("", &mut registry), shown(&[]));
    assert_eq!(run_line("   \t", &mut registry), shown(&[]));
    assert_eq!(
        run_line("  add   buy   milk ", &mut registry),
        changed(&["Task added: buy milk", "id: 1, name: buy milk, completed: false"])
    );
    assert_eq!(run_line("add", &mut registry), shown(&["Please provide a task name"]));
    assert_eq!(run_line("update 1 buy oat milk", &mut registry), changed(&["Task 1 updated"]));
    assert_eq!(run_line("update 1", &mut registry), shown(&["Usage: update <id> <new_task_name>"]));
    assert_eq!(run_line("done 1", &mut registry), changed(&["Task 1 marked done"]));
    assert_eq!(
        run_line("show", &mut registry),
        shown(&["id: 1, name: buy oat milk, completed: true"])
    );
    assert_eq!(run_line("delete 1 2", &mut registry), shown(&["Invalid Id: 1 2"]));
    assert_eq!(run_line("delete 1", &mut registry), changed(&["Task 1 deleted"]));
    assert_eq!(
        run_line("exit", &mut registry),
        Outcome { output: vec![], persist: false, exit: true }
    );
}
