//! What the user is shown: the listing of the tasks and the help text.

use vstd::prelude::*;
use crate::registry::task_views;
use crate::task::Task;
use crate::task::TaskView;
use crate::text::append_decimal;
use crate::text::decimal;
use crate::text::texts;

verus! {

/// How a truth value is shown.
pub open spec fn bool_text(b: bool) -> Seq<char> {
    if b {
        "true"@
    } else {
        "false"@
    }
}

/// The line that shows one task: its identifier, its description and whether
/// it is completed.
pub open spec fn task_line(task: TaskView) -> Seq<char> {
    "id: "@ + decimal(task.id) + ", name: "@ + task.description + ", completed: "@ + bool_text(
        task.completed,
    )
}

/// The line that stands for a list without tasks.
pub open spec fn empty_notice() -> Seq<char> {
    "Empty Todo list"@
}

/// The lines that show `tasks`, one for each task, in their order.
pub open spec fn task_lines(tasks: Seq<TaskView>) -> Seq<Seq<char>> {
    tasks.map_values(|t: TaskView| task_line(t))
}

/// The listing of `tasks`: one line for each task, in their order, or the
/// notice that there are none.
pub open spec fn listing(tasks: Seq<TaskView>) -> Seq<Seq<char>> {
    if tasks.len() == 0 {
        seq![empty_notice()]
    } else {
        task_lines(tasks)
    }
}

/// The help text, line by line.
pub open spec fn help_lines() -> Seq<Seq<char>> {
    seq![
        ""@,
        "Todo List Application"@,
        ""@,
        "Commands:"@,
        "  add <task_name>      - Add a new task (multi-word names allowed)"@,
        "  show                 - Show all tasks"@,
        "  delete <task_id>     - Delete a task by ID"@,
        "  update <id> <name>   - Update task name"@,
        "  done <task_id>       - Mark task as completed"@,
        "  exit                 - Exit application"@,
        "  help                 - Show this help"@,
        ""@,
    ]
}

/// The line of a task is never the notice of the empty list: the two start
/// with different characters. So a listing of no tasks cannot be taken for
/// a listing of one.
pub proof fn lemma_task_line_is_not_the_empty_notice(task: TaskView)
    ensures
        task_line(task) != empty_notice(),
{
    reveal_strlit("id: ");
    reveal_strlit("Empty Todo list");
    assert(task_line(task)[0] == 'i');
    assert(empty_notice()[0] == 'E');
}

/// No line of the listing of a list with tasks is the notice of the empty
/// list, and the listing of the empty list is that notice alone.
pub proof fn lemma_empty_listing_is_distinct(tasks: Seq<TaskView>)
    ensures
        tasks.len() == 0 ==> listing(tasks) == seq![empty_notice()],
        tasks.len() > 0 ==> listing(tasks).len() == tasks.len() && forall|i: int|
            0 <= i < tasks.len() ==> #[trigger] listing(tasks)[i] != empty_notice(),
{
    if tasks.len() > 0 {
        assert forall|i: int| 0 <= i < tasks.len() implies #[trigger] listing(tasks)[i]
            != empty_notice() by {
            lemma_task_line_is_not_the_empty_notice(tasks[i]);
        }
    }
}

/// The line that shows `task`.
pub fn render_task(task: &Task) -> (line: String)
    ensures
        line@ == task_line(task@),
{
    let mut line = "id: ".to_owned();
    append_decimal(&mut line, task.id);
    line.append(", name: ");
    line.append(task.task.as_str());
    line.append(", completed: ");
    if task.is_completed {
        line.append("true");
    } else {
        line.append("false");
    }
    assert(line@ =~= task_line(task@));
    line
}

/// The listing of `todo_list`: one line for each task, in their order, or
/// the notice that there are none.
pub fn display_todo(todo_list: &Vec<Task>) -> (lines: Vec<String>)
    ensures
        texts(lines@) == listing(task_views(todo_list@)),
{
    let mut lines: Vec<String> = Vec::new();
    if todo_list.len() == 0 {
        lines.push("Empty Todo list".to_owned());
        assert(texts(lines@) =~= listing(task_views(todo_list@)));
        return lines;
    }
    let ghost tasks = task_views(todo_list@);
    let mut i: usize = 0;
    while i < todo_list.len()
        invariant
            i <= todo_list.len(),
            tasks == task_views(todo_list@),
            texts(lines@) == task_lines(tasks.take(i as int)),
        decreases todo_list.len() - i,
    {
        let ghost before = lines@;
        let line = render_task(&todo_list[i]);
        lines.push(line);
        assert(tasks[i as int] == todo_list@[i as int]@);
        assert(texts(lines@) =~= texts(before).push(line@));
        assert(task_lines(tasks.take(i + 1)) =~= task_lines(tasks.take(i as int)).push(
            task_line(tasks[i as int]),
        ));
        i += 1;
    }
    assert(tasks.take(todo_list.len() as int) =~= tasks);
    lines
}

/// The help text, line by line.
pub fn display_help() -> (lines: Vec<String>)
    ensures
        texts(lines@) == help_lines(),
{
    let mut lines: Vec<String> = Vec::new();
    lines.push("".to_owned());
    lines.push("Todo List Application".to_owned());
    lines.push("".to_owned());
    lines.push("Commands:".to_owned());
    lines.push("  add <task_name>      - Add a new task (multi-word names allowed)".to_owned());
    lines.push("  show                 - Show all tasks".to_owned());
    lines.push("  delete <task_id>     - Delete a task by ID".to_owned());
    lines.push("  update <id> <name>   - Update task name".to_owned());
    lines.push("  done <task_id>       - Mark task as completed".to_owned());
    lines.push("  exit                 - Exit application".to_owned());
    lines.push("  help                 - Show this help".to_owned());
    lines.push("".to_owned());
    assert(texts(lines@) =~= help_lines());
    lines
}

} // verus!
