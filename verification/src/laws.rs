//! What holds of the registry and the dispatcher whatever is done with them.

use vstd::prelude::*;
use crate::command::parsed;
use crate::command::CommandView;
use crate::dispatch::dispatched;
use crate::dispatch::executed;
use crate::dispatch::failed;
use crate::error::TodoErrorView;
use crate::registry::distinct_ids;
use crate::registry::lemma_next_id_after_bounds;
use crate::registry::lemma_without_id_removes_one;
use crate::registry::lemma_without_absent_id;
use crate::registry::next_id_after;
use crate::registry::RegistryView;
use crate::render::listing;
use crate::task::TaskView;
use crate::words::arguments;
use crate::words::is_word;
use crate::words::join;
use crate::words::lemma_words_are_words;
use crate::words::words;

verus! {

/// One operation on the registry.
pub enum Step {
    /// Add a task with the given description.
    Add(Seq<char>),
    /// Remove the task with the given identifier.
    Remove(nat),
    /// Give the task with the given identifier the given description.
    UpdateDescription(nat, Seq<char>),
    /// Mark the task with the given identifier as completed.
    MarkCompleted(nat),
}

/// The registry after one operation. An operation on an identifier that no
/// task has leaves the registry as it is.
pub open spec fn step(registry: RegistryView, operation: Step) -> RegistryView {
    match operation {
        Step::Add(description) => registry.add(description),
        Step::Remove(id) => registry.remove(id),
        Step::UpdateDescription(id, description) => registry.update_description(id, description),
        Step::MarkCompleted(id) => registry.mark_completed(id),
    }
}

/// The registry after the operations `steps`, one after the other.
pub open spec fn after(registry: RegistryView, steps: Seq<Step>) -> RegistryView
    decreases steps.len(),
{
    if steps.len() == 0 {
        registry
    } else {
        step(after(registry, steps.drop_last()), steps.last())
    }
}

/// Removing an identifier leaves no task with it, and keeps the identifiers
/// of the other tasks distinct and below the counter.
pub proof fn lemma_remove_keeps_wf(registry: RegistryView, id: nat)
    requires
        registry.wf(),
    ensures
        registry.remove(id).wf(),
        !registry.remove(id).contains_id(id),
        !registry.contains_id(id) ==> registry.remove(id) == registry,
{
    if registry.contains_id(id) {
        let i = choose|i: int| 0 <= i < registry.tasks.len() && registry.tasks[i].id == id;
        lemma_without_id_removes_one(registry.tasks, id, i);
        let rest = registry.tasks.remove(i);
        assert forall|a: int| 0 <= a < rest.len() implies (#[trigger] rest[a]).id
            < registry.next_id && rest[a].id != id by {
            if a < i {
                assert(rest[a] == registry.tasks[a]);
                assert(registry.tasks[a].id != registry.tasks[i].id);
            } else {
                assert(rest[a] == registry.tasks[a + 1]);
                assert(registry.tasks[i].id != registry.tasks[a + 1].id);
            }
        }
        assert forall|a: int, b: int| 0 <= a < b < rest.len() implies rest[a].id
            != rest[b].id by {
            let a0 = if a < i { a } else { a + 1 };
            let b0 = if b < i { b } else { b + 1 };
            assert(rest[a] == registry.tasks[a0]);
            assert(rest[b] == registry.tasks[b0]);
            assert(registry.tasks[a0].id != registry.tasks[b0].id);
        }
    } else {
        lemma_without_absent_id(registry.tasks, id);
    }
}

/// Every operation keeps the invariant of the registry, and none lets the
/// counter fall.
pub proof fn lemma_step_keeps_wf(registry: RegistryView, operation: Step)
    requires
        registry.wf(),
    ensures
        step(registry, operation).wf(),
        step(registry, operation).next_id >= registry.next_id,
        operation is Add ==> step(registry, operation).next_id == registry.next_id + 1,
{
    match operation {
        Step::Add(description) => {
            let next = registry.add(description);
            assert forall|i: int| 0 <= i < next.tasks.len() implies (#[trigger] next.tasks[i]).id
                < next.next_id by {
                if i < registry.tasks.len() {
                    assert(next.tasks[i] == registry.tasks[i]);
                }
            }
            assert forall|a: int, b: int| 0 <= a < b < next.tasks.len() implies next.tasks[a].id
                != next.tasks[b].id by {
                assert(next.tasks[a] == registry.tasks[a]);
                assert(registry.tasks[a].id < registry.next_id);
                if b < registry.tasks.len() {
                    assert(next.tasks[b] == registry.tasks[b]);
                }
            }
        },
        Step::Remove(id) => {
            lemma_remove_keeps_wf(registry, id);
        },
        Step::UpdateDescription(id, description) => {
            let next = registry.update_description(id, description);
            assert forall|i: int| 0 <= i < next.tasks.len() implies (#[trigger] next.tasks[i]).id
                == registry.tasks[i].id by {}
            assert forall|i: int| 0 <= i < next.tasks.len() implies (#[trigger] next.tasks[i]).id
                < next.next_id by {
                assert(registry.tasks[i].id < registry.next_id);
            }
        },
        Step::MarkCompleted(id) => {
            let next = registry.mark_completed(id);
            assert forall|i: int| 0 <= i < next.tasks.len() implies (#[trigger] next.tasks[i]).id
                == registry.tasks[i].id by {}
            assert forall|i: int| 0 <= i < next.tasks.len() implies (#[trigger] next.tasks[i]).id
                < next.next_id by {
                assert(registry.tasks[i].id < registry.next_id);
            }
        },
    }
}

/// Any sequence of operations keeps the invariant of the registry, and the
/// counter never falls.
pub proof fn lemma_steps_keep_wf(registry: RegistryView, steps: Seq<Step>)
    requires
        registry.wf(),
    ensures
        after(registry, steps).wf(),
        after(registry, steps).next_id >= registry.next_id,
    decreases steps.len(),
{
    if steps.len() > 0 {
        lemma_steps_keep_wf(registry, steps.drop_last());
        lemma_step_keeps_wf(after(registry, steps.drop_last()), steps.last());
    }
}

/// The counter after the first `j` operations is at least what it was after
/// the first `i` of them, and above it where an addition lies between.
pub proof fn lemma_counter_grows(registry: RegistryView, steps: Seq<Step>, i: int, j: int)
    requires
        registry.wf(),
        0 <= i <= j <= steps.len(),
    ensures
        after(registry, steps.take(i)).next_id <= after(registry, steps.take(j)).next_id,
        i < j && steps[i] is Add ==> after(registry, steps.take(i)).next_id < after(
            registry,
            steps.take(j),
        ).next_id,
    decreases j - i,
{
    if i < j {
        let upto = steps.take(j);
        assert(upto.drop_last() =~= steps.take(j - 1));
        assert(upto.last() == steps[j - 1]);
        lemma_steps_keep_wf(registry, steps.take(j - 1));
        lemma_step_keeps_wf(after(registry, steps.take(j - 1)), steps[j - 1]);
        lemma_counter_grows(registry, steps, i, j - 1);
    }
}

/// Identifiers are handed out in strictly increasing order, whatever happens
/// between two additions: of two additions in a sequence of operations, the
/// later one gets the larger identifier. So no identifier is handed out
/// twice. (The identifier that an addition gets is the counter's value
/// before it.)
pub proof fn lemma_added_ids_increase(registry: RegistryView, steps: Seq<Step>, i: int, j: int)
    requires
        registry.wf(),
        0 <= i < j < steps.len(),
        steps[i] is Add,
        steps[j] is Add,
    ensures
        after(registry, steps.take(i)).next_id < after(registry, steps.take(j)).next_id,
{
    lemma_counter_grows(registry, steps, i, j);
}

/// A new task gets an identifier that is above the identifier of every task
/// in the registry, and the registry holds it afterwards.
pub proof fn lemma_added_id_is_new(registry: RegistryView, description: Seq<char>)
    requires
        registry.wf(),
    ensures
        !registry.contains_id(registry.next_id),
        registry.add(description).contains_id(registry.next_id),
        forall|i: int|
            0 <= i < registry.tasks.len() ==> (#[trigger] registry.tasks[i]).id
                < registry.next_id,
{
    let next = registry.add(description);
    assert(next.tasks[registry.tasks.len() as int].id == registry.next_id);
}

/// The identifier of a removed task is never handed out again: after the
/// removal, whatever operations follow, no addition gets that identifier.
pub proof fn lemma_removed_id_is_not_reused(
    registry: RegistryView,
    id: nat,
    steps: Seq<Step>,
    k: int,
)
    requires
        registry.wf(),
        registry.contains_id(id),
        0 <= k < steps.len(),
        steps[k] is Add,
    ensures
        after(registry.remove(id), steps.take(k)).next_id > id,
{
    let i = choose|i: int| 0 <= i < registry.tasks.len() && registry.tasks[i].id == id;
    assert(registry.tasks[i].id < registry.next_id);
    lemma_remove_keeps_wf(registry, id);
    lemma_steps_keep_wf(registry.remove(id), steps.take(k));
}

/// Deleting a task and adding one right after gives the new task another
/// identifier than the deleted one had.
pub proof fn lemma_delete_then_add(registry: RegistryView, id: nat, description: Seq<char>)
    requires
        registry.wf(),
        registry.contains_id(id),
    ensures
        registry.remove(id).next_id != id,
        registry.remove(id).add(description).tasks.last().id != id,
        !registry.remove(id).add(description).contains_id(id),
{
    let i = choose|i: int| 0 <= i < registry.tasks.len() && registry.tasks[i].id == id;
    assert(registry.tasks[i].id < registry.next_id);
    lemma_remove_keeps_wf(registry, id);
    let removed = registry.remove(id);
    let next = removed.add(description);
    assert forall|a: int| 0 <= a < next.tasks.len() implies (#[trigger] next.tasks[a]).id
        != id by {
        if a < removed.tasks.len() {
            assert(next.tasks[a] == removed.tasks[a]);
        }
    }
}

/// Completing a task twice is the same as completing it once: the task is
/// still there for the second time, it is completed after the first, and
/// the second changes nothing.
pub proof fn lemma_mark_completed_is_idempotent(registry: RegistryView, id: nat)
    requires
        registry.wf(),
        registry.contains_id(id),
    ensures
        registry.mark_completed(id).contains_id(id),
        forall|i: int|
            0 <= i < registry.tasks.len() && registry.tasks[i].id == id
                ==> (#[trigger] registry.mark_completed(id).tasks[i]).completed,
        registry.mark_completed(id).mark_completed(id) == registry.mark_completed(id),
{
    let once = registry.mark_completed(id);
    let i = choose|i: int| 0 <= i < registry.tasks.len() && registry.tasks[i].id == id;
    assert(once.tasks[i].id == id);
    assert(once.mark_completed(id).tasks =~= once.tasks);
}

/// Through the dispatcher too, `done` on the same identifier succeeds the
/// second time as the first, with the same report, and leaves the registry
/// as the first left it.
pub proof fn lemma_done_twice(registry: RegistryView, id: nat)
    requires
        registry.wf(),
        registry.contains_id(id),
    ensures
        ({
            let first = executed(CommandView::Done(id), registry);
            let second = executed(CommandView::Done(id), first.0);
            &&& first.1.persist
            &&& second.1 == first.1
            &&& second.0 == first.0
        }),
{
    lemma_mark_completed_is_idempotent(registry, id);
}

/// A command that does not ask for the tasks to be stored has not changed
/// the registry, and what `show` lists is what it listed before. This holds
/// of every failure: a missing argument, a token that is no identifier, an
/// identifier that no task has.
pub proof fn lemma_no_change_without_persist(args: Seq<Seq<char>>, registry: RegistryView)
    ensures
        !dispatched(args, registry).1.persist ==> dispatched(args, registry).0 == registry
            && listing(dispatched(args, registry).0.tasks) == listing(registry.tasks),
        parsed(args) is Err ==> !dispatched(args, registry).1.persist,
{
}

/// A command on an identifier that no task has fails: the registry stays
/// as it is, the message names the identifier, and nothing is to be stored.
pub proof fn lemma_unknown_id_changes_nothing(registry: RegistryView, id: nat)
    requires
        !registry.contains_id(id),
    ensures
        executed(CommandView::Delete(id), registry) == (
            registry,
            failed(TodoErrorView::NotFound(id)),
        ),
        executed(CommandView::Done(id), registry) == (
            registry,
            failed(TodoErrorView::NotFound(id)),
        ),
        forall|description: Seq<char>|
            #[trigger] executed(CommandView::Update(id, description), registry) == (
                registry,
                failed(TodoErrorView::NotFound(id)),
            ),
        !failed(TodoErrorView::NotFound(id)).persist,
{
}

/// The tasks of a registry can be stored and read back: they have distinct
/// identifiers, so the registry made of them holds the same tasks in the
/// same order, and its counter is above each of their identifiers and not
/// above the counter of the registry they came from.
pub proof fn lemma_tasks_restore(registry: RegistryView)
    requires
        registry.wf(),
    ensures
        distinct_ids(registry.tasks),
        RegistryView::of_tasks(registry.tasks).wf(),
        RegistryView::of_tasks(registry.tasks).tasks == registry.tasks,
        RegistryView::of_tasks(registry.tasks).next_id <= registry.next_id,
{
    lemma_next_id_after_bounds(registry.tasks);
    lemma_next_id_after_is_least(registry.tasks, registry.next_id);
}

/// The counter that a list of tasks leads to is the least that is at least 1
/// and above all their identifiers.
pub proof fn lemma_next_id_after_is_least(tasks: Seq<TaskView>, bound: nat)
    requires
        bound >= 1,
        forall|i: int| 0 <= i < tasks.len() ==> (#[trigger] tasks[i]).id < bound,
    ensures
        next_id_after(tasks) <= bound,
    decreases tasks.len(),
{
    if tasks.len() > 0 {
        let init = tasks.drop_last();
        assert forall|i: int| 0 <= i < init.len() implies (#[trigger] init[i]).id < bound by {
            assert(init[i] == tasks[i]);
        }
        lemma_next_id_after_is_least(init, bound);
        assert(tasks.last() == tasks[tasks.len() - 1]);
    }
}

/// Words joined into one text make a text that is not empty, where there is
/// at least one word.
pub proof fn lemma_join_is_not_empty(parts: Seq<Seq<char>>)
    requires
        parts.len() > 0,
        forall|i: int| 0 <= i < parts.len() ==> is_word(#[trigger] parts[i]),
    ensures
        join(parts).len() > 0,
    decreases parts.len(),
{
    if parts.len() == 1 {
        assert(is_word(parts[0]));
    } else {
        assert(is_word(parts[parts.len() - 1]));
    }
}

/// No argument that a line makes is empty. So a task that is added from a
/// line always has a description, and `add` without one is told apart as a
/// missing argument.
pub proof fn lemma_arguments_are_not_empty(line: Seq<char>)
    ensures
        forall|i: int|
            0 <= i < arguments(words(line)).len() ==> (#[trigger] arguments(
                words(line),
            )[i]).len() > 0,
{
    let parts = words(line);
    lemma_words_are_words(line);
    let args = arguments(parts);
    assert forall|i: int| 0 <= i < args.len() implies (#[trigger] args[i]).len() > 0 by {
        if args == parts {
            assert(is_word(parts[i]));
        } else {
            let fixed = args.len() - 1;
            if i < fixed {
                assert(args[i] == parts[i]);
                assert(is_word(parts[i]));
            } else {
                let rest = parts.skip(fixed);
                assert forall|k: int| 0 <= k < rest.len() implies is_word(#[trigger] rest[k]) by {
                    assert(rest[k] == parts[fixed + k]);
                    assert(is_word(parts[fixed + k]));
                }
                lemma_join_is_not_empty(rest);
            }
        }
    }
}

} // verus!
