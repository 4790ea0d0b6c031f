//! The task registry: the tasks in the order in which they were added, and
//! the counter that hands out their identifiers.

use vstd::prelude::*;
use crate::error::TodoError;
use crate::task::Task;
use crate::task::TaskView;

verus! {

/// The tasks of a list as mathematical values, in the same order.
pub open spec fn task_views(tasks: Seq<Task>) -> Seq<TaskView> {
    tasks.map_values(|t: Task| t@)
}

/// Whether no two tasks share an identifier.
pub open spec fn distinct_ids(tasks: Seq<TaskView>) -> bool {
    forall|i: int, j: int| 0 <= i < j < tasks.len() ==> tasks[i].id != tasks[j].id
}

/// Whether some task has the identifier `id`.
pub open spec fn has_id(tasks: Seq<TaskView>, id: nat) -> bool {
    exists|i: int| 0 <= i < tasks.len() && tasks[i].id == id
}

/// Whether `i` is the position of the first task with the identifier `id`.
pub open spec fn is_first_with_id(tasks: Seq<TaskView>, id: nat, i: int) -> bool {
    &&& 0 <= i < tasks.len()
    &&& tasks[i].id == id
    &&& forall|j: int| 0 <= j < i ==> tasks[j].id != id
}

/// The tasks without those that have the identifier `id`, in the same order.
pub open spec fn without_id(tasks: Seq<TaskView>, id: nat) -> Seq<TaskView> {
    tasks.filter(|t: TaskView| t.id != id)
}

/// The smallest identifier, at least 1, that is above every identifier in
/// `tasks`.
pub open spec fn next_id_after(tasks: Seq<TaskView>) -> nat
    decreases tasks.len(),
{
    if tasks.len() == 0 {
        1
    } else {
        let before = next_id_after(tasks.drop_last());
        if tasks.last().id < before {
            before
        } else {
            tasks.last().id + 1
        }
    }
}

/// A registry as a mathematical value: the tasks in display order, and the
/// identifier that the next new task will get.
pub struct RegistryView {
    pub tasks: Seq<TaskView>,
    pub next_id: nat,
}

impl RegistryView {
    /// The registry of a fresh start: no task, and 1 as the first identifier.
    pub open spec fn empty() -> RegistryView {
        RegistryView { tasks: Seq::empty(), next_id: 1 }
    }

    /// The registry that holds `tasks` and counts on from the largest of
    /// their identifiers.
    pub open spec fn of_tasks(tasks: Seq<TaskView>) -> RegistryView {
        RegistryView { tasks, next_id: next_id_after(tasks) }
    }

    /// The invariant of a registry: no identifier occurs twice, and the
    /// counter is above every identifier in use.
    pub open spec fn wf(self) -> bool {
        &&& self.next_id >= 1
        &&& distinct_ids(self.tasks)
        &&& forall|i: int| 0 <= i < self.tasks.len() ==> (#[trigger] self.tasks[i]).id < self.next_id
    }

    /// Whether some task has the identifier `id`.
    pub open spec fn contains_id(self, id: nat) -> bool {
        has_id(self.tasks, id)
    }

    /// The registry after a task with `description` was added: the new task
    /// stands last, is not completed and has the counter's value as its
    /// identifier; the counter has moved on by one.
    pub open spec fn add(self, description: Seq<char>) -> RegistryView {
        RegistryView {
            tasks: self.tasks.push(TaskView { id: self.next_id, description, completed: false }),
            next_id: self.next_id + 1,
        }
    }

    /// The registry after the task with the identifier `id` was removed. The
    /// other tasks keep their order, and the counter stays.
    pub open spec fn remove(self, id: nat) -> RegistryView {
        RegistryView { tasks: without_id(self.tasks, id), next_id: self.next_id }
    }

    /// The registry after the task with the identifier `id` got the new
    /// `description`.
    pub open spec fn update_description(self, id: nat, description: Seq<char>) -> RegistryView {
        RegistryView {
            tasks: self.tasks.map_values(
                |t: TaskView|
                    if t.id == id {
                        TaskView { description, ..t }
                    } else {
                        t
                    },
            ),
            next_id: self.next_id,
        }
    }

    /// The registry after the task with the identifier `id` was completed.
    pub open spec fn mark_completed(self, id: nat) -> RegistryView {
        RegistryView {
            tasks: self.tasks.map_values(
                |t: TaskView|
                    if t.id == id {
                        TaskView { completed: true, ..t }
                    } else {
                        t
                    },
            ),
            next_id: self.next_id,
        }
    }
}

/// Where no task has the identifier, removing by identifier changes nothing.
pub proof fn lemma_without_absent_id(tasks: Seq<TaskView>, id: nat)
    requires
        !has_id(tasks, id),
    ensures
        without_id(tasks, id) == tasks,
    decreases tasks.len(),
{
    reveal(Seq::filter);
    if tasks.len() > 0 {
        let init = tasks.drop_last();
        assert forall|i: int| 0 <= i < init.len() implies init[i].id != id by {
            assert(tasks[i].id != id);
        }
        lemma_without_absent_id(init, id);
        assert(tasks.last() == tasks[tasks.len() - 1]);
        assert(init.push(tasks.last()) =~= tasks);
    }
}

/// Where identifiers are distinct, removing by identifier removes the one
/// task that has it.
pub proof fn lemma_without_id_removes_one(tasks: Seq<TaskView>, id: nat, i: int)
    requires
        distinct_ids(tasks),
        0 <= i < tasks.len(),
        tasks[i].id == id,
    ensures
        without_id(tasks, id) == tasks.remove(i),
    decreases tasks.len(),
{
    reveal(Seq::filter);
    let init = tasks.drop_last();
    if i == tasks.len() - 1 {
        assert forall|j: int| 0 <= j < init.len() implies init[j].id != id by {
            assert(tasks[j].id != tasks[i].id);
        }
        lemma_without_absent_id(init, id);
        assert(tasks.remove(i) =~= init);
    } else {
        assert(tasks.last().id != id) by {
            assert(tasks[i].id != tasks[tasks.len() - 1].id);
        }
        assert(distinct_ids(init)) by {
            assert forall|a: int, b: int| 0 <= a < b < init.len() implies init[a].id
                != init[b].id by {
                assert(tasks[a].id != tasks[b].id);
            }
        }
        lemma_without_id_removes_one(init, id, i);
        assert(init.remove(i).push(tasks.last()) =~= tasks.remove(i));
    }
}

/// Every identifier in `tasks` is below `next_id_after(tasks)`, which is at
/// least 1.
pub proof fn lemma_next_id_after_bounds(tasks: Seq<TaskView>)
    ensures
        next_id_after(tasks) >= 1,
        forall|i: int| 0 <= i < tasks.len() ==> (#[trigger] tasks[i]).id < next_id_after(tasks),
    decreases tasks.len(),
{
    if tasks.len() > 0 {
        let init = tasks.drop_last();
        lemma_next_id_after_bounds(init);
        assert forall|i: int| 0 <= i < tasks.len() implies (#[trigger] tasks[i]).id
            < next_id_after(tasks) by {
            if i < init.len() {
                assert(init[i].id < next_id_after(init));
            }
        }
    }
}

/// The registry: the tasks in the order in which they were added, and the
/// counter that hands out their identifiers.
#[derive(Debug)]
pub struct Registry {
    tasks: Vec<Task>,
    last_id: u64,
}

impl View for Registry {
    type V = RegistryView;

    closed spec fn view(&self) -> RegistryView {
        RegistryView { tasks: task_views(self.tasks@), next_id: self.last_id as nat + 1 }
    }
}

/// The position of the first task of `todo_list` with the identifier `id`.
pub fn position(todo_list: &Vec<Task>, id: u64) -> (r: Option<usize>)
    ensures
        match r {
            Some(i) => is_first_with_id(task_views(todo_list@), id as nat, i as int),
            None => !has_id(task_views(todo_list@), id as nat),
        },
{
    let mut i: usize = 0;
    while i < todo_list.len()
        invariant
            i <= todo_list.len(),
            forall|j: int| 0 <= j < i ==> task_views(todo_list@)[j].id != id,
        decreases todo_list.len() - i,
    {
        if todo_list[i].id == id {
            return Some(i);
        }
        i += 1;
    }
    None
}

/// The first task of `todo_list` with the identifier `id`, to be changed in
/// place. What the caller does to that task is what happens to the list; the
/// other tasks stay as they are.
pub fn get_task(todo_list: &mut Vec<Task>, id: u64) -> (r: Option<&mut Task>)
    ensures
        match r {
            Some(task) => exists|i: int|
                {
                    &&& is_first_with_id(task_views(old(todo_list)@), id as nat, i)
                    &&& *task == old(todo_list)@[i]
                    &&& final(todo_list)@ == old(todo_list)@.update(i, *final(task))
                },
            None => {
                &&& !has_id(task_views(old(todo_list)@), id as nat)
                &&& final(todo_list)@ == old(todo_list)@
            },
        },
{
    match position(todo_list, id) {
        Some(i) => Some(&mut todo_list[i]),
        None => None,
    }
}

impl Registry {
    /// The invariant of the registry, stated of its view.
    pub open spec fn wf(&self) -> bool {
        self@.wf()
    }

    /// Whether the counter can still hand out an identifier.
    pub open spec fn has_spare_id(&self) -> bool {
        self@.next_id <= u64::MAX
    }

    /// A registry without tasks, whose first identifier will be 1.
    pub fn new() -> (registry: Registry)
        ensures
            registry.wf(),
            registry@ == RegistryView::empty(),
    {
        let registry = Registry { tasks: Vec::new(), last_id: 0 };
        assert(registry@.tasks =~= Seq::<TaskView>::empty());
        registry
    }

    /// The registry that holds `tasks`, in their order, and counts on from
    /// the largest of their identifiers. There is none if two of the tasks
    /// share an identifier.
    pub fn from_tasks(tasks: Vec<Task>) -> (r: Option<Registry>)
        ensures
            match r {
                Some(registry) => {
                    &&& distinct_ids(task_views(tasks@))
                    &&& registry.wf()
                    &&& registry@ == RegistryView::of_tasks(task_views(tasks@))
                },
                None => !distinct_ids(task_views(tasks@)),
            },
    {
        let ghost views = task_views(tasks@);
        let mut last_id: u64 = 0;
        let mut i: usize = 0;
        while i < tasks.len()
            invariant
                i <= tasks.len(),
                views == task_views(tasks@),
                distinct_ids(views.take(i as int)),
                last_id + 1 == next_id_after(views.take(i as int)),
            decreases tasks.len() - i,
        {
            let id: u64 = tasks[i].id;
            let mut j: usize = 0;
            while j < i
                invariant
                    j <= i < tasks.len(),
                    views == task_views(tasks@),
                    id == tasks@[i as int].id,
                    forall|k: int| 0 <= k < j ==> views[k].id != id,
                decreases i - j,
            {
                if tasks[j].id == id {
                    assert(views[j as int].id == views[i as int].id);
                    return None;
                }
                j += 1;
            }
            proof {
                let seen = views.take(i as int);
                let next = views.take(i + 1);
                assert(next.drop_last() =~= seen);
                assert(next.last() == views[i as int]);
                assert forall|a: int, b: int| 0 <= a < b < next.len() implies next[a].id
                    != next[b].id by {
                    if b < i {
                        assert(seen[a].id != seen[b].id);
                    }
                }
            }
            if id > last_id {
                last_id = id;
            }
            i += 1;
        }
        proof {
            assert(views.take(tasks.len() as int) =~= views);
            lemma_next_id_after_bounds(views);
        }
        Some(Registry { tasks, last_id })
    }

    /// The registry to start with, given what was read from storage: the
    /// stored tasks, or none where there was nothing to read, where it could
    /// not be read, or where two of the stored tasks share an identifier.
    pub fn restore(loaded: Option<Vec<Task>>) -> (registry: Registry)
        ensures
            registry.wf(),
            registry@ == match loaded {
                Some(tasks) if distinct_ids(task_views(tasks@)) => RegistryView::of_tasks(
                    task_views(tasks@),
                ),
                _ => RegistryView::empty(),
            },
    {
        match loaded {
            Some(tasks) => match Registry::from_tasks(tasks) {
                Some(registry) => registry,
                None => Registry::new(),
            },
            None => Registry::new(),
        }
    }

    /// Whether a task can still be added: whether an identifier is left.
    pub fn can_add(&self) -> (r: bool)
        ensures
            r == self.has_spare_id(),
    {
        self.last_id < u64::MAX
    }

    /// Adds a task with `description` and returns its identifier: the
    /// counter's value, which is above every identifier handed out before.
    pub fn add(&mut self, description: &str) -> (id: u64)
        requires
            old(self).wf(),
            old(self).has_spare_id(),
        ensures
            final(self).wf(),
            id == old(self)@.next_id,
            final(self)@ == old(self)@.add(description@),
    {
        let id: u64 = self.last_id + 1;
        self.last_id = id;
        self.tasks.push(Task { task: description.to_owned(), is_completed: false, id });
        assert(final(self)@.tasks =~= old(self)@.add(description@).tasks);
        id
    }

    /// Adds a task with `description` if an identifier is left, and returns
    /// its identifier. Where none is left, the registry stays as it is.
    pub fn try_add(&mut self, description: &str) -> (r: Result<u64, TodoError>)
        requires
            old(self).wf(),
        ensures
            final(self).wf(),
            old(self).has_spare_id() ==> r == Ok::<u64, TodoError>(old(self)@.next_id as u64)
                && final(self)@ == old(self)@.add(description@),
            !old(self).has_spare_id() ==> r == Err::<u64, TodoError>(TodoError::IdsExhausted)
                && final(self)@ == old(self)@,
    {
        if self.can_add() {
            Ok(self.add(description))
        } else {
            Err(TodoError::IdsExhausted)
        }
    }

    /// Removes the task with the identifier `id`. The other tasks keep their
    /// order, and the identifier is not handed out again. Where no task has
    /// the identifier, the registry stays as it is.
    pub fn remove(&mut self, id: u64) -> (r: Result<(), TodoError>)
        requires
            old(self).wf(),
        ensures
            final(self).wf(),
            old(self)@.contains_id(id as nat) ==> r == Ok::<(), TodoError>(()) && final(self)@
                == old(self)@.remove(id as nat),
            !old(self)@.contains_id(id as nat) ==> r == Err::<(), TodoError>(
                TodoError::NotFound(id),
            ) && final(self)@ == old(self)@,
    {
        match position(&self.tasks, id) {
            Some(i) => {
                self.tasks.remove(i);
                proof {
                    let before = old(self)@.tasks;
                    lemma_without_id_removes_one(before, id as nat, i as int);
                    assert(final(self)@.tasks =~= before.remove(i as int));
                }
                Ok(())
            },
            None => Err(TodoError::NotFound(id)),
        }
    }

    /// The task with the identifier `id`, to be changed in place. What the
    /// caller does to that task is what happens to the registry; the other
    /// tasks and the counter stay as they are.
    pub fn find_mutable(&mut self, id: u64) -> (r: Option<&mut Task>)
        requires
            old(self).wf(),
        ensures
            match r {
                Some(task) => exists|i: int|
                    {
                        &&& 0 <= i < old(self)@.tasks.len()
                        &&& old(self)@.tasks[i].id == id
                        &&& task@ == old(self)@.tasks[i]
                        &&& final(self)@.tasks == old(self)@.tasks.update(i, final(task)@)
                        &&& final(self)@.next_id == old(self)@.next_id
                    },
                None => {
                    &&& !old(self)@.contains_id(id as nat)
                    &&& final(self)@ == old(self)@
                },
            },
    {
        match position(&self.tasks, id) {
            Some(i) => Some(&mut self.tasks[i]),
            None => None,
        }
    }

    /// Gives the task with the identifier `id` the description
    /// `new_description`. Where no task has the identifier, the registry stays
    /// as it is.
    pub fn update_description(&mut self, id: u64, new_description: &str) -> (r: Result<
        (),
        TodoError,
    >)
        requires
            old(self).wf(),
        ensures
            final(self).wf(),
            old(self)@.contains_id(id as nat) ==> r == Ok::<(), TodoError>(()) && final(self)@
                == old(self)@.update_description(id as nat, new_description@),
            !old(self)@.contains_id(id as nat) ==> r == Err::<(), TodoError>(
                TodoError::NotFound(id),
            ) && final(self)@ == old(self)@,
    {
        match self.find_mutable(id) {
            Some(task) => {
                task.update_task(new_description);
                assert(final(self)@.tasks =~= old(self)@.update_description(
                    id as nat,
                    new_description@,
                ).tasks);
                Ok(())
            },
            None => Err(TodoError::NotFound(id)),
        }
    }

    /// Marks the task with the identifier `id` as completed; a task that is
    /// completed already stays so. Where no task has the identifier, the
    /// registry stays as it is.
    pub fn mark_completed(&mut self, id: u64) -> (r: Result<(), TodoError>)
        requires
            old(self).wf(),
        ensures
            final(self).wf(),
            old(self)@.contains_id(id as nat) ==> r == Ok::<(), TodoError>(()) && final(self)@
                == old(self)@.mark_completed(id as nat),
            !old(self)@.contains_id(id as nat) ==> r == Err::<(), TodoError>(
                TodoError::NotFound(id),
            ) && final(self)@ == old(self)@,
    {
        match self.find_mutable(id) {
            Some(task) => {
                task.update_status();
                assert(final(self)@.tasks =~= old(self)@.mark_completed(id as nat).tasks);
                Ok(())
            },
            None => Err(TodoError::NotFound(id)),
        }
    }

    /// The tasks in display order, to be read.
    pub fn list(&self) -> (tasks: &Vec<Task>)
        ensures
            task_views(tasks@) == self@.tasks,
    {
        &self.tasks
    }
}

} // verus!
