use todo::get_task;
use todo::Registry;
use todo::Task;
use todo::TodoError;

fn task(id: u64, name: &str, done: bool) -> Task {
    Task { task: name.to_string(), is_completed: done, id }
}

#[test]
fn new_registry_is_empty() {
    let registry = Registry::new();
    assert!(registry.list().is_empty());
    assert!(registry.can_add());
}

#[test]
fn add_hands_out_increasing_ids_from_one() {
    let mut registry = Registry::new();
    assert_eq!(registry.add("a"), 1);
    assert_eq!(registry.add("b"), 2);
    assert_eq!(registry.add("c"), 3);
    assert_eq!(
        registry.list(),
        &vec![task(1, "a", false), task(2, "b", false), task(3, "c", false)]
    );
}

#[test]
fn add_accepts_an_empty_description() {
    let mut registry = Registry::new();
    assert_eq!(registry.add(""), 1);
    assert_eq!(registry.list(), &vec![task(1, "", false)]);
}

#[test]
fn remove_keeps_the_order_of_the_others() {
    let mut registry = Registry::new();
    registry.add("a");
    registry.add("b");
    registry.add("c");
    assert_eq!(registry.remove(2), Ok(()));
    assert_eq!(registry.list(), &vec![task(1, "a", false), task(3, "c", false)]);
}

#[test]
fn remove_of_unknown_id_is_not_found() {
    let mut registry = Registry::new();
    registry.add("a");
    assert_eq!(registry.remove(999), Err(TodoError::NotFound(999)));
    assert_eq!(registry.list(), &vec![task(1, "a", false)]);
}

#[test]
fn removed_id_is_not_handed_out_again() {
    let mut registry = Registry::new();
    registry.add("a");
    registry.add("b");
    assert_eq!(registry.remove(2), Ok(()));
    assert_eq!(registry.add("c"), 3);
    assert_eq!(registry.remove(1), Ok(()));
    assert_eq!(registry.remove(3), Ok(()));
    assert_eq!(registry.add("d"), 4);
}

#[test]
fn mark_completed_twice_succeeds_twice() {
    let mut registry = Registry::new();
    registry.add("a");
    assert_eq!(registry.mark_completed(1), Ok(()));
    assert_eq!(registry.list(), &vec![task(1, "a", true)]);
    assert_eq!(registry.mark_completed(1), Ok(()));
    assert_eq!(registry.list(), &vec![task(1, "a", true)]);
}

#[test]
fn mark_completed_of_unknown_id_is_not_found() {
    let mut registry = Registry::new();
    assert_eq!(registry.mark_completed(7), Err(TodoError::NotFound(7)));
}

#[test]
fn update_description_changes_only_the_text() {
    let mut registry = Registry::new();
    registry.add("a");
    registry.add("b");
    registry.mark_completed(2).unwrap();
    assert_eq!(registry.update_description(2, "new text"), Ok(()));
    assert_eq!(registry.list(), &vec![task(1, "a", false), task(2, "new text", true)]);
    assert_eq!(registry.update_description(5, "x"), Err(TodoError::NotFound(5)));
}

#[test]
fn find_mutable_gives_the_task_or_nothing() {
    let mut registry = Registry::new();
    registry.add("a");
    registry.add("b");
    match registry.find_mutable(2) {
        Some(found) => {
            assert_eq!(found.id, 2);
            found.update_status();
        }
        None => panic!("task 2 is there"),
    }
    assert_eq!(registry.list(), &vec![task(1, "a", false), task(2, "b", true)]);
    assert!(registry.find_mutable(3).is_none());
}

#[test]
fn get_task_finds_the_first_with_the_id() {
    let mut list = vec![task(4, "a", false), task(9, "b", false), task(9, "c", false)];
    get_task(&mut list, 9).unwrap().update_task("changed");
    assert_eq!(list, vec![task(4, "a", false), task(9, "changed", false), task(9, "c", false)]);
    assert!(get_task(&mut list, 1).is_none());
}

#[test]
fn task_methods_change_one_field() {
    let mut t = task(5, "old", false);
    t.update_status();
    assert_eq!(t, task(5, "old", true));
    t.update_status();
    assert_eq!(t, task(5, "old", true));
    t.update_task("new");
    assert_eq!(t, task(5, "new", true));
}

#[test]
fn from_tasks_counts_on_from_the_largest_id() {
    let mut registry =
        Registry::from_tasks(vec![task(7, "a", true), task(3, "b", false)]).unwrap();
    assert_eq!(registry.list(), &vec![task(7, "a", true), task(3, "b", false)]);
    assert_eq!(registry.add("c"), 8);
}

#[test]
fn from_tasks_refuses_a_repeated_id() {
    assert!(Registry::from_tasks(vec![task(1, "a", false), task(1, "b", false)]).is_none());
}

#[test]
fn restore_of_nothing_or_of_a_repeated_id_is_empty() {
    let mut fresh = Registry::restore(None);
    assert!(fresh.list().is_empty());
    assert_eq!(fresh.add("a"), 1);
    let spoiled = Registry::restore(Some(vec![task(2, "a", false), task(2, "b", false)]));
    assert!(spoiled.list().is_empty());
}

#[test]
fn restore_of_the_listed_tasks_gives_them_back() {
    let mut registry = Registry::new();
    registry.add("a");
    registry.add("b");
    registry.mark_completed(1).unwrap();
    registry.remove(2).unwrap();
    registry.add("c");
    let stored: Vec<Task> = registry.list().clone();
    let restored = Registry::restore(Some(stored));
    assert_eq!(restored.list(), registry.list());
    let empty = Registry::restore(Some(Registry::new().list().clone()));
    assert!(empty.list().is_empty());
}

#[test]
fn ids_run_out_at_the_largest_number() {
    let mut registry = Registry::from_tasks(vec![task(u64::MAX - 1, "a", false)]).unwrap();
    assert!(registry.can_add());
    assert_eq!(registry.try_add("b"), Ok(u64::MAX));
    assert!(!registry.can_add());
    assert_eq!(registry.try_add("c"), Err(TodoError::IdsExhausted));
    assert_eq!(registry.list().len(), 2);
}
