use task_manager::{Snapshot, Task, TaskError, TaskManager};

fn task(id: usize, description: &str, completed: bool) -> Task {
    Task { id, description: description.to_string(), completed }
}

#[test]
fn scenario_add_complete_delete() {
    let mut manager = TaskManager::new(Snapshot::Missing);
    manager.add_task("buy milk".to_string());
    manager.add_task("walk dog".to_string());
    assert_eq!(manager.complete_task(1), Ok(()));
    assert_eq!(manager.delete_task(2), Ok(()));
    assert_eq!(manager.list_tasks(), &vec![task(1, "buy milk", true)]);
}

#[test]
fn missing_snapshot_starts_empty() {
    let mut manager = TaskManager::new(Snapshot::Missing);
    assert!(manager.list_tasks().is_empty());
    assert_eq!(manager.next_id(), 1);
    let first = manager.add_task("first".to_string());
    assert_eq!(first.id, 1);
}

#[test]
fn malformed_snapshot_starts_empty() {
    let mut manager = TaskManager::new(Snapshot::Malformed);
    assert!(manager.list_tasks().is_empty());
    assert_eq!(manager.next_id(), 1);
    let first = manager.add_task("first".to_string());
    assert_eq!(first.id, 1);
}

#[test]
fn load_tasks_keeps_what_was_written() {
    let tasks = TaskManager::load_tasks(Snapshot::Tasks(vec![
        task(1, "a", false),
        task(2, "b", true),
    ]));
    assert_eq!(tasks, vec![task(1, "a", false), task(2, "b", true)]);
    assert!(TaskManager::load_tasks(Snapshot::Missing).is_empty());
    assert!(TaskManager::load_tasks(Snapshot::Malformed).is_empty());
    assert!(TaskManager::load_tasks(Snapshot::Tasks(Vec::new())).is_empty());
}

#[test]
fn empty_snapshot_counts_from_one() {
    let manager = TaskManager::new(Snapshot::Tasks(Vec::new()));
    assert!(manager.list_tasks().is_empty());
    assert_eq!(manager.next_id(), 1);
}

#[test]
fn loaded_store_counts_from_number_of_tasks() {
    let manager = TaskManager::new(Snapshot::Tasks(vec![
        task(1, "a", false),
        task(2, "b", true),
        task(3, "c", false),
    ]));
    assert_eq!(manager.next_id(), 4);
    assert_eq!(
        manager.list_tasks(),
        &vec![task(1, "a", false), task(2, "b", true), task(3, "c", false)]
    );
}

#[test]
fn loaded_store_ignores_the_ids_it_holds() {
    let mut manager = TaskManager::new(Snapshot::Tasks(vec![task(2, "kept", false)]));
    assert_eq!(manager.next_id(), 2);
    let added = manager.add_task("new".to_string());
    assert_eq!(added.id, 2);
    assert_eq!(manager.list_tasks(), &vec![task(2, "kept", false), task(2, "new", false)]);
}

#[test]
fn added_ids_count_upwards_from_one() {
    let mut manager = TaskManager::new(Snapshot::Missing);
    let descriptions = ["a", "b", "c", "d", "e"];
    for (n, description) in descriptions.iter().enumerate() {
        let added = manager.add_task(description.to_string());
        assert_eq!(added, task(n + 1, description, false));
        assert_eq!(manager.next_id(), n + 2);
    }
    let ids: Vec<usize> = manager.list_tasks().iter().map(|t| t.id).collect();
    assert_eq!(ids, vec![1, 2, 3, 4, 5]);
}

#[test]
fn add_then_list_shows_the_task_once() {
    let mut manager = TaskManager::new(Snapshot::Missing);
    let added = manager.add_task("X".to_string());
    assert_eq!(added, task(1, "X", false));
    let matching: Vec<&Task> =
        manager.list_tasks().iter().filter(|t| t.description == "X").collect();
    assert_eq!(matching, vec![&task(1, "X", false)]);
    assert_eq!(manager.list_tasks().len(), 1);
}

#[test]
fn add_appends_behind_loaded_tasks() {
    let mut manager =
        TaskManager::new(Snapshot::Tasks(vec![task(1, "a", true), task(2, "b", false)]));
    let added = manager.add_task("c".to_string());
    assert_eq!(added, task(3, "c", false));
    assert_eq!(
        manager.list_tasks(),
        &vec![task(1, "a", true), task(2, "b", false), task(3, "c", false)]
    );
    assert_eq!(manager.next_id(), 4);
}

#[test]
fn add_accepts_an_empty_description() {
    let mut manager = TaskManager::new(Snapshot::Missing);
    let added = manager.add_task(String::new());
    assert_eq!(added, task(1, "", false));
    assert_eq!(manager.list_tasks(), &vec![task(1, "", false)]);
}

#[test]
fn add_accepts_the_same_description_twice() {
    let mut manager = TaskManager::new(Snapshot::Missing);
    manager.add_task("same".to_string());
    manager.add_task("same".to_string());
    assert_eq!(manager.list_tasks(), &vec![task(1, "same", false), task(2, "same", false)]);
}

#[test]
fn complete_marks_only_the_matching_task() {
    let mut manager = TaskManager::new(Snapshot::Missing);
    manager.add_task("a".to_string());
    manager.add_task("b".to_string());
    manager.add_task("c".to_string());
    assert_eq!(manager.complete_task(2), Ok(()));
    assert_eq!(
        manager.list_tasks(),
        &vec![task(1, "a", false), task(2, "b", true), task(3, "c", false)]
    );
    assert_eq!(manager.next_id(), 4);
}

#[test]
fn complete_twice_succeeds_and_changes_nothing_more() {
    let mut manager = TaskManager::new(Snapshot::Missing);
    manager.add_task("a".to_string());
    assert_eq!(manager.complete_task(1), Ok(()));
    assert_eq!(manager.complete_task(1), Ok(()));
    assert_eq!(manager.list_tasks(), &vec![task(1, "a", true)]);
}

#[test]
fn complete_unknown_id_reports_not_found() {
    let mut manager = TaskManager::new(Snapshot::Missing);
    manager.add_task("a".to_string());
    manager.add_task("b".to_string());
    assert_eq!(manager.complete_task(3), Err(TaskError::NotFound(3)));
    assert_eq!(manager.complete_task(0), Err(TaskError::NotFound(0)));
    assert_eq!(manager.list_tasks(), &vec![task(1, "a", false), task(2, "b", false)]);
    assert_eq!(manager.next_id(), 3);
}

#[test]
fn complete_on_empty_store_reports_not_found() {
    let mut manager = TaskManager::new(Snapshot::Missing);
    assert_eq!(manager.complete_task(1), Err(TaskError::NotFound(1)));
    assert!(manager.list_tasks().is_empty());
    assert_eq!(manager.next_id(), 1);
}

#[test]
fn complete_marks_the_first_of_two_equal_ids() {
    let mut manager =
        TaskManager::new(Snapshot::Tasks(vec![task(5, "a", false), task(5, "b", false)]));
    assert_eq!(manager.complete_task(5), Ok(()));
    assert_eq!(manager.list_tasks(), &vec![task(5, "a", true), task(5, "b", false)]);
}

#[test]
fn delete_removes_only_the_matching_task() {
    let mut manager = TaskManager::new(Snapshot::Missing);
    manager.add_task("a".to_string());
    manager.add_task("b".to_string());
    manager.add_task("c".to_string());
    assert_eq!(manager.complete_task(3), Ok(()));
    assert_eq!(manager.delete_task(2), Ok(()));
    assert_eq!(manager.list_tasks(), &vec![task(1, "a", false), task(3, "c", true)]);
    assert_eq!(manager.next_id(), 4);
}

#[test]
fn delete_does_not_free_the_id() {
    let mut manager = TaskManager::new(Snapshot::Missing);
    manager.add_task("a".to_string());
    manager.add_task("b".to_string());
    assert_eq!(manager.delete_task(2), Ok(()));
    let added = manager.add_task("c".to_string());
    assert_eq!(added.id, 3);
    assert_eq!(manager.delete_task(1), Ok(()));
    assert_eq!(manager.delete_task(3), Ok(()));
    assert!(manager.list_tasks().is_empty());
    let next = manager.add_task("d".to_string());
    assert_eq!(next.id, 4);
}

#[test]
fn delete_unknown_id_reports_not_found() {
    let mut manager = TaskManager::new(Snapshot::Missing);
    manager.add_task("a".to_string());
    assert_eq!(manager.delete_task(9), Err(TaskError::NotFound(9)));
    assert_eq!(manager.list_tasks(), &vec![task(1, "a", false)]);
    assert_eq!(manager.next_id(), 2);
}

#[test]
fn delete_twice_reports_not_found_the_second_time() {
    let mut manager = TaskManager::new(Snapshot::Missing);
    manager.add_task("a".to_string());
    assert_eq!(manager.delete_task(1), Ok(()));
    assert_eq!(manager.delete_task(1), Err(TaskError::NotFound(1)));
    assert!(manager.list_tasks().is_empty());
}

#[test]
fn delete_removes_the_first_of_two_equal_ids() {
    let mut manager = TaskManager::new(Snapshot::Tasks(vec![
        task(5, "a", false),
        task(7, "b", false),
        task(5, "c", true),
    ]));
    assert_eq!(manager.delete_task(5), Ok(()));
    assert_eq!(manager.list_tasks(), &vec![task(7, "b", false), task(5, "c", true)]);
    assert_eq!(manager.next_id(), 4);
}

#[test]
fn reloading_the_listed_tasks_gives_the_same_list() {
    let mut manager = TaskManager::new(Snapshot::Missing);
    manager.add_task("a".to_string());
    manager.add_task("b".to_string());
    manager.add_task("c".to_string());
    assert_eq!(manager.complete_task(2), Ok(()));
    let written: Vec<Task> = manager.list_tasks().clone();
    let reloaded = TaskManager::new(Snapshot::Tasks(written));
    assert_eq!(reloaded.list_tasks(), manager.list_tasks());
    assert_eq!(reloaded.next_id(), 4);
}

#[test]
fn reloading_after_a_delete_counts_anew() {
    let mut manager = TaskManager::new(Snapshot::Missing);
    manager.add_task("a".to_string());
    manager.add_task("b".to_string());
    assert_eq!(manager.delete_task(1), Ok(()));
    assert_eq!(manager.next_id(), 3);
    let reloaded = TaskManager::new(Snapshot::Tasks(manager.list_tasks().clone()));
    assert_eq!(reloaded.list_tasks(), &vec![task(2, "b", false)]);
    assert_eq!(reloaded.next_id(), 2);
}
