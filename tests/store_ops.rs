use tasker::store::{StoreError, Task, TaskList};

fn ids(list: &TaskList) -> Vec<u32> {
    list.tasks().iter().map(|t| t.id).collect()
}

fn with_tasks(descriptions: &[&str]) -> TaskList {
    let mut list = TaskList::new();
    for d in descriptions {
        list.add(d.to_string());
    }
    list
}

#[test]
fn fresh_store_add_assigns_first_id() {
    let mut list = TaskList::new();
    assert!(list.is_empty());
    assert_eq!(list.next_id(), 1);
    let id = list.add("buy milk".to_string());
    assert_eq!(id, 1);
    assert_eq!(list.next_id(), 2);
    assert_eq!(list.tasks().len(), 1);
    let t = &list.tasks()[0];
    assert_eq!(t.id, 1);
    assert_eq!(t.description, "buy milk");
    assert!(!t.completed);
}

#[test]
fn add_accepts_empty_description() {
    let mut list = TaskList::new();
    assert_eq!(list.add(String::new()), 1);
    assert_eq!(list.tasks()[0].description, "");
}

#[test]
fn adds_issue_consecutive_distinct_ids() {
    let mut list = TaskList::new();
    for k in 1..=5u32 {
        let before = list.next_id();
        let id = list.add(format!("task {}", k));
        assert_eq!(id, before);
        assert_eq!(id, k);
        assert_eq!(list.next_id(), before + 1);
    }
    assert_eq!(ids(&list), vec![1, 2, 3, 4, 5]);
}

#[test]
fn delete_never_lets_an_id_be_reissued() {
    let mut list = with_tasks(&["a", "b", "c"]);
    assert!(list.delete(3));
    assert_eq!(list.next_id(), 4);
    assert_eq!(list.add("d".to_string()), 4);
    assert_eq!(ids(&list), vec![1, 2, 4]);
}

#[test]
fn delete_only_task_then_add_uses_next_id() {
    let mut list = with_tasks(&["buy milk"]);
    assert!(list.delete(1));
    assert!(list.is_empty());
    assert_eq!(list.add("buy bread".to_string()), 2);
}

#[test]
fn absent_id_leaves_store_unchanged() {
    let mut list = with_tasks(&["a", "b"]);
    list.complete(2);
    assert!(!list.update(99, "x".to_string()));
    assert!(!list.delete(99));
    assert!(!list.complete(99));
    assert_eq!(ids(&list), vec![1, 2]);
    assert_eq!(list.next_id(), 3);
    assert_eq!(list.tasks()[0].description, "a");
    assert!(!list.tasks()[0].completed);
    assert!(list.tasks()[1].completed);
}

#[test]
fn update_replaces_description_only() {
    let mut list = with_tasks(&["buy milk", "walk"]);
    assert!(list.update(1, "buy bread".to_string()));
    assert_eq!(list.tasks()[0].description, "buy bread");
    assert!(!list.tasks()[0].completed);
    assert_eq!(list.tasks()[1].description, "walk");
    assert!(list.complete(2));
    assert!(list.update(2, "run".to_string()));
    assert!(list.tasks()[1].completed);
}

#[test]
fn complete_twice_equals_complete_once() {
    let mut once = with_tasks(&["a", "b"]);
    let mut twice = with_tasks(&["a", "b"]);
    assert!(once.complete(1));
    assert!(twice.complete(1));
    assert!(twice.complete(1));
    assert_eq!(once.tasks(), twice.tasks());
    assert_eq!(once.next_id(), twice.next_id());
    assert!(twice.tasks()[0].completed);
    assert!(!twice.tasks()[1].completed);
}

#[test]
fn delete_keeps_others_in_order() {
    let mut list = with_tasks(&["a", "b", "c", "d"]);
    list.complete(3);
    assert!(list.delete(2));
    assert!(list.find(2).is_none());
    assert_eq!(list.tasks().len(), 3);
    assert_eq!(ids(&list), vec![1, 3, 4]);
    let descriptions: Vec<&str> = list.tasks().iter().map(|t| t.description.as_str()).collect();
    assert_eq!(descriptions, vec!["a", "c", "d"]);
    let flags: Vec<bool> = list.tasks().iter().map(|t| t.completed).collect();
    assert_eq!(flags, vec![false, true, false]);
}

#[test]
fn find_and_position() {
    let list = with_tasks(&["a", "b"]);
    assert_eq!(list.position(2), Some(1));
    assert_eq!(list.position(7), None);
    assert_eq!(list.find(1).map(|t| t.description.as_str()), Some("a"));
    assert!(list.find(0).is_none());
}

#[test]
fn restore_reproduces_saved_store() {
    let mut list = with_tasks(&["a", "b", "c"]);
    list.delete(2);
    list.complete(3);
    let parts: Vec<Task> = list
        .tasks()
        .iter()
        .map(|t| Task { id: t.id, description: t.description.clone(), completed: t.completed })
        .collect();
    let restored = TaskList::from_parts(parts, list.next_id()).ok().unwrap();
    assert_eq!(restored.tasks(), list.tasks());
    assert_eq!(restored.next_id(), list.next_id());
}

#[test]
fn restore_rejects_id_not_below_counter() {
    let parts = vec![Task::new(1, "a".to_string()), Task::new(5, "b".to_string())];
    assert_eq!(
        TaskList::from_parts(parts, 5).err(),
        Some(StoreError::IdNotBelowCounter { id: 5, next_id: 5 })
    );
}

#[test]
fn restore_rejects_duplicate_ids() {
    let parts = vec![
        Task::new(2, "a".to_string()),
        Task::new(1, "b".to_string()),
        Task::new(2, "c".to_string()),
    ];
    assert_eq!(TaskList::from_parts(parts, 3).err(), Some(StoreError::DuplicateId { id: 2 }));
}

#[test]
fn restore_accepts_empty_store() {
    let list = TaskList::from_parts(Vec::new(), 1).ok().unwrap();
    assert!(list.is_empty());
    assert_eq!(list.next_id(), 1);
}
