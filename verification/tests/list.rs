//! The list operations by themselves.

use rust_task_manager::list::TaskList;
use rust_task_manager::task::Task;

fn entry(id: usize, description: &str, done: bool) -> Task {
    Task {
        id,
        description: description.to_string(),
        created_at: "2024-01-01T00:00:00+00:00".to_string(),
        done,
    }
}

fn three() -> TaskList {
    TaskList { tasks: vec![entry(1, "one", false), entry(2, "two", false), entry(3, "three", true)] }
}

#[test]
fn new_list_is_empty() {
    let list = TaskList::new();
    assert_eq!(list.len(), 0);
    assert!(list.tasks.is_empty());
}

#[test]
fn from_stored_keeps_what_was_read() {
    let list = TaskList::from_stored(Some(three().tasks));
    assert_eq!(list, three());
    let odd = vec![entry(3, "x", true), entry(3, "y", false)];
    let list = TaskList::from_stored(Some(odd));
    assert_eq!(list.tasks, vec![entry(3, "x", true), entry(3, "y", false)]);
}

#[test]
fn from_stored_treats_unreadable_content_as_no_tasks() {
    let list = TaskList::from_stored(None);
    assert_eq!(list, TaskList::new());
}

#[test]
fn len_counts_the_tasks() {
    assert_eq!(three().len(), 3);
}

#[test]
fn find_gives_the_first_place_that_carries_the_id() {
    let list = three();
    assert_eq!(list.find(1), Some(0));
    assert_eq!(list.find(3), Some(2));
    assert_eq!(list.find(0), None);
    assert_eq!(list.find(4), None);
    let twins = TaskList { tasks: vec![entry(2, "a", false), entry(8, "b", false), entry(8, "c", false)] };
    assert_eq!(twins.find(8), Some(1));
    assert_eq!(TaskList::new().find(1), None);
}

#[test]
fn add_returns_the_new_id() {
    let mut list = TaskList::new();
    assert_eq!(list.add("a".to_string(), "t1".to_string()), 1);
    assert_eq!(list.add("b".to_string(), "t2".to_string()), 2);
    assert_eq!(
        list.tasks,
        vec![
            Task { id: 1, description: "a".to_string(), created_at: "t1".to_string(), done: false },
            Task { id: 2, description: "b".to_string(), created_at: "t2".to_string(), done: false },
        ]
    );
}

#[test]
fn mark_done_says_whether_the_id_was_there() {
    let mut list = three();
    assert!(list.mark_done(2));
    assert_eq!(list.tasks, vec![entry(1, "one", false), entry(2, "two", true), entry(3, "three", true)]);
    assert!(!list.mark_done(7));
    assert_eq!(list.tasks, vec![entry(1, "one", false), entry(2, "two", true), entry(3, "three", true)]);
    assert!(list.mark_done(3));
    assert!(list.tasks[2].done);
}

#[test]
fn renumber_counts_from_one() {
    let mut list = TaskList { tasks: vec![entry(10, "a", true), entry(0, "b", false), entry(10, "c", false)] };
    list.renumber();
    assert_eq!(list.tasks, vec![entry(1, "a", true), entry(2, "b", false), entry(3, "c", false)]);
    let mut empty = TaskList::new();
    empty.renumber();
    assert!(empty.tasks.is_empty());
}

#[test]
fn delete_closes_the_gap() {
    let mut list = three();
    list.delete(2);
    assert_eq!(list.tasks, vec![entry(1, "one", false), entry(2, "three", true)]);
    list.delete(2);
    assert_eq!(list.tasks, vec![entry(1, "one", false)]);
    list.delete(5);
    assert_eq!(list.tasks, vec![entry(1, "one", false)]);
    list.delete(1);
    assert!(list.tasks.is_empty());
    list.delete(1);
    assert!(list.tasks.is_empty());
}

#[test]
fn delete_takes_only_the_first_of_equal_ids() {
    let mut list = TaskList { tasks: vec![entry(4, "a", false), entry(4, "b", false), entry(4, "c", false)] };
    list.delete(4);
    assert_eq!(list.tasks, vec![entry(1, "b", false), entry(2, "c", false)]);
}

#[test]
fn lines_follow_the_stored_order() {
    let list = TaskList { tasks: vec![entry(2, "b", true), entry(1, "a", false)] };
    assert_eq!(
        list.lines(),
        vec![
            "2. [x] b (created 2024-01-01T00:00:00+00:00)".to_string(),
            "1. [ ] a (created 2024-01-01T00:00:00+00:00)".to_string(),
        ]
    );
    assert!(TaskList::new().lines().is_empty());
}
