//! Whole invocations, one command after the other, with the list handed on
//! from each outcome to the next command as storage would hand it on.

use rust_task_manager::commands::{run, Outcome, TaskCmd};
use rust_task_manager::list::TaskList;

fn stdout(out: &Outcome) -> String {
    let mut text = String::new();
    for line in &out.output {
        text.push_str(line);
        text.push('\n');
    }
    text
}

/// What the next invocation finds in storage after `out`.
fn stored(out: Outcome, before: TaskList) -> TaskList {
    if out.save {
        TaskList::from_stored(Some(out.tasks.tasks))
    } else {
        before
    }
}

#[test]
fn add_and_list_tasks() {
    let out = run(TaskCmd::Add { description: "Test task".to_string() }, TaskList::new());
    assert!(stdout(&out).contains("Added task 1"));
    assert!(out.save);
    let tasks = stored(out, TaskList::new());

    let out = run(TaskCmd::List, tasks);
    assert!(stdout(&out).contains("1. [ ] Test task"));
    assert!(!out.save);
}

#[test]
fn mark_and_delete_task() {
    let out = run(TaskCmd::Add { description: "Another task".to_string() }, TaskList::new());
    assert!(out.save);
    let tasks = stored(out, TaskList::new());

    let out = run(TaskCmd::Done { id: 1 }, tasks);
    assert!(stdout(&out).contains("Marked task 1 done"));
    assert!(out.save);
    let tasks = stored(out, TaskList::new());

    let out = run(TaskCmd::Delete { id: 1 }, tasks);
    assert!(stdout(&out).contains("Deleted task 1"));
    assert!(out.save);
    assert!(out.tasks.tasks.is_empty());
}

#[test]
fn buy_milk_from_fresh_storage() {
    let out = run(TaskCmd::Add { description: "Buy milk".to_string() }, TaskList::from_stored(None));
    assert_eq!(out.output, vec!["Added task 1".to_string()]);
    let stamp = out.tasks.tasks[0].created_at.clone();
    let tasks = stored(out, TaskList::new());

    let out = run(TaskCmd::List, tasks);
    assert_eq!(out.output, vec![format!("1. [ ] Buy milk (created {})", stamp)]);
    let tasks = out.tasks;

    let out = run(TaskCmd::Done { id: 1 }, tasks);
    assert_eq!(out.output, vec!["Marked task 1 done".to_string()]);
    let tasks = stored(out, TaskList::new());

    let out = run(TaskCmd::List, tasks);
    assert_eq!(out.output, vec![format!("1. [x] Buy milk (created {})", stamp)]);
    let tasks = out.tasks;

    let out = run(TaskCmd::Delete { id: 1 }, tasks);
    assert_eq!(out.output, vec!["Deleted task 1".to_string()]);
    let tasks = stored(out, TaskList::new());

    let out = run(TaskCmd::List, tasks);
    assert!(out.output.is_empty());
    assert!(out.tasks.tasks.is_empty());
}

#[test]
fn done_on_empty_storage_reports_not_found() {
    let out = run(TaskCmd::Done { id: 99 }, TaskList::new());
    assert_eq!(out.output, vec!["Task 99 not found".to_string()]);
    assert!(!out.save);
    assert!(out.tasks.tasks.is_empty());
}

#[test]
fn delete_on_empty_storage_still_saves() {
    let out = run(TaskCmd::Delete { id: 1 }, TaskList::new());
    assert_eq!(out.output, vec!["Deleted task 1".to_string()]);
    assert!(out.save);
    assert!(out.tasks.tasks.is_empty());
}

#[test]
fn list_on_empty_storage_prints_nothing() {
    let out = run(TaskCmd::List, TaskList::new());
    assert!(out.output.is_empty());
    assert!(!out.save);
}

#[test]
fn added_task_is_stamped_with_the_present_time() {
    let before = chrono::Utc::now();
    let out = run(TaskCmd::Add { description: "stamp".to_string() }, TaskList::new());
    let after = chrono::Utc::now();
    let task = &out.tasks.tasks[0];
    let stamp = chrono::DateTime::parse_from_rfc3339(&task.created_at)
        .expect("the creation time is RFC 3339 text");
    assert_eq!(stamp.offset().local_minus_utc(), 0);
    assert!(before <= stamp && stamp <= after);
    assert_eq!(task.id, 1);
    assert_eq!(task.description, "stamp");
    assert!(!task.done);
}

#[test]
fn adding_three_then_deleting_the_second_renumbers() {
    let mut tasks = TaskList::new();
    for description in ["first", "second", "third"] {
        let out = run(TaskCmd::Add { description: description.to_string() }, tasks);
        tasks = out.tasks;
    }
    let ids: Vec<usize> = tasks.tasks.iter().map(|t| t.id).collect();
    assert_eq!(ids, vec![1, 2, 3]);

    let out = run(TaskCmd::Delete { id: 2 }, tasks);
    let left: Vec<(usize, &str)> =
        out.tasks.tasks.iter().map(|t| (t.id, t.description.as_str())).collect();
    assert_eq!(left, vec![(1, "first"), (2, "third")]);
}
