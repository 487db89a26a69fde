use chrono::Datelike;
use grc::date::Date;
use grc::task::{Section, Task, TodoList};

fn ymd(y: i32, m: u32, d: u32) -> Date {
    Date::from_days(chrono::NaiveDate::from_ymd_opt(y, m, d).unwrap().num_days_from_ce()).unwrap()
}

#[test]
fn task_creation_pending_no_due() {
    let task = Task { text: "Buy milk".to_string(), is_done: false, due: None };
    assert_eq!(task.text, "Buy milk");
    assert!(!task.is_done);
    assert!(task.due.is_none());
}

#[test]
fn task_creation_done_with_due() {
    let due = ymd(2025, 6, 15);
    let task = Task { text: "Submit report".to_string(), is_done: true, due: Some(due) };
    assert!(task.is_done);
    assert_eq!(task.due.unwrap(), due);
}

#[test]
fn task_clone_is_independent() {
    let original = Task { text: "Original".to_string(), is_done: false, due: None };
    let mut cloned = original.clone();
    cloned.text = "Cloned".to_string();
    cloned.is_done = true;
    assert_eq!(original.text, "Original");
    assert!(!original.is_done);
    assert_eq!(cloned.text, "Cloned");
    assert!(cloned.is_done);
}

#[test]
fn section_creation() {
    let sec = Section::new("work");
    assert_eq!(sec.name, "work");
    assert!(sec.tasks.is_empty());
    assert!(sec.children.is_empty());
}

#[test]
fn nested_section_hierarchy() {
    let mut root = Section::new("work");
    root.tasks.push(Task { text: "Top-level".to_string(), is_done: false, due: None });
    root.children.push(Section::new("backend"));
    root.children[0].children.push(Section::new("api"));
    root.children[0].children[0].tasks.push(Task {
        text: "Fix endpoint".to_string(),
        is_done: false,
        due: None,
    });
    assert_eq!(root.name, "work");
    assert_eq!(root.tasks.len(), 1);
    assert_eq!(root.children.len(), 1);
    assert_eq!(root.children[0].name, "backend");
    assert_eq!(root.children[0].children[0].name, "api");
    assert_eq!(root.children[0].children[0].tasks[0].text, "Fix endpoint");
}

#[test]
fn todolist_default_is_empty() {
    let list = TodoList::default();
    assert!(list.sections.is_empty());
}

#[test]
fn todolist_clone_is_independent() {
    let mut original = TodoList::default();
    original.sections.push(Section::new("main"));
    let cloned = original.clone();
    original.sections.clear();
    assert!(original.sections.is_empty());
    assert_eq!(cloned.sections.len(), 1);
}
