use chrono::Datelike;
use grc::date::{next_weekday, resolve_relative_date, today, Date, Weekday};
use grc::parser::{parse_file, write_file};
use grc::task::{Section, Task, TodoList};

fn ymd(y: i32, m: u32, d: u32) -> Date {
    Date::from_days(chrono::NaiveDate::from_ymd_opt(y, m, d).unwrap().num_days_from_ce()).unwrap()
}

fn parse(content: &str) -> TodoList {
    parse_file(content).unwrap()
}

#[test]
fn parses_single_section_with_tasks() {
    let list = parse("# main\n- [ ] Buy milk\n- [x] Walk dog\n");
    assert_eq!(list.sections.len(), 1);
    assert_eq!(list.sections[0].name, "main");
    assert_eq!(list.sections[0].tasks.len(), 2);
    assert!(!list.sections[0].tasks[0].is_done);
    assert_eq!(list.sections[0].tasks[0].text, "Buy milk");
    assert!(list.sections[0].tasks[1].is_done);
}

#[test]
fn parses_done_uppercase_x() {
    let list = parse("# sec\n- [X] Done task\n");
    assert!(list.sections[0].tasks[0].is_done);
}

#[test]
fn parses_due_date() {
    let list = parse("# sec\n- [ ] Submit report due:2025-01-15\n");
    let task = &list.sections[0].tasks[0];
    assert_eq!(task.text, "Submit report");
    assert_eq!(task.due, Some(ymd(2025, 1, 15)));
}

#[test]
fn parses_nested_subsections() {
    let content =
        "# work\n- [ ] Top task\n## backend\n- [ ] Fix API\n## frontend\n- [x] Style button\n";
    let list = parse(content);
    assert_eq!(list.sections.len(), 1);
    assert_eq!(list.sections[0].tasks.len(), 1);
    assert_eq!(list.sections[0].children.len(), 2);
    assert_eq!(list.sections[0].children[0].name, "backend");
    assert_eq!(list.sections[0].children[1].name, "frontend");
    assert!(list.sections[0].children[1].tasks[0].is_done);
}

#[test]
fn parses_multiple_top_level_sections() {
    let list = parse("# work\n- [ ] Task A\n# personal\n- [ ] Task B\n");
    assert_eq!(list.sections.len(), 2);
    assert_eq!(list.sections[0].name, "work");
    assert_eq!(list.sections[1].name, "personal");
}

#[test]
fn parses_empty_file_as_empty_list() {
    let list = parse("");
    assert!(list.sections.is_empty());
}

#[test]
fn parses_headings_only_no_tasks() {
    let list = parse("# empty-section\n## empty-sub\n");
    assert_eq!(list.sections.len(), 1);
    assert!(list.sections[0].tasks.is_empty());
    assert_eq!(list.sections[0].children.len(), 1);
    assert!(list.sections[0].children[0].tasks.is_empty());
}

#[test]
fn ignores_non_heading_non_task_lines() {
    let list = parse("# sec\nsome random text\n- [ ] Real task\nanother line\n");
    assert_eq!(list.sections[0].tasks.len(), 1);
    assert_eq!(list.sections[0].tasks[0].text, "Real task");
}

#[test]
fn parses_file_starting_with_second_level_heading() {
    let list = parse("## My Project\n- [ ] Task one\n- [ ] Task two\n");
    assert_eq!(list.sections.len(), 1);
    assert_eq!(list.sections[0].name, "My Project");
    assert_eq!(list.sections[0].tasks.len(), 2);
}

#[test]
fn parses_deep_four_level_heading_hierarchy() {
    let list = parse("# a\n## b\n### c\n#### d\n- [ ] deep task\n");
    assert_eq!(list.sections[0].name, "a");
    assert_eq!(list.sections[0].children[0].name, "b");
    assert_eq!(list.sections[0].children[0].children[0].name, "c");
    assert_eq!(list.sections[0].children[0].children[0].children[0].name, "d");
    assert_eq!(
        list.sections[0].children[0].children[0].children[0].tasks[0].text,
        "deep task"
    );
}

#[test]
fn parses_dual_level_jump_as_implied_child() {
    let list = parse("# top\n### skip\n- [ ] only task\n");
    assert_eq!(list.sections.len(), 1);
    assert_eq!(list.sections[0].name, "top");
    assert_eq!(list.sections[0].children.len(), 1);
    assert_eq!(list.sections[0].children[0].name, "skip");
    assert_eq!(list.sections[0].children[0].tasks.len(), 1);
}

#[test]
fn parses_multiple_second_level_headings_as_sections() {
    let list = parse("## Project A\n- [ ] a\n## Project B\n- [ ] b\n");
    assert_eq!(list.sections.len(), 2);
    assert_eq!(list.sections[0].name, "Project A");
    assert_eq!(list.sections[1].name, "Project B");
}

#[test]
fn ignores_random_prose_between_headings_and_tasks() {
    let content = "# Notes\nSome intro paragraph.\n\nHere is a bullet point that is not a task: foo\n- [ ] Real task\nAnother random line\n## Sub\nMore prose\n- [x] Done subtask\n";
    let list = parse(content);
    assert_eq!(list.sections.len(), 1);
    assert_eq!(list.sections[0].name, "Notes");
    assert_eq!(list.sections[0].tasks.len(), 1);
    assert_eq!(list.sections[0].tasks[0].text, "Real task");
    assert_eq!(list.sections[0].children.len(), 1);
    assert_eq!(list.sections[0].children[0].name, "Sub");
    assert!(list.sections[0].children[0].tasks[0].is_done);
}

fn task(text: &str, is_done: bool, due: Option<Date>) -> Task {
    Task { text: text.to_string(), is_done, due }
}

fn section(name: &str, tasks: Vec<Task>, children: Vec<Section>) -> Section {
    Section { name: name.to_string(), tasks, children }
}

#[test]
fn write_then_parse_roundtrip() {
    let list = TodoList {
        sections: vec![section(
            "main",
            vec![task("Pending task", false, None), task("Done task", true, Some(ymd(2025, 3, 20)))],
            vec![section(
                "sub1",
                vec![task("Sub task", false, None)],
                vec![section("subsub", vec![task("Deep task", false, None)], vec![])],
            )],
        )],
    };
    let parsed = parse(&write_file(&list));
    assert_eq!(parsed.sections.len(), 1);
    assert_eq!(parsed.sections[0].name, "main");
    assert_eq!(parsed.sections[0].tasks.len(), 2);
    assert!(!parsed.sections[0].tasks[0].is_done);
    assert!(parsed.sections[0].tasks[1].is_done);
    assert_eq!(parsed.sections[0].tasks[1].due, Some(ymd(2025, 3, 20)));
    assert_eq!(parsed.sections[0].children.len(), 1);
    assert_eq!(parsed.sections[0].children[0].name, "sub1");
    assert_eq!(parsed.sections[0].children[0].tasks.len(), 1);
    assert_eq!(parsed.sections[0].children[0].children[0].name, "subsub");
    assert_eq!(parsed.sections[0].children[0].children[0].tasks[0].text, "Deep task");
}

#[test]
fn write_file_done_marker() {
    let list = TodoList {
        sections: vec![section("s", vec![task("a", false, None), task("b", true, None)], vec![])],
    };
    let content = write_file(&list);
    assert!(content.contains("- [ ] a"));
    assert!(content.contains("- [x] b"));
}

#[test]
fn write_file_due_date_format() {
    let list = TodoList {
        sections: vec![section("s", vec![task("deadline", false, Some(ymd(2025, 12, 1)))], vec![])],
    };
    let content = write_file(&list);
    assert!(content.contains("due:2025-12-01"));
}

#[test]
fn write_file_section_and_subsection_headings() {
    let list = TodoList {
        sections: vec![section("Projects", Vec::new(), vec![section("Rust", Vec::new(), Vec::new())])],
    };
    let content = write_file(&list);
    assert!(content.contains("# Projects"));
    assert!(content.contains("## Rust"));
}

#[test]
fn write_file_four_level_headings() {
    let list = TodoList {
        sections: vec![section(
            "a",
            Vec::new(),
            vec![section(
                "b",
                Vec::new(),
                vec![section("c", Vec::new(), vec![section("d", vec![task("deep", false, None)], vec![])])],
            )],
        )],
    };
    let content = write_file(&list);
    assert!(content.contains("# a"));
    assert!(content.contains("## b"));
    assert!(content.contains("### c"));
    assert!(content.contains("#### d"));
    assert!(content.contains("- [ ] deep"));
}

#[test]
fn write_empty_todolist_produces_empty_file() {
    let list = TodoList::default();
    let content = write_file(&list);
    assert!(content.is_empty());
}

#[test]
fn write_file_spacing_rules() {
    let list = TodoList {
        sections: vec![section(
            "Section 1",
            vec![task("Task 1", false, None)],
            vec![section("Subsection 1", vec![task("Task 2", false, None)], Vec::new())],
        )],
    };
    let content = write_file(&list);
    let expected = "# Section 1\n\n- [ ] Task 1\n\n## Subsection 1\n\n- [ ] Task 2\n";
    assert_eq!(content, expected);
}

#[test]
fn test_resolve_relative_date() {
    let today = today();
    assert_eq!(resolve_relative_date("today"), Some(today));
    assert_eq!(resolve_relative_date("tod"), Some(today));
    assert_eq!(resolve_relative_date("t"), Some(today));
    assert_eq!(resolve_relative_date("TOMORROW"), Some(today.add_days(1)));
    assert_eq!(resolve_relative_date(" tmw "), Some(today.add_days(1)));
    assert_eq!(resolve_relative_date("next week"), Some(today.add_days(7)));
    assert_eq!(resolve_relative_date("nw"), Some(today.add_days(7)));
    assert_eq!(resolve_relative_date("2025-06-15"), Some(ymd(2025, 6, 15)));
    assert_eq!(resolve_relative_date("invalid-date"), None);
    assert_eq!(resolve_relative_date(""), None);
}

#[test]
fn test_resolve_weekday_shortcuts() {
    let today = today();
    let result = resolve_relative_date("mon").unwrap();
    assert!(result > today, "weekday shortcut must be in the future");
    let result = resolve_relative_date("Monday").unwrap();
    assert!(result > today);
    for day in &["sun", "mon", "tue", "wed", "thu", "fri", "sat"] {
        let result = resolve_relative_date(day).unwrap();
        assert!(result > today, "{day} should resolve to a future date");
    }
    for day in &["Sunday", "Monday", "Tuesday", "Wednesday", "Thursday", "Friday", "Saturday"] {
        let result = resolve_relative_date(day).unwrap();
        assert!(result > today, "{day} should resolve to a future date");
    }
}

#[test]
fn test_next_weekday_logic() {
    let monday = ymd(2025, 7, 21);
    assert_eq!(next_weekday(monday, Weekday::Tue), ymd(2025, 7, 22));
    assert_eq!(next_weekday(monday, Weekday::Mon), ymd(2025, 7, 28));
    assert_eq!(next_weekday(monday, Weekday::Sun), ymd(2025, 7, 27));
}
