use chrono::Datelike;
use grc::date::Date;
use grc::normal::handle_normal;
use grc::ops::{delete_task, paste_clipboard, yank_task, yank_tree_node};
use grc::parser::{parse_file, write_file};
use grc::state::{AppState, ClipboardItem, Focus, Key, Mode, TreeItem};
use grc::task::TodoList;
use grc::tree::build_tree_items;

fn setup(content: &str) -> (AppState, TodoList) {
    let list = parse_file(content).unwrap();
    let mut app = AppState::new(list.sections.len());
    app.tree_items = build_tree_items(&list, &app.mode);
    (app, list)
}

fn saved(list: &TodoList) -> TodoList {
    parse_file(&write_file(list)).unwrap()
}

#[test]
fn test_yank_and_paste_task() {
    let (mut app, mut list) = setup("# main\n- [ ] Task A\n- [ ] Task B\n");
    app.focus = Focus::Right;
    app.right_state.select(Some(0));
    yank_task(&mut app, &list);
    assert!(matches!(app.clipboard, Some(ClipboardItem::Task(_))));
    if let Some(ClipboardItem::Task(ref t)) = app.clipboard {
        assert_eq!(t.text, "Task A");
    }
    paste_clipboard(&mut app, &mut list, false);
    let parsed = saved(&list);
    assert_eq!(parsed.sections[0].tasks.len(), 3);
    assert_eq!(parsed.sections[0].tasks[0].text, "Task A");
    assert_eq!(parsed.sections[0].tasks[1].text, "Task A");
    assert_eq!(parsed.sections[0].tasks[2].text, "Task B");
}

#[test]
fn test_delete_yanks_task() {
    let (mut app, mut list) = setup("# main\n- [ ] Task A\n");
    app.focus = Focus::Right;
    app.right_state.select(Some(0));
    delete_task(&mut app, &mut list);
    let parsed = saved(&list);
    assert!(parsed.sections[0].tasks.is_empty());
    assert!(matches!(app.clipboard, Some(ClipboardItem::Task(_))));
    if let Some(ClipboardItem::Task(ref t)) = app.clipboard {
        assert_eq!(t.text, "Task A");
    }
}

#[test]
fn test_yank_and_paste_section() {
    let (mut app, mut list) = setup("# main\n# clz\n");
    app.focus = Focus::Left;
    app.left_state.select(Some(0));
    yank_tree_node(&mut app, &list);
    assert!(matches!(app.clipboard, Some(ClipboardItem::Section(_))));
    app.left_state.select(Some(1));
    app.tree_items = build_tree_items(&list, &app.mode);
    paste_clipboard(&mut app, &mut list, false);
    let parsed = saved(&list);
    assert_eq!(parsed.sections.len(), 3);
    assert_eq!(parsed.sections[0].name, "main");
    assert_eq!(parsed.sections[1].name, "clz");
    assert_eq!(parsed.sections[2].name, "main");
}

#[test]
fn test_paste_task_above() {
    let (mut app, mut list) = setup("# main\n- [ ] A\n- [ ] B\n");
    app.focus = Focus::Right;
    app.right_state.select(Some(1));
    yank_task(&mut app, &list);
    assert!(matches!(app.clipboard, Some(ClipboardItem::Task(_))));
    paste_clipboard(&mut app, &mut list, true);
    let parsed = saved(&list);
    assert_eq!(parsed.sections[0].tasks.len(), 3);
    assert_eq!(parsed.sections[0].tasks[0].text, "A");
    assert_eq!(parsed.sections[0].tasks[1].text, "B");
    assert_eq!(parsed.sections[0].tasks[2].text, "B");
}

#[test]
fn test_paste_section_above() {
    let (mut app, mut list) = setup("# main\n# clz\n");
    app.focus = Focus::Left;
    app.left_state.select(Some(0));
    yank_tree_node(&mut app, &list);
    assert!(matches!(app.clipboard, Some(ClipboardItem::Section(_))));
    app.left_state.select(Some(1));
    app.tree_items = build_tree_items(&list, &app.mode);
    paste_clipboard(&mut app, &mut list, true);
    let parsed = saved(&list);
    assert_eq!(parsed.sections.len(), 3);
    assert_eq!(parsed.sections[0].name, "main");
    assert_eq!(parsed.sections[1].name, "main");
    assert_eq!(parsed.sections[2].name, "clz");
}

#[test]
fn test_a_on_top_level_creates_child() {
    let (mut app, mut list) = setup("# main\n");
    app.focus = Focus::Left;
    app.left_state.select(Some(0));
    handle_normal(&mut app, &mut list, Key::Char('a'));
    match &app.mode {
        Mode::InputSection { node: None, parent, .. } => {
            assert_eq!(parent.as_deref(), Some([0].as_slice()));
        }
        other => panic!("expected InputSection, got {:?}", other),
    }
}

#[test]
fn test_capital_a_on_nested_creates_parent_level_above_subtree() {
    let (mut app, mut list) = setup("# main\n## sub\n");
    app.focus = Focus::Left;
    app.tree_items = build_tree_items(&list, &app.mode);
    let sub_pos = app
        .tree_items
        .iter()
        .position(|n| matches!(n, TreeItem::Node(p) if p == &vec![0, 0]))
        .unwrap();
    app.left_state.select(Some(sub_pos));
    handle_normal(&mut app, &mut list, Key::Char('A'));
    match &app.mode {
        Mode::InputSection { node: None, parent, insert_idx, .. } => {
            assert_eq!(*parent, None);
            assert_eq!(*insert_idx, Some(0));
        }
        other => panic!("expected InputSection, got {:?}", other),
    }
}

#[test]
fn test_capital_a_on_top_level_inserts_above() {
    let (mut app, mut list) = setup("# main\n# other\n");
    app.focus = Focus::Left;
    app.left_state.select(Some(1));
    handle_normal(&mut app, &mut list, Key::Char('A'));
    match &app.mode {
        Mode::InputSection { node: None, parent, insert_idx, .. } => {
            assert_eq!(*parent, None);
            assert_eq!(*insert_idx, Some(1));
        }
        other => panic!("expected InputSection, got {:?}", other),
    }
}

#[test]
fn test_o_creates_sibling_below() {
    let (mut app, mut list) = setup("# main\n# other\n");
    app.focus = Focus::Left;
    app.left_state.select(Some(0));
    handle_normal(&mut app, &mut list, Key::Char('o'));
    match &app.mode {
        Mode::InputSection { node: None, parent, insert_idx, .. } => {
            assert_eq!(*parent, None);
            assert_eq!(*insert_idx, Some(1));
        }
        other => panic!("expected InputSection, got {:?}", other),
    }
}

#[test]
fn test_capital_o_creates_sibling_above() {
    let (mut app, mut list) = setup("# main\n# other\n");
    app.focus = Focus::Left;
    app.left_state.select(Some(1));
    handle_normal(&mut app, &mut list, Key::Char('O'));
    match &app.mode {
        Mode::InputSection { node: None, parent, insert_idx, .. } => {
            assert_eq!(*parent, None);
            assert_eq!(*insert_idx, Some(1));
        }
        other => panic!("expected InputSection, got {:?}", other),
    }
}

fn ymd(y: i32, m: u32, d: u32) -> Date {
    Date::from_days(chrono::NaiveDate::from_ymd_opt(y, m, d).unwrap().num_days_from_ce()).unwrap()
}

#[test]
fn test_colon_sorts_tasks_by_due_date() {
    let content = "# main\n- [ ] C task due:2025-12-01\n- [ ] A task due:2025-01-15\n- [ ] B task\n";
    let (mut app, mut list) = setup(content);
    app.focus = Focus::Right;
    app.left_state.select(Some(0));
    app.right_state.select(Some(0));
    handle_normal(&mut app, &mut list, Key::Char(':'));
    let parsed = saved(&list);
    assert_eq!(parsed.sections[0].tasks[0].text, "A task");
    assert_eq!(parsed.sections[0].tasks[0].due, Some(ymd(2025, 1, 15)));
    assert_eq!(parsed.sections[0].tasks[1].text, "C task");
    assert_eq!(parsed.sections[0].tasks[2].text, "B task");
    assert!(parsed.sections[0].tasks[2].due.is_none());
}
