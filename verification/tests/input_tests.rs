use chrono::Datelike;
use grc::date::Date;
use grc::input::{
    handle_input_due, handle_input_section, handle_input_task, InputDueParams, InputSectionParams,
    InputTaskParams,
};
use grc::parser::{parse_file, write_file};
use grc::state::{AppState, Focus, Key, Mode, TreeItem};
use grc::task::TodoList;
use grc::tree::build_tree_items;

fn setup(content: &str) -> (AppState, TodoList) {
    let list = parse_file(content).unwrap();
    let mut app = AppState::new(list.sections.len());
    app.tree_items = build_tree_items(&list, &app.mode);
    (app, list)
}

fn saved(list: &TodoList) -> TodoList {
    parse_file(&write_file(list)).unwrap()
}

fn task_params(editing_idx: Option<usize>, insert_idx: Option<usize>, buf: &str, cursor: usize) -> InputTaskParams {
    InputTaskParams { editing_idx, insert_idx, above: false, buf: buf.to_string(), cursor }
}

#[test]
fn input_task_esc_returns_to_normal() {
    let (mut app, mut list) = setup("# main\n- [ ] Existing\n");
    let mut params = task_params(None, None, "typed", 5);
    handle_input_task(&mut app, &mut list, Key::Esc, &mut params);
    assert_eq!(app.mode, Mode::Normal);
}

#[test]
fn input_task_backspace_pops_char() {
    let (mut app, mut list) = setup("# main\n- [ ] Existing\n");
    let mut params = task_params(None, None, "hello", 5);
    handle_input_task(&mut app, &mut list, Key::Backspace, &mut params);
    assert_eq!(params.buf, "hell");
    assert_eq!(params.cursor, 4);
}

#[test]
fn input_task_backspace_at_start_is_noop() {
    let (mut app, mut list) = setup("# main\n- [ ] Existing\n");
    let mut params = task_params(None, None, "hello", 0);
    handle_input_task(&mut app, &mut list, Key::Backspace, &mut params);
    assert_eq!(params.buf, "hello");
    assert_eq!(params.cursor, 0);
}

#[test]
fn input_task_left_then_type_inserts_in_middle() {
    let (mut app, mut list) = setup("# main\n- [ ] Existing\n");
    let mut params = task_params(None, None, "ac", 2);
    handle_input_task(&mut app, &mut list, Key::Left, &mut params);
    handle_input_task(&mut app, &mut list, Key::Char('b'), &mut params);
    assert_eq!(params.buf, "abc");
    assert_eq!(params.cursor, 2);
}

#[test]
fn input_task_right_at_end_is_noop() {
    let (mut app, mut list) = setup("# main\n- [ ] Existing\n");
    let mut params = task_params(None, None, "abc", 3);
    handle_input_task(&mut app, &mut list, Key::Right, &mut params);
    assert_eq!(params.buf, "abc");
    assert_eq!(params.cursor, 3);
}

#[test]
fn input_task_home_and_end_move_cursor() {
    let (mut app, mut list) = setup("# main\n- [ ] Existing\n");
    let mut params = task_params(None, None, "hello", 5);
    handle_input_task(&mut app, &mut list, Key::Home, &mut params);
    assert_eq!(params.cursor, 0);
    handle_input_task(&mut app, &mut list, Key::End, &mut params);
    assert_eq!(params.cursor, 5);
}

#[test]
fn input_task_delete_removes_char_after_cursor() {
    let (mut app, mut list) = setup("# main\n- [ ] Existing\n");
    let mut params = task_params(None, None, "abc", 1);
    handle_input_task(&mut app, &mut list, Key::Delete, &mut params);
    assert_eq!(params.buf, "ac");
    assert_eq!(params.cursor, 1);
}

#[test]
fn input_task_char_appends_to_buf() {
    let (mut app, mut list) = setup("# main\n- [ ] Existing\n");
    let mut params = task_params(None, None, "hel", 3);
    handle_input_task(&mut app, &mut list, Key::Char('l'), &mut params);
    assert_eq!(params.buf, "hell");
    assert_eq!(params.cursor, 4);
}

#[test]
fn input_task_enter_adds_new_task() {
    let (mut app, mut list) = setup("# main\n- [ ] Existing\n");
    app.focus = Focus::Right;
    app.right_state.select(Some(0));
    let mut params = task_params(None, Some(1), "New task", 8);
    handle_input_task(&mut app, &mut list, Key::Enter, &mut params);
    assert_eq!(app.mode, Mode::Normal);
    let parsed = saved(&list);
    assert_eq!(parsed.sections[0].tasks.len(), 2);
    assert_eq!(parsed.sections[0].tasks[1].text, "New task");
}

#[test]
fn input_task_enter_empty_buf_does_not_add() {
    let (mut app, mut list) = setup("# main\n- [ ] Existing\n");
    let mut params = task_params(None, None, "   ", 3);
    handle_input_task(&mut app, &mut list, Key::Enter, &mut params);
    let parsed = saved(&list);
    assert_eq!(parsed.sections[0].tasks.len(), 1);
}

#[test]
fn input_task_enter_edits_existing_task() {
    let (mut app, mut list) = setup("# main\n- [ ] Old text\n");
    app.focus = Focus::Right;
    app.right_state.select(Some(0));
    let mut params = task_params(Some(0), None, "Updated text", 12);
    handle_input_task(&mut app, &mut list, Key::Enter, &mut params);
    let parsed = saved(&list);
    assert_eq!(parsed.sections[0].tasks[0].text, "Updated text");
}

#[test]
fn input_task_enter_appends_to_nested_node() {
    let (mut app, mut list) = setup("# main\n## sub\n- [ ] sub task\n");
    app.focus = Focus::Right;
    app.tree_items = build_tree_items(&list, &app.mode);
    let pos = app
        .tree_items
        .iter()
        .position(|n| matches!(n, TreeItem::Node(p) if p == &vec![0, 0]))
        .unwrap();
    app.left_state.select(Some(pos));
    app.right_state.select(Some(0));
    let mut params = task_params(None, None, "Another", 7);
    handle_input_task(&mut app, &mut list, Key::Enter, &mut params);
    let parsed = saved(&list);
    assert_eq!(parsed.sections[0].children[0].tasks.len(), 2);
    assert_eq!(parsed.sections[0].children[0].tasks[1].text, "Another");
}

#[test]
fn input_task_a_below_last_root_task_stays_in_root() {
    let (mut app, mut list) = setup("# main\n- [ ] A\n- [ ] B\n## sub\n- [ ] C\n");
    app.focus = Focus::Right;
    app.left_state.select(Some(0));
    app.right_state.select(Some(1));
    let mut params = task_params(None, Some(2), "New", 3);
    handle_input_task(&mut app, &mut list, Key::Enter, &mut params);
    let parsed = saved(&list);
    assert_eq!(parsed.sections[0].tasks.len(), 3);
    assert_eq!(parsed.sections[0].tasks[2].text, "New");
    assert_eq!(parsed.sections[0].children[0].tasks.len(), 1);
    assert_eq!(parsed.sections[0].children[0].tasks[0].text, "C");
}

fn ymd(y: i32, m: u32, d: u32) -> Date {
    Date::from_days(chrono::NaiveDate::from_ymd_opt(y, m, d).unwrap().num_days_from_ce()).unwrap()
}

#[test]
fn input_due_enter_valid_date_sets_due() {
    let (mut app, mut list) = setup("# main\n- [ ] Task\n");
    app.focus = Focus::Right;
    app.right_state.select(Some(0));
    let mut params = InputDueParams { task_idx: 0, buf: "2025-06-15".to_string(), cursor: 10 };
    handle_input_due(&mut app, &mut list, Key::Enter, &mut params);
    let parsed = saved(&list);
    assert_eq!(parsed.sections[0].tasks[0].due, Some(ymd(2025, 6, 15)));
}

#[test]
fn input_due_left_then_type_inserts() {
    let (mut app, mut list) = setup("# main\n- [ ] Task\n");
    app.focus = Focus::Right;
    app.right_state.select(Some(0));
    let mut params = InputDueParams { task_idx: 0, buf: "2025".to_string(), cursor: 4 };
    handle_input_due(&mut app, &mut list, Key::Left, &mut params);
    handle_input_due(&mut app, &mut list, Key::Char('-'), &mut params);
    assert_eq!(params.buf, "202-5");
    assert_eq!(params.cursor, 4);
}

#[test]
fn input_due_enter_empty_clears_due() {
    let (mut app, mut list) = setup("# main\n- [ ] Task due:2025-01-01\n");
    app.focus = Focus::Right;
    app.right_state.select(Some(0));
    let mut params = InputDueParams { task_idx: 0, buf: String::new(), cursor: 0 };
    handle_input_due(&mut app, &mut list, Key::Enter, &mut params);
    let parsed = saved(&list);
    assert!(parsed.sections[0].tasks[0].due.is_none());
}

#[test]
fn input_due_enter_invalid_sets_none() {
    let (mut app, mut list) = setup("# main\n- [ ] Task\n");
    app.focus = Focus::Right;
    app.right_state.select(Some(0));
    let mut params = InputDueParams { task_idx: 0, buf: "not-a-date".to_string(), cursor: 10 };
    handle_input_due(&mut app, &mut list, Key::Enter, &mut params);
    let parsed = saved(&list);
    assert!(parsed.sections[0].tasks[0].due.is_none());
}

#[test]
fn input_due_esc_cancels() {
    let (mut app, mut list) = setup("# main\n- [ ] Task\n");
    let mut params = InputDueParams { task_idx: 0, buf: "2025".to_string(), cursor: 4 };
    handle_input_due(&mut app, &mut list, Key::Esc, &mut params);
    assert_eq!(app.mode, Mode::Normal);
}

fn section_params(node: Option<Vec<usize>>, parent: Option<Vec<usize>>, insert_idx: Option<usize>, buf: &str, cursor: usize) -> InputSectionParams {
    InputSectionParams { node, parent, insert_idx, buf: buf.to_string(), cursor }
}

#[test]
fn input_section_enter_creates_new_section() {
    let (mut app, mut list) = setup("# main\n");
    let mut params = section_params(None, None, None, "work", 4);
    handle_input_section(&mut app, &mut list, Key::Enter, &mut params);
    let parsed = saved(&list);
    assert_eq!(parsed.sections.len(), 2);
    assert_eq!(parsed.sections[1].name, "work");
}

#[test]
fn input_section_left_then_type_inserts() {
    let (mut app, mut list) = setup("# main\n");
    let mut params = section_params(None, None, None, "end", 1);
    handle_input_section(&mut app, &mut list, Key::Char('m'), &mut params);
    assert_eq!(params.buf, "emnd");
    assert_eq!(params.cursor, 2);
}

#[test]
fn input_section_enter_renames_existing() {
    let (mut app, mut list) = setup("# old_name\n");
    let mut params = section_params(Some(vec![0]), None, None, "new_name", 8);
    handle_input_section(&mut app, &mut list, Key::Enter, &mut params);
    let parsed = saved(&list);
    assert_eq!(parsed.sections[0].name, "new_name");
}

#[test]
fn input_section_enter_with_insert_idx() {
    let (mut app, mut list) = setup("# first\n# third\n");
    let mut params = section_params(None, None, Some(1), "second", 6);
    handle_input_section(&mut app, &mut list, Key::Enter, &mut params);
    let parsed = saved(&list);
    assert_eq!(parsed.sections.len(), 3);
    assert_eq!(parsed.sections[0].name, "first");
    assert_eq!(parsed.sections[1].name, "second");
    assert_eq!(parsed.sections[2].name, "third");
}

#[test]
fn input_section_creates_nested_child() {
    let (mut app, mut list) = setup("# main\n");
    let mut params = section_params(None, Some(vec![0]), Some(0), "child", 5);
    handle_input_section(&mut app, &mut list, Key::Enter, &mut params);
    let parsed = saved(&list);
    assert_eq!(parsed.sections[0].name, "main");
    assert_eq!(parsed.sections[0].children.len(), 1);
    assert_eq!(parsed.sections[0].children[0].name, "child");
}

#[test]
fn input_section_esc_cancels() {
    let (mut app, mut list) = setup("# main\n");
    let mut params = section_params(None, None, None, "partial", 7);
    handle_input_section(&mut app, &mut list, Key::Esc, &mut params);
    assert_eq!(app.mode, Mode::Normal);
}

#[test]
fn input_section_empty_name_does_not_create() {
    let (mut app, mut list) = setup("# main\n");
    let mut params = section_params(None, None, None, "   ", 3);
    handle_input_section(&mut app, &mut list, Key::Enter, &mut params);
    let parsed = saved(&list);
    assert_eq!(parsed.sections.len(), 1);
}
