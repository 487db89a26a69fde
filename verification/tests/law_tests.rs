use chrono::Datelike;
use grc::date::{resolve_relative_date_on, Date};
use grc::edit::{backspace_at_cursor, char_to_byte, delete_at_cursor, insert_at_cursor, move_left, move_right};
use grc::engine::{handle_key, refresh, sync_selection_states};
use grc::filter::build_visible_tree_items;
use grc::normal::{handle_filter, handle_normal};
use grc::ops::delete_tree_node;
use grc::parser::{parse_file, write_file};
use grc::refs::{get_task_from_ref, get_task_refs, get_task_refs_filtered};
use grc::render::{
    centered_rect, due_status, indent, left_rows, right_rows, right_title, section_label_text,
    split_at_char, DueStatus,
    LeftRow, Rect, RightRowKind,
};
use grc::state::{AppState, ClipboardItem, Focus, Key, Mode, TreeItem};
use grc::task::{Section, Task, TodoList};
use grc::tree::{build_tree_items, count_tasks, insert_section, remove_section, TreeError};

fn ymd(y: i32, m: u32, d: u32) -> Date {
    Date::from_days(chrono::NaiveDate::from_ymd_opt(y, m, d).unwrap().num_days_from_ce()).unwrap()
}

fn task(text: &str, is_done: bool, due: Option<Date>) -> Task {
    Task { text: text.to_string(), is_done, due }
}

fn section(name: &str, tasks: Vec<Task>, children: Vec<Section>) -> Section {
    Section { name: name.to_string(), tasks, children }
}

fn sample() -> TodoList {
    TodoList {
        sections: vec![
            section(
                "Wörk",
                vec![task("Écrire le rapport", false, Some(ymd(2024, 2, 29))), task("ship", true, None)],
                vec![section(
                    "backend",
                    vec![task("Fix API", false, Some(ymd(2025, 1, 15)))],
                    vec![section("api", vec![task("endpoint", false, None)], vec![])],
                )],
            ),
            section("home", vec![task("milk", false, None)], vec![]),
        ],
    }
}

#[test]
fn read_after_write_gives_the_list_back() {
    let list = sample();
    let text = write_file(&list);
    let parsed = parse_file(&text).unwrap();
    assert_eq!(parsed, list);
}

#[test]
fn written_file_holds_dates_and_nesting() {
    let text = write_file(&sample());
    assert!(text.starts_with("# Wörk\n\n- [ ] Écrire le rapport due:2024-02-29\n- [x] ship\n\n## backend\n"));
    assert!(text.contains("### api\n\n- [ ] endpoint\n"));
}

#[test]
fn sort_orders_by_due_date_and_is_stable() {
    let content = "# s\n- [ ] n1\n- [ ] b due:2025-02-01\n- [ ] a due:2025-01-01\n- [ ] n2\n- [ ] b2 due:2025-02-01\n";
    let mut list = parse_file(content).unwrap();
    let mut app = AppState::new(1);
    app.tree_items = build_tree_items(&list, &app.mode);
    app.focus = Focus::Right;
    let out = handle_normal(&mut app, &mut list, Key::Char(':'));
    assert!(out.save && !out.quit);
    let texts: Vec<&str> = list.sections[0].tasks.iter().map(|t| t.text.as_str()).collect();
    assert_eq!(texts, vec!["a", "b", "b2", "n1", "n2"]);
}

#[test]
fn remove_after_insert_restores_the_list() {
    let before = sample();
    let mut list = sample();
    let path = insert_section(&mut list, Some(&vec![0, 0]), 5, Section::new("new")).unwrap();
    assert_eq!(path, vec![0, 0, 1]);
    let removed = remove_section(&mut list, &path).unwrap();
    assert_eq!(removed, Section::new("new"));
    assert_eq!(list, before);
}

#[test]
fn insert_under_missing_parent_is_refused() {
    let mut list = sample();
    let err = insert_section(&mut list, Some(&vec![7]), 0, Section::new("x")).unwrap_err();
    assert_eq!(err, TreeError::ParentNotFound);
    assert_eq!(list, sample());
    assert!(remove_section(&mut list, &vec![]).is_none());
    assert!(remove_section(&mut list, &vec![0, 9]).is_none());
    assert_eq!(list, sample());
}

#[test]
fn top_level_rows_count_every_task_of_the_subtree() {
    let list = sample();
    assert_eq!(get_task_refs(&list, &vec![0]).len(), count_tasks(&list.sections[0]));
    assert_eq!(get_task_refs(&list, &vec![1]).len(), count_tasks(&list.sections[1]));
    for r in get_task_refs(&list, &vec![0]) {
        assert!(get_task_from_ref(&list, &r).is_some());
    }
}

#[test]
fn filter_keeps_only_matching_rows() {
    let list = sample();
    let all = get_task_refs_filtered(&list, &vec![0], "");
    assert_eq!(all.len(), 4);
    let by_date = get_task_refs_filtered(&list, &vec![0], "2025-01");
    assert_eq!(by_date.len(), 1);
    assert_eq!(by_date[0].node, vec![0, 0]);
    let by_text = get_task_refs_filtered(&list, &vec![0], "écrire");
    assert_eq!(by_text.len(), 1);
    assert_eq!(by_text[0].task_idx, 0);
    let none = get_task_refs_filtered(&list, &vec![0], "zzz");
    assert!(none.is_empty());
}

#[test]
fn visible_rows_match_section_names_in_lower_case() {
    let list = sample();
    let items = build_visible_tree_items(&list, &Mode::Normal, "wör");
    assert_eq!(items, vec![TreeItem::Node(vec![0])]);
    let items = build_visible_tree_items(&list, &Mode::Normal, "milk");
    assert_eq!(items, vec![TreeItem::Node(vec![1])]);
}

#[test]
fn backspace_undoes_typing() {
    let mut buf = "héllo".to_string();
    let mut cursor = 2;
    insert_at_cursor(&mut buf, &mut cursor, 'ß');
    assert_eq!(buf, "héßllo");
    assert_eq!(cursor, 3);
    backspace_at_cursor(&mut buf, &mut cursor);
    assert_eq!(buf, "héllo");
    assert_eq!(cursor, 2);
}

#[test]
fn editing_edges() {
    let mut buf = "ab".to_string();
    let mut cursor = 9;
    insert_at_cursor(&mut buf, &mut cursor, 'c');
    assert_eq!(buf, "abc");
    assert_eq!(cursor, 10);
    delete_at_cursor(&mut buf, 3);
    assert_eq!(buf, "abc");
    delete_at_cursor(&mut buf, 0);
    assert_eq!(buf, "bc");
    let mut c = 0;
    move_left(&mut c);
    assert_eq!(c, 0);
    let mut c = 2;
    move_right(&mut c, "bc");
    assert_eq!(c, 2);
    move_left(&mut c);
    assert_eq!(c, 1);
}

#[test]
fn byte_offsets_and_splits_follow_characters() {
    assert_eq!(char_to_byte("héllo", 0), 0);
    assert_eq!(char_to_byte("héllo", 2), 3);
    assert_eq!(char_to_byte("héllo", 99), 6);
    assert_eq!(split_at_char("a›b", 1), ("a", "›b"));
    assert_eq!(split_at_char("a›b", 2), ("a›", "b"));
    assert_eq!(split_at_char("abc", 7), ("abc", ""));
}

#[test]
fn indent_and_centred_window() {
    assert_eq!(indent(0), "");
    assert_eq!(indent(3), "      ");
    let r = centered_rect(65, 46, Rect { x: 0, y: 0, width: 100, height: 40 });
    assert_eq!(r, Rect { x: 17, y: 0, width: 65, height: 40 });
    let r = centered_rect(50, 10, Rect { x: 2, y: 3, width: 40, height: 30 });
    assert_eq!(r, Rect { x: 12, y: 13, width: 20, height: 10 });
}

#[test]
fn due_status_on_each_side_of_today() {
    let today = ymd(2025, 6, 1);
    assert_eq!(due_status(false, ymd(2025, 5, 31), today), DueStatus::Overdue);
    assert_eq!(due_status(false, today, today), DueStatus::Today);
    assert_eq!(due_status(false, ymd(2025, 6, 2), today), DueStatus::Later);
    assert_eq!(due_status(true, ymd(2025, 5, 31), today), DueStatus::Done);
}

#[test]
fn relative_dates_on_a_given_day() {
    let today = ymd(2025, 7, 21);
    assert_eq!(resolve_relative_date_on("Tomorrow", today), Some(ymd(2025, 7, 22)));
    assert_eq!(resolve_relative_date_on("fri", today), Some(ymd(2025, 7, 25)));
    assert_eq!(resolve_relative_date_on("mon", today), Some(ymd(2025, 7, 28)));
    assert_eq!(resolve_relative_date_on("2025-13-01", today), None);
    assert_eq!(resolve_relative_date_on("   ", today), None);
    assert_eq!(resolve_relative_date_on(" TODAY ", today), Some(today));
    assert_eq!(resolve_relative_date_on("NW", today), Some(ymd(2025, 7, 28)));
    assert_eq!(resolve_relative_date_on("Fri", today), Some(ymd(2025, 7, 25)));
}

#[test]
fn filter_typing_lowercases() {
    let mut app = AppState::new(0);
    app.mode = Mode::Filter;
    handle_filter(&mut app, Key::Char('W'));
    handle_filter(&mut app, Key::Char('Ö'));
    assert_eq!(app.filter, "WÖ");
    assert_eq!(app.filter_lower, "wö");
    handle_filter(&mut app, Key::Backspace);
    assert_eq!(app.filter_lower, "w");
    handle_filter(&mut app, Key::Esc);
    assert_eq!(app.filter, "");
    assert_eq!(app.mode, Mode::Normal);
}

#[test]
fn lowered_filter_follows_the_filter_through_keys() {
    let mut list = sample();
    let mut app = AppState::new(2);
    for key in [Key::Char('/'), Key::Char('A'), Key::Char('b'), Key::Enter, Key::Char('j'), Key::Backspace] {
        handle_key(&mut app, &mut list, key, false);
        assert_eq!(app.filter_lower, app.filter.to_lowercase());
    }
    assert_eq!(app.filter, "Ab");
    handle_key(&mut app, &mut list, Key::Char('/'), false);
    handle_key(&mut app, &mut list, Key::Backspace, false);
    handle_key(&mut app, &mut list, Key::Backspace, false);
    assert_eq!(app.filter, "");
    assert_eq!(app.filter_lower, "");
    handle_key(&mut app, &mut list, Key::Char('X'), false);
    handle_key(&mut app, &mut list, Key::Enter, false);
    handle_key(&mut app, &mut list, Key::Esc, false);
    assert_eq!(app.filter, "");
    assert_eq!(app.filter_lower, "");
}

#[test]
fn help_mode_scrolls_and_closes() {
    let mut list = sample();
    let mut app = AppState::new(2);
    app.mode = Mode::Help;
    handle_key(&mut app, &mut list, Key::Up, false);
    assert_eq!(app.help_scroll, 0);
    handle_key(&mut app, &mut list, Key::Char('j'), false);
    assert_eq!(app.help_scroll, 1);
    handle_key(&mut app, &mut list, Key::Char('/'), false);
    assert_eq!(app.mode, Mode::Filter);
    assert_eq!(app.left_state.selected(), Some(0));
    let out = handle_key(&mut app, &mut list, Key::Char('c'), true);
    assert!(out.quit);
}

#[test]
fn pending_keys_need_their_second_key() {
    let mut list = sample();
    let mut app = AppState::new(2);
    refresh(&mut app, &list);
    handle_normal(&mut app, &mut list, Key::Char('d'));
    assert!(app.pending_d);
    handle_normal(&mut app, &mut list, Key::Char('x'));
    assert!(!app.pending_d);
    assert_eq!(list, sample());
    handle_normal(&mut app, &mut list, Key::Char('G'));
    assert_eq!(app.left_state.selected(), Some(3));
    handle_normal(&mut app, &mut list, Key::Char('g'));
    handle_normal(&mut app, &mut list, Key::Char('g'));
    assert_eq!(app.left_state.selected(), Some(0));
    let out = handle_normal(&mut app, &mut list, Key::Char('q'));
    assert!(out.quit);
}

#[test]
fn dd_on_a_section_moves_it_to_the_clipboard() {
    let mut list = sample();
    let mut app = AppState::new(2);
    refresh(&mut app, &list);
    app.left_state.select(Some(3));
    let saved = delete_tree_node(&mut app, &mut list);
    assert!(saved);
    assert_eq!(list.sections.len(), 1);
    assert_eq!(app.left_state.selected(), Some(2));
    assert!(matches!(app.clipboard, Some(ClipboardItem::Section(ref s)) if s.name == "home"));
}

#[test]
fn typing_pins_the_new_rows() {
    let list = sample();
    let mut app = AppState::new(2);
    app.mode = Mode::InputSection { node: None, parent: None, insert_idx: Some(1), buf: String::new(), cursor: 0 };
    refresh(&mut app, &list);
    assert_eq!(app.tree_items[3], TreeItem::GhostRow(0));
    assert_eq!(app.left_state.selected(), Some(3));
    app.mode = Mode::InputTask { editing_idx: None, insert_idx: Some(9), above: false, buf: String::new(), cursor: 0 };
    app.tree_items = build_tree_items(&list, &Mode::Normal);
    app.left_state.select(Some(0));
    sync_selection_states(&mut app, &list);
    assert_eq!(app.right_state.selected(), Some(4));
}

#[test]
fn panels_show_rows_with_breadcrumbs_and_due_dates() {
    let list = sample();
    let mut app = AppState::new(2);
    refresh(&mut app, &list);
    let left = left_rows(&list, &app);
    assert_eq!(left.len(), 4);
    assert!(matches!(&left[0], LeftRow::Section { depth: 0, name, count: Some(4) } if name == "Wörk"));
    assert!(matches!(&left[2], LeftRow::Section { depth: 2, name, count: Some(1) } if name == "api"));
    assert_eq!(right_title(&list, &app), "  Wörk  ");
    let rows = right_rows(&list, &app, 40, ymd(2024, 3, 1));
    assert_eq!(rows.len(), 4);
    match &rows[0].kind {
        RightRowKind::Task { text, due: Some((d, status)), pad } => {
            assert_eq!(text, "Écrire le rapport");
            assert_eq!(d, "2024-02-29");
            assert_eq!(*status, DueStatus::Overdue);
            assert_eq!(*pad, 40 - (6 + "Écrire le rapport".len() + 6 + 10));
        }
        _ => panic!("expected a task row"),
    }
    assert_eq!(rows[3].sub_name.as_deref(), Some("backend › api"));
    app.mode = Mode::InputTask { editing_idx: None, insert_idx: Some(1), above: false, buf: "x".to_string(), cursor: 1 };
    let rows = right_rows(&list, &app, 40, ymd(2024, 3, 1));
    assert_eq!(rows.len(), 5);
    assert!(matches!(&rows[1].kind, RightRowKind::New { buf } if buf == "x"));
}

#[test]
fn section_labels_show_indent_name_and_count() {
    assert_eq!(section_label_text(0, "Wörk", Some(4)), "Wörk (4)");
    assert_eq!(section_label_text(2, "api", Some(10)), "    api (10)");
    assert_eq!(section_label_text(1, "x", Some(0)), "  x (0)");
    assert_eq!(section_label_text(1, "x", None), "  x (?)");
    assert_eq!(section_label_text(0, "big", Some(usize::MAX)), format!("big ({})", usize::MAX));
}
