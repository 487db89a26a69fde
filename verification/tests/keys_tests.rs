use grc::date::today;
use grc::engine::{handle_key, refresh};
use grc::parser::parse_file;
use grc::state::{AppState, Focus, Key, Mode};
use grc::task::TodoList;

fn start(content: &str) -> (AppState, TodoList) {
    let list = parse_file(content).unwrap();
    let mut app = AppState::new(list.sections.len());
    refresh(&mut app, &list);
    (app, list)
}

fn press(app: &mut AppState, list: &mut TodoList, keys: &[Key]) -> bool {
    let mut saved = false;
    for k in keys {
        let out = handle_key(app, list, *k, false);
        saved |= out.save;
        refresh(app, list);
    }
    saved
}

fn typed(s: &str) -> Vec<Key> {
    s.chars().map(Key::Char).collect()
}

#[test]
fn add_a_task_at_the_end_with_capital_a() {
    let (mut app, mut list) = start("# main\n- [ ] one\n- [ ] two\n");
    press(&mut app, &mut list, &[Key::Enter]);
    assert_eq!(app.focus, Focus::Right);
    let mut keys = vec![Key::Char('A')];
    keys.extend(typed("three"));
    keys.push(Key::Enter);
    let saved = press(&mut app, &mut list, &keys);
    assert!(saved);
    assert_eq!(list.sections[0].tasks.len(), 3);
    assert_eq!(list.sections[0].tasks[2].text, "three");
    assert_eq!(app.right_state.selected(), Some(2));
    assert_eq!(app.mode, Mode::Normal);
}

#[test]
fn toggle_edit_and_date_a_task() {
    let (mut app, mut list) = start("# main\n- [ ] one\n- [ ] two\n");
    press(&mut app, &mut list, &[Key::Tab, Key::Char('j'), Key::Char('x')]);
    assert!(list.sections[0].tasks[1].is_done);
    press(&mut app, &mut list, &[Key::Char(' ')]);
    assert!(!list.sections[0].tasks[1].is_done);
    let mut keys = vec![Key::Char('i'), Key::End];
    keys.extend(typed("!"));
    keys.push(Key::Enter);
    press(&mut app, &mut list, &keys);
    assert_eq!(list.sections[0].tasks[1].text, "two!");
    let mut keys = vec![Key::Char('t')];
    keys.extend(typed("tomorrow"));
    keys.push(Key::Enter);
    press(&mut app, &mut list, &keys);
    assert_eq!(list.sections[0].tasks[1].due, Some(today().add_days(1)));
    press(&mut app, &mut list, &[Key::Char('t'), Key::Home, Key::Delete, Key::End, Key::Backspace]);
    match &app.mode {
        Mode::InputDue { buf, cursor, .. } => {
            assert_eq!(buf.chars().count(), 8);
            assert_eq!(*cursor, 8);
        }
        other => panic!("expected InputDue, got {:?}", other),
    }
    press(&mut app, &mut list, &[Key::Esc]);
    assert_eq!(app.mode, Mode::Normal);
}

#[test]
fn moving_stops_at_the_ends() {
    let (mut app, mut list) = start("# a\n- [ ] x\n# b\n# c\n");
    press(&mut app, &mut list, &[Key::Char('k')]);
    assert_eq!(app.left_state.selected(), Some(0));
    press(&mut app, &mut list, &[Key::Down, Key::Down, Key::Down, Key::Down]);
    assert_eq!(app.left_state.selected(), Some(2));
    press(&mut app, &mut list, &[Key::Char('g'), Key::Char('g')]);
    assert_eq!(app.left_state.selected(), Some(0));
    press(&mut app, &mut list, &[Key::Char('l'), Key::Char('j'), Key::Char('j'), Key::Char('G')]);
    assert_eq!(app.right_state.selected(), Some(0));
    press(&mut app, &mut list, &[Key::Char('h')]);
    assert_eq!(app.focus, Focus::Left);
}

#[test]
fn filter_narrows_the_tree_and_clears() {
    let (mut app, mut list) = start("# Work\n- [ ] report\n# Home\n- [ ] milk\n");
    let mut keys = vec![Key::Char('/')];
    keys.extend(typed("MILK"));
    press(&mut app, &mut list, &keys);
    assert_eq!(app.mode, Mode::Filter);
    assert_eq!(app.filter_lower, "milk");
    assert_eq!(app.tree_items.len(), 1);
    press(&mut app, &mut list, &[Key::Enter]);
    assert_eq!(app.mode, Mode::Normal);
    assert_eq!(app.filter, "MILK");
    press(&mut app, &mut list, &[Key::Esc]);
    assert_eq!(app.filter, "");
    assert_eq!(app.tree_items.len(), 2);
}

#[test]
fn help_opens_and_closes() {
    let (mut app, mut list) = start("# a\n");
    press(&mut app, &mut list, &[Key::Char('?')]);
    assert_eq!(app.mode, Mode::Help);
    press(&mut app, &mut list, &[Key::Char('q')]);
    assert_eq!(app.mode, Mode::Normal);
    let out = handle_key(&mut app, &mut list, Key::Char('q'), false);
    assert!(out.quit);
}

#[test]
fn rename_and_delete_a_section() {
    let (mut app, mut list) = start("# a\n# b\n");
    let mut keys = vec![Key::Char('i'), Key::Backspace];
    keys.extend(typed("alpha"));
    keys.push(Key::Enter);
    let saved = press(&mut app, &mut list, &keys);
    assert!(saved);
    assert_eq!(list.sections[0].name, "alpha");
    let saved = press(&mut app, &mut list, &[Key::Char('d'), Key::Char('d')]);
    assert!(saved);
    assert_eq!(list.sections.len(), 1);
    assert_eq!(list.sections[0].name, "b");
    let saved = press(&mut app, &mut list, &[Key::Char('P')]);
    assert!(saved);
    assert_eq!(list.sections[0].name, "alpha");
    assert_eq!(list.sections[1].name, "b");
}

#[test]
fn new_section_typed_in_place() {
    let (mut app, mut list) = start("# a\n## a1\n# b\n");
    press(&mut app, &mut list, &[Key::Char('j'), Key::Char('o')]);
    match &app.mode {
        Mode::InputSection { node: None, parent, insert_idx, .. } => {
            assert_eq!(parent.as_deref(), Some([0].as_slice()));
            assert_eq!(*insert_idx, Some(1));
        }
        other => panic!("expected InputSection, got {:?}", other),
    }
    assert_eq!(app.left_state.selected(), Some(2));
    let mut keys = typed("a2");
    keys.push(Key::Enter);
    press(&mut app, &mut list, &keys);
    assert_eq!(list.sections[0].children.len(), 2);
    assert_eq!(list.sections[0].children[1].name, "a2");
    assert_eq!(app.left_state.selected(), Some(2));
}

#[test]
fn ctrl_c_quits_in_any_mode() {
    let (mut app, mut list) = start("# a\n");
    press(&mut app, &mut list, &[Key::Char('a')]);
    let out = handle_key(&mut app, &mut list, Key::Char('c'), true);
    assert!(out.quit);
    assert!(!out.save);
}
