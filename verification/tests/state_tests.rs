use grc::state::{AppState, Focus, Mode, TreeItem};

#[test]
fn new_with_zero_sections_no_left_selection() {
    let app = AppState::new(0);
    assert!(app.left_state.selected().is_none());
}

#[test]
fn new_with_sections_selects_first() {
    let app = AppState::new(3);
    assert_eq!(app.left_state.selected(), Some(0));
}

#[test]
fn new_right_state_selects_first() {
    let app = AppState::new(1);
    assert_eq!(app.right_state.selected(), Some(0));
}

#[test]
fn default_mode_is_normal() {
    let app = AppState::new(1);
    assert_eq!(app.mode, Mode::Normal);
}

#[test]
fn default_focus_is_left() {
    let app = AppState::new(1);
    assert_eq!(app.focus, Focus::Left);
}

#[test]
fn pending_keys_are_initially_false() {
    let app = AppState::new(1);
    assert!(!app.pending_d);
    assert!(!app.pending_g);
}

#[test]
fn tree_items_starts_empty() {
    let app = AppState::new(2);
    assert!(app.tree_items.is_empty());
}

#[test]
fn focus_variants_are_distinct() {
    assert_ne!(Focus::Left, Focus::Right);
}

#[test]
fn tree_item_node_equality() {
    assert_eq!(TreeItem::Node(vec![0]), TreeItem::Node(vec![0]));
    assert_ne!(TreeItem::Node(vec![0]), TreeItem::Node(vec![1]));
}

#[test]
fn tree_item_node_vs_ghost() {
    assert_ne!(TreeItem::Node(vec![0]), TreeItem::GhostRow(0));
}
