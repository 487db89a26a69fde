use grc::filter::build_visible_tree_items;
use grc::refs::{get_task_from_ref, get_task_from_ref_mut, get_task_refs, get_task_refs_filtered};
use grc::state::{AppState, Mode, TaskRef, TreeItem};
use grc::task::{Section, Task, TodoList};
use grc::tree::{
    build_tree_items, child_count, count_tasks, insert_section, node_name, remove_section,
    selected_node,
};

fn task(text: &str, is_done: bool) -> Task {
    Task { text: text.to_string(), is_done, due: None }
}

fn sample_todo_list() -> TodoList {
    TodoList {
        sections: vec![
            Section {
                name: "work".to_string(),
                tasks: vec![task("Task A", false), task("Task B", true)],
                children: vec![Section {
                    name: "backend".to_string(),
                    tasks: vec![task("Fix API", false)],
                    children: vec![Section {
                        name: "api".to_string(),
                        tasks: vec![task("Fix endpoint", false)],
                        children: vec![],
                    }],
                }],
            },
            Section {
                name: "personal".to_string(),
                tasks: vec![task("Buy milk", false)],
                children: vec![],
            },
        ],
    }
}

#[test]
fn build_tree_items_in_normal_mode() {
    let list = sample_todo_list();
    let items = build_tree_items(&list, &Mode::Normal);
    assert_eq!(items.len(), 4);
    assert_eq!(items[0], TreeItem::Node(vec![0]));
    assert_eq!(items[1], TreeItem::Node(vec![0, 0]));
    assert_eq!(items[2], TreeItem::Node(vec![0, 0, 0]));
    assert_eq!(items[3], TreeItem::Node(vec![1]));
}

#[test]
fn build_tree_items_empty_list() {
    let list = TodoList::default();
    let items = build_tree_items(&list, &Mode::Normal);
    assert!(items.is_empty());
}

#[test]
fn selected_node_returns_none_when_nothing_selected() {
    let mut app = AppState::new(0);
    app.tree_items = vec![TreeItem::Node(vec![0])];
    assert!(selected_node(&app).is_none());
}

#[test]
fn selected_node_returns_correct_node() {
    let mut app = AppState::new(2);
    app.tree_items = vec![
        TreeItem::Node(vec![0]),
        TreeItem::Node(vec![0, 0]),
        TreeItem::Node(vec![1]),
    ];
    app.left_state.select(Some(1));
    assert_eq!(selected_node(&app), Some(vec![0, 0]));
}

#[test]
fn selected_node_returns_none_on_ghost() {
    let mut app = AppState::new(0);
    app.tree_items = vec![TreeItem::GhostRow(0)];
    app.left_state.select(Some(0));
    assert!(selected_node(&app).is_none());
}

#[test]
fn node_name_for_section() {
    let list = sample_todo_list();
    assert_eq!(node_name(&list, &vec![0]), "work");
    assert_eq!(node_name(&list, &vec![1]), "personal");
    assert_eq!(node_name(&list, &vec![0, 0]), "backend");
}

#[test]
fn build_visible_tree_items_empty_filter_keeps_all() {
    let list = sample_todo_list();
    let items = build_visible_tree_items(&list, &Mode::Normal, "");
    assert_eq!(items.len(), 4);
}

#[test]
fn build_visible_tree_items_filters_sections_case_insensitive() {
    let list = sample_todo_list();
    let items = build_visible_tree_items(&list, &Mode::Normal, "personal");
    assert_eq!(items.len(), 1);
    assert_eq!(items[0], TreeItem::Node(vec![1]));
}

#[test]
fn build_visible_tree_items_includes_matching_parent_of_nested_task() {
    let list = sample_todo_list();
    let items = build_visible_tree_items(&list, &Mode::Normal, "endpoint");
    assert_eq!(items.len(), 3);
    assert_eq!(items[0], TreeItem::Node(vec![0]));
    assert_eq!(items[1], TreeItem::Node(vec![0, 0]));
    assert_eq!(items[2], TreeItem::Node(vec![0, 0, 0]));
}

#[test]
fn get_task_refs_filtered_narrows_by_text() {
    let list = sample_todo_list();
    let refs = get_task_refs_filtered(&list, &vec![0], "backend");
    assert_eq!(refs.len(), 2);
    assert_eq!(refs[0].node, vec![0, 0]);
    assert_eq!(refs[0].task_idx, 0);
    assert_eq!(refs[1].node, vec![0, 0, 0]);
    assert_eq!(refs[1].task_idx, 0);
}

#[test]
fn get_task_refs_filtered_empty_filter_returns_all() {
    let list = sample_todo_list();
    let refs = get_task_refs_filtered(&list, &vec![0], "");
    assert_eq!(refs.len(), 4);
}

#[test]
fn count_tasks_includes_all_descendants() {
    let list = sample_todo_list();
    assert_eq!(count_tasks(&list.sections[0]), 4);
}

#[test]
fn count_tasks_section_only() {
    let list = sample_todo_list();
    assert_eq!(count_tasks(&list.sections[1]), 1);
}

#[test]
fn count_tasks_empty_section() {
    let sec = Section { name: "empty".to_string(), tasks: Vec::new(), children: Vec::new() };
    assert_eq!(count_tasks(&sec), 0);
}

#[test]
fn task_refs_for_top_level_flattens_subtree() {
    let list = sample_todo_list();
    let refs = get_task_refs(&list, &vec![0]);
    assert_eq!(refs.len(), 4);
    assert_eq!(refs[0].node, vec![0]);
    assert_eq!(refs[0].task_idx, 0);
    assert_eq!(refs[0].sub_name, None);
    assert_eq!(refs[1].node, vec![0]);
    assert_eq!(refs[1].task_idx, 1);
    assert_eq!(refs[1].sub_name, None);
    assert_eq!(refs[2].node, vec![0, 0]);
    assert_eq!(refs[2].task_idx, 0);
    assert_eq!(refs[2].sub_name.as_deref(), Some("backend"));
    assert_eq!(refs[3].node, vec![0, 0, 0]);
    assert_eq!(refs[3].task_idx, 0);
    assert_eq!(refs[3].sub_name.as_deref(), Some("backend › api"));
}

#[test]
fn task_refs_for_nested_node_lists_direct_only() {
    let list = sample_todo_list();
    let refs = get_task_refs(&list, &vec![0, 0]);
    assert_eq!(refs.len(), 1);
    assert_eq!(refs[0].node, vec![0, 0]);
    assert_eq!(refs[0].task_idx, 0);
    assert_eq!(refs[0].sub_name, None);
}

#[test]
fn task_refs_for_out_of_bounds_section() {
    let list = sample_todo_list();
    let refs = get_task_refs(&list, &vec![99]);
    assert!(refs.is_empty());
}

#[test]
fn get_task_from_ref_subsection_task() {
    let list = sample_todo_list();
    let r = TaskRef { node: vec![0, 0, 0], task_idx: 0, sub_name: Some("api".to_string()) };
    let task = get_task_from_ref(&list, &r).unwrap();
    assert_eq!(task.text, "Fix endpoint");
}

#[test]
fn get_task_from_ref_mut_modifies_task() {
    let mut list = sample_todo_list();
    let r = TaskRef { node: vec![0], task_idx: 0, sub_name: None };
    let task = get_task_from_ref_mut(&mut list, &r).unwrap();
    task.is_done = true;
    task.text = "Modified".to_string();
    assert!(list.sections[0].tasks[0].is_done);
    assert_eq!(list.sections[0].tasks[0].text, "Modified");
}

#[test]
fn get_task_from_ref_mut_nested_subsection() {
    let mut list = sample_todo_list();
    let r = TaskRef { node: vec![0, 0, 0], task_idx: 0, sub_name: Some("api".to_string()) };
    let task = get_task_from_ref_mut(&mut list, &r).unwrap();
    task.text = "Updated endpoint".to_string();
    assert_eq!(list.sections[0].children[0].children[0].tasks[0].text, "Updated endpoint");
}

#[test]
fn insert_section_top_level() {
    let mut list = sample_todo_list();
    let path = insert_section(&mut list, None, 1, Section::new("inserted")).unwrap();
    assert_eq!(path, vec![1]);
    assert_eq!(list.sections.len(), 3);
    assert_eq!(list.sections[1].name, "inserted");
}

#[test]
fn insert_section_nested() {
    let mut list = sample_todo_list();
    let path = insert_section(&mut list, Some(&vec![0]), 0, Section::new("child")).unwrap();
    assert_eq!(path, vec![0, 0]);
    assert_eq!(list.sections[0].children[0].name, "child");
    assert_eq!(list.sections[0].children[1].name, "backend");
}

#[test]
fn remove_section_nested() {
    let mut list = sample_todo_list();
    let removed = remove_section(&mut list, &vec![0, 0]).unwrap();
    assert_eq!(removed.name, "backend");
    assert!(list.sections[0].children.is_empty());
}

#[test]
fn child_count_helper() {
    let list = sample_todo_list();
    assert_eq!(child_count(&list, None), 2);
    assert_eq!(child_count(&list, Some(&vec![0])), 1);
    assert_eq!(child_count(&list, Some(&vec![0, 0])), 1);
}
