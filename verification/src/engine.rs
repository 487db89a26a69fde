//! One step of the interface: the rows and selections shown before a key is
//! read, and what the key does in each mode.
use vstd::prelude::*;

use crate::filter::{build_visible_tree_items, visible_rows};
use crate::input::{
    due_typed, handle_input_due, handle_input_section, handle_input_task, input_due_step, input_section_step,
    input_task_step, lemma_input_keeps_filter, DueParamsModel, InputDueParams, InputSectionParams, InputTaskParams,
    SectionParamsModel, TaskParamsModel,
};
use crate::normal::{
    carry_on, filter_in_sync, filter_step, handle_filter, handle_normal, keys_ok,
    lemma_normal_keeps_filter, normal_spec, saved,
};
use crate::ops::sel_or0;
use crate::parser::clone_path;
use crate::refs::{filtered_refs, get_task_refs_filtered};
use crate::state::{items_view, AppModel, AppState, Key, Mode, ModeModel, Outcome, TreeItem, TreeItemModel};
use crate::task::{SectionModel, TodoList};
use crate::text::{lower, trim};
use crate::tree::{min_int, selected_node, selected_path};

verus! {

/// The first position at or after `i` of a row for a section being typed.
pub open spec fn first_ghost(items: Seq<TreeItemModel>, i: int) -> Option<int>
    decreases items.len() - i,
{
    if i < 0 || i >= items.len() {
        None
    } else if items[i] is GhostRow {
        Some(i)
    } else {
        first_ghost(items, i + 1)
    }
}

/// The selections that typing pins: the row of a new section being typed in
/// the tree, the row where a new task will go in the task panel.
pub open spec fn sync_spec(app: AppModel, list: Seq<SectionModel>) -> AppModel {
    match app.mode {
        ModeModel::InputSection { node: None, .. } => match first_ghost(app.tree_items, 0) {
            Some(p) => AppModel { left: Some(p as usize), ..app },
            None => app,
        },
        ModeModel::InputTask { editing_idx: None, insert_idx, .. } => match selected_path(app) {
            Some(node) => {
                let n = filtered_refs(list, node, app.filter_lower).len() as int;
                AppModel {
                    right: Some(
                        (match insert_idx {
                            Some(k) => min_int(k as int, n),
                            None => n,
                        }) as usize,
                    ),
                    ..app
                }
            },
            None => app,
        },
        _ => app,
    }
}

/// The position of the first row of a section being typed.
fn first_ghost_position(items: &Vec<TreeItem>) -> (r: Option<usize>)
    ensures
        match r {
            Some(i) => first_ghost(items_view(items@), 0) == Some(i as int),
            None => first_ghost(items_view(items@), 0) is None,
        },
{
    let ghost iv = items_view(items@);
    let mut i: usize = 0;
    while i < items.len()
        invariant
            iv == items_view(items@),
            0 <= i <= items@.len(),
            first_ghost(iv, 0) == first_ghost(iv, i as int),
        decreases items@.len() - i,
    {
        assert(iv[i as int] == items@[i as int]@);
        let hit = match &items[i] {
            TreeItem::GhostRow(_) => true,
            TreeItem::Node(_) => false,
        };
        if hit {
            return Some(i);
        }
        i = i + 1;
    }
    None
}

/// Selects what typing pins (see `sync_spec`).
pub fn sync_selection_states(app: &mut AppState, todo_list: &TodoList)
    ensures
        final(app)@ == sync_spec(old(app)@, todo_list@),
{
    let ghosting = match &app.mode {
        Mode::InputSection { node: None, .. } => true,
        _ => false,
    };
    if ghosting {
        match first_ghost_position(&app.tree_items) {
            Some(i) => app.left_state.select(Some(i)),
            None => {},
        }
        return ;
    }
    let insert_idx = match &app.mode {
        Mode::InputTask { editing_idx: None, insert_idx, .. } => Some(*insert_idx),
        _ => None,
    };
    match insert_idx {
        Some(at) => match selected_node(app) {
            Some(node) => {
                let n = get_task_refs_filtered(todo_list, &node, app.filter_lower.as_str()).len();
                let pos = match at {
                    Some(k) => if k < n {
                        k
                    } else {
                        n
                    },
                    None => n,
                };
                app.right_state.select(Some(pos));
            },
            None => {},
        },
        None => {},
    }
}

/// What the interface shows before reading a key: the visible rows, then the
/// selections that typing pins.
pub open spec fn refresh_spec(app: AppModel, list: Seq<SectionModel>) -> AppModel {
    sync_spec(AppModel { tree_items: visible_rows(list, app.mode, app.filter_lower), ..app }, list)
}

/// Rebuilds the visible rows and pins the selections (see `refresh_spec`).
pub fn refresh(app: &mut AppState, todo_list: &TodoList)
    ensures
        final(app)@ == refresh_spec(old(app)@, todo_list@),
{
    app.tree_items = build_visible_tree_items(todo_list, &app.mode, app.filter_lower.as_str());
    sync_selection_states(app, todo_list);
}

/// What a key does in the help: Esc, `q` or `?` close it, `/` starts a
/// filter (first rows selected), `j`/`k` (and the arrows) scroll.
pub open spec fn help_step(app: AppModel, key: Key) -> AppModel {
    if key == Key::Esc || key == Key::Char('q') || key == Key::Char('?') {
        AppModel { mode: ModeModel::Normal, ..app }
    } else if key == Key::Char('/') {
        AppModel { mode: ModeModel::Filter, left: Some(0usize), right: Some(0usize), ..app }
    } else if key == Key::Down || key == Key::Char('j') {
        AppModel {
            help_scroll: if app.help_scroll < u16::MAX {
                (app.help_scroll + 1) as u16
            } else {
                app.help_scroll
            },
            ..app
        }
    } else if key == Key::Up || key == Key::Char('k') {
        AppModel {
            help_scroll: if app.help_scroll > 0 {
                (app.help_scroll - 1) as u16
            } else {
                0
            },
            ..app
        }
    } else {
        app
    }
}

/// What is being typed, for a mode that types a task.
pub open spec fn task_params_of(m: ModeModel) -> TaskParamsModel {
    match m {
        ModeModel::InputTask { editing_idx, insert_idx, above, buf, cursor } => TaskParamsModel {
            editing_idx,
            insert_idx,
            above,
            buf,
            cursor,
        },
        _ => arbitrary(),
    }
}

/// What is being typed, for a mode that types a due date.
pub open spec fn due_params_of(m: ModeModel) -> DueParamsModel {
    match m {
        ModeModel::InputDue { task_idx, buf, cursor } => DueParamsModel { task_idx, buf, cursor },
        _ => arbitrary(),
    }
}

/// What is being typed, for a mode that types a section name.
pub open spec fn section_params_of(m: ModeModel) -> SectionParamsModel {
    match m {
        ModeModel::InputSection { node, parent, insert_idx, buf, cursor } => SectionParamsModel {
            node,
            parent,
            insert_idx,
            buf,
            cursor,
        },
        _ => arbitrary(),
    }
}

/// Whether a key can be handled in the state without counting past a word.
pub open spec fn key_ok(app: AppModel, key: Key) -> bool {
    &&& app.mode is Normal ==> keys_ok(app, key)
    &&& key is Char ==> match app.mode {
        ModeModel::InputTask { cursor, .. } => cursor < usize::MAX,
        ModeModel::InputDue { cursor, .. } => cursor < usize::MAX,
        ModeModel::InputSection { cursor, .. } => cursor < usize::MAX,
        _ => true,
    }
}

/// What a key does, Ctrl-C and the due date aside: it quits with Ctrl held
/// and `c`, and otherwise goes to the mode's handler.
pub open spec fn key_step(app: AppModel, list: Seq<SectionModel>, key: Key, ctrl: bool, due: Option<int>) -> (
    AppModel,
    Seq<SectionModel>,
    Outcome,
) {
    if ctrl && key == Key::Char('c') {
        (app, list, Outcome { quit: true, save: false })
    } else {
        match app.mode {
            ModeModel::Normal => normal_spec(app, list, key),
            ModeModel::Help => (help_step(app, key), list, carry_on()),
            ModeModel::InputTask { .. } => {
                let (a, l, _p, s) = input_task_step(app, list, key, task_params_of(app.mode));
                (a, l, saved(s))
            },
            ModeModel::InputDue { .. } => {
                let (a, l, _p, s) = input_due_step(app, list, key, due_params_of(app.mode), due);
                (a, l, saved(s))
            },
            ModeModel::InputSection { .. } => {
                let (a, l, _p, s) = input_section_step(app, list, key, section_params_of(app.mode));
                (a, l, saved(s))
            },
            ModeModel::Filter => (filter_step(app, key), list, carry_on()),
        }
    }
}

/// Whether the key sets a due date from typed text (Enter while one is typed).
pub open spec fn sets_due(app: AppModel, key: Key, ctrl: bool) -> bool {
    !(ctrl && key == Key::Char('c')) && app.mode is InputDue && key == Key::Enter
}

/// Handles one key (see `key_step`); when it sets a due date, the date is as
/// `due_typed` says.
pub fn handle_key(app: &mut AppState, todo_list: &mut TodoList, code: Key, ctrl: bool) -> (r: Outcome)
    requires
        key_ok(old(app)@, code),
    ensures
        !sets_due(old(app)@, code, ctrl) ==> (final(app)@, final(todo_list)@, r) == key_step(
            old(app)@,
            old(todo_list)@,
            code,
            ctrl,
            None,
        ),
        sets_due(old(app)@, code, ctrl) ==> exists|due: Option<int>|
            #[trigger] due_typed(trim(due_params_of(old(app)@.mode).buf), due) && (
                final(app)@,
                final(todo_list)@,
                r,
            ) == key_step(old(app)@, old(todo_list)@, code, ctrl, due),
{
    if ctrl && code == Key::Char('c') {
        return Outcome { quit: true, save: false };
    }
    match &app.mode {
        Mode::Normal => handle_normal(app, todo_list, code),
        Mode::Help => {
            if code == Key::Esc || code == Key::Char('q') || code == Key::Char('?') {
                app.mode = Mode::Normal;
            } else if code == Key::Char('/') {
                app.mode = Mode::Filter;
                app.left_state.select(Some(0));
                app.right_state.select(Some(0));
            } else if code == Key::Down || code == Key::Char('j') {
                if app.help_scroll < u16::MAX {
                    app.help_scroll = app.help_scroll + 1;
                }
            } else if code == Key::Up || code == Key::Char('k') {
                if app.help_scroll > 0 {
                    app.help_scroll = app.help_scroll - 1;
                }
            }
            Outcome { quit: false, save: false }
        },
        Mode::InputTask { editing_idx, insert_idx, above, buf, cursor } => {
            let mut params = InputTaskParams {
                editing_idx: *editing_idx,
                insert_idx: *insert_idx,
                above: *above,
                buf: buf.clone(),
                cursor: *cursor,
            };
            let save = handle_input_task(app, todo_list, code, &mut params);
            Outcome { quit: false, save }
        },
        Mode::InputDue { task_idx, buf, cursor } => {
            let mut params = InputDueParams { task_idx: *task_idx, buf: buf.clone(), cursor: *cursor };
            let save = handle_input_due(app, todo_list, code, &mut params);
            Outcome { quit: false, save }
        },
        Mode::InputSection { node, parent, insert_idx, buf, cursor } => {
            let mut params = InputSectionParams {
                node: match node {
                    Some(p) => Some(clone_path(p)),
                    None => None,
                },
                parent: match parent {
                    Some(p) => Some(clone_path(p)),
                    None => None,
                },
                insert_idx: *insert_idx,
                buf: buf.clone(),
                cursor: *cursor,
            };
            let save = handle_input_section(app, todo_list, code, &mut params);
            Outcome { quit: false, save }
        },
        Mode::Filter => {
            handle_filter(app, code);
            Outcome { quit: false, save: false }
        },
    }
}

/// The lower-cased filter stays the lower-case form of the filter: if it is
/// so before a key, it is so after it, whatever the mode and the key.
pub proof fn lemma_key_keeps_filter_in_sync(
    app: AppModel,
    list: Seq<SectionModel>,
    key: Key,
    ctrl: bool,
    due: Option<int>,
)
    requires
        filter_in_sync(app),
    ensures
        filter_in_sync(key_step(app, list, key, ctrl, due).0),
{
    if !(ctrl && key == Key::Char('c')) {
        match app.mode {
            ModeModel::Normal => {
                if key == Key::Esc && app.filter.len() > 0 {
                    assert(normal_spec(app, list, key).0.filter_lower =~= lower(Seq::empty()));
                } else {
                    lemma_normal_keeps_filter(app, list, key);
                }
            },
            ModeModel::Filter => {
                if key == Key::Esc {
                    assert(filter_step(app, key).filter_lower =~= lower(Seq::empty()));
                }
            },
            _ => {
                lemma_input_keeps_filter(
                    app,
                    list,
                    key,
                    task_params_of(app.mode),
                    due_params_of(app.mode),
                    section_params_of(app.mode),
                    due,
                );
            },
        }
    }
}

} // verus!
