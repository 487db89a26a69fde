//! What the keys do while browsing the two panels, and while typing a filter.
use vstd::prelude::*;

use crate::date::chrono_format_ymd;
use crate::ops::{
    delete_task, delete_task_spec, delete_tree_node, delete_tree_node_spec, paste_clipboard,
    paste_ok, paste_spec, sel_or0, sort_spec, sort_tasks_by_due, yank_task, yank_task_spec,
    yank_tree_node, yank_tree_node_spec,
};
use crate::parser::clone_path;
use crate::refs::{
    filtered_refs, get_task_from_ref, get_task_from_ref_mut, get_task_refs_filtered, task_at,
    with_task_at,
};
use crate::state::{refs_view, AppModel, AppState, Focus, Key, Mode, ModeModel, Outcome};
use crate::task::{node_at, node_set, NodePath, SectionModel, TaskModel, TodoList};
use crate::text::{chars_of, lower, push_char, string_of, to_lowercase};
use crate::tree::{min_int, node_name, selected_node, selected_path};

verus! {

/// Nothing to stop, nothing to save.
pub open spec fn carry_on() -> Outcome {
    Outcome { quit: false, save: false }
}

/// Nothing to stop; save when the list changed.
pub open spec fn saved(save: bool) -> Outcome {
    Outcome { quit: false, save }
}

/// What a key does while a filter is typed: Esc clears the filter, Enter
/// keeps it, both go back to browsing; Backspace and characters edit it at its
/// end, and the lower-cased filter follows.
pub open spec fn filter_step(app: AppModel, key: Key) -> AppModel {
    match key {
        Key::Esc => AppModel {
            filter: Seq::empty(),
            filter_lower: Seq::empty(),
            mode: ModeModel::Normal,
            ..app
        },
        Key::Enter => AppModel { mode: ModeModel::Normal, ..app },
        Key::Backspace => {
            let f = if app.filter.len() > 0 {
                app.filter.drop_last()
            } else {
                app.filter
            };
            AppModel { filter: f, filter_lower: lower(f), ..app }
        },
        Key::Char(c) => {
            let f = app.filter.push(c);
            AppModel { filter: f, filter_lower: lower(f), ..app }
        },
        _ => app,
    }
}

/// Whether the lower-cased filter is the lower-case form of the filter.
pub open spec fn filter_in_sync(app: AppModel) -> bool {
    app.filter_lower == lower(app.filter)
}

/// Handles a key while a filter is typed (see `filter_step`).
pub fn handle_filter(app: &mut AppState, code: Key)
    ensures
        final(app)@ == filter_step(old(app)@, code),
{
    match code {
        Key::Esc => {
            app.filter = String::new();
            app.filter_lower = String::new();
            app.mode = Mode::Normal;
        },
        Key::Enter => {
            app.mode = Mode::Normal;
        },
        Key::Backspace => {
            let mut v = chars_of(app.filter.as_str());
            if v.len() > 0 {
                v.pop();
            }
            app.filter = string_of(&v);
            app.filter_lower = to_lowercase(app.filter.as_str());
        },
        Key::Char(c) => {
            push_char(&mut app.filter, c);
            app.filter_lower = to_lowercase(app.filter.as_str());
        },
        _ => {},
    }
}

/// The path of the selected section, or the empty path.
pub open spec fn sel_path_or_empty(app: AppModel) -> Seq<usize> {
    match selected_path(app) {
        Some(p) => p,
        None => Seq::empty(),
    }
}

/// The mode that types a new section under `parent` at `insert_idx`.
pub open spec fn new_section_mode(parent: Option<Seq<usize>>, insert_idx: Option<usize>) -> ModeModel {
    ModeModel::InputSection { node: None, parent, insert_idx, buf: Seq::empty(), cursor: 0 }
}

/// The keys that start a new section: `a` a first child of the selected one,
/// `A` a sibling of its parent just before it, `o` a sibling just after it,
/// `O` a sibling just before it.
pub open spec fn left_add_section_spec(app: AppModel, key: Key) -> AppModel {
    let p = sel_path_or_empty(app);
    let len = p.len();
    if key == Key::Char('a') {
        AppModel { mode: new_section_mode(selected_path(app), Some(0usize)), ..app }
    } else if key == Key::Char('A') {
        let (gp, idx) = if len == 0 {
            (None, None)
        } else if len == 1 {
            (None, Some(p[0]))
        } else {
            let g = p.take(len - 2);
            (
                if g.len() == 0 {
                    None
                } else {
                    Some(g)
                },
                Some(p[len - 2]),
            )
        };
        AppModel { mode: new_section_mode(gp, idx), ..app }
    } else if key == Key::Char('o') || key == Key::Char('O') {
        let parent = if len > 1 {
            Some(p.take(len - 1))
        } else {
            None
        };
        let idx = if len > 0 {
            Some(
                if key == Key::Char('o') {
                    (p[len - 1] + 1) as usize
                } else {
                    p[len - 1]
                },
            )
        } else {
            None
        };
        AppModel { mode: new_section_mode(parent, idx), ..app }
    } else {
        app
    }
}

/// The first `n` entries of a path.
fn path_prefix(p: &NodePath, n: usize) -> (r: NodePath)
    requires
        n <= p@.len(),
    ensures
        r@ == p@.take(n as int),
{
    let mut r: Vec<usize> = Vec::new();
    let mut i: usize = 0;
    while i < n
        invariant
            n <= p@.len(),
            0 <= i <= n,
            r@ == p@.take(i as int),
        decreases n - i,
    {
        r.push(p[i]);
        assert(p@.take(i as int).push(p@[i as int]) =~= p@.take(i + 1));
        i = i + 1;
    }
    r
}

/// The path a new section's parent is given by: the top level for none.
pub open spec fn parent_path(parent: Option<Seq<usize>>) -> Seq<usize> {
    match parent {
        Some(q) => q,
        None => Seq::empty(),
    }
}

/// Where the keys of the section tree put a new section, the selected one
/// being at path `p`: `o` and `O` make a sibling, whose parent path is `p`
/// without its last index, placed just after (`o`) or at (`O`) the selected
/// one's index; `a` makes the first child of the selected one; `A` makes a
/// sibling of its parent, placed at the parent's index. A parent is named
/// only below the top level.
pub proof fn lemma_new_section_place(app: AppModel, key: Key, p: Seq<usize>)
    requires
        selected_path(app) == Some(p),
        p.len() > 0,
        p.last() < usize::MAX,
    ensures
        ({
            let m = left_add_section_spec(app, key).mode;
            &&& key == Key::Char('o') || key == Key::Char('O') ==> (m matches ModeModel::InputSection {
                node: None,
                parent,
                insert_idx: Some(i),
                ..
            } && parent_path(parent) == p.take(p.len() - 1) && (parent is Some <==> p.len() > 1) && i
                == (if key == Key::Char('o') {
                p.last() + 1
            } else {
                p.last() as int
            }))
            &&& key == Key::Char('a') ==> (m matches ModeModel::InputSection {
                node: None,
                parent: Some(q),
                insert_idx: Some(i),
                ..
            } && q == p && i == 0)
            &&& key == Key::Char('A') ==> (m matches ModeModel::InputSection {
                node: None,
                parent,
                insert_idx: Some(i),
                ..
            } && (p.len() == 1 ==> parent is None && i == p[0]) && (p.len() > 1 ==> parent_path(
                parent,
            ) == p.take(p.len() - 2) && (parent is Some <==> p.len() > 2) && i == p[p.len() - 2]))
        }),
{
}

/// Starts typing a new section (see `left_add_section_spec`).
fn handle_normal_left_add_section(app: &mut AppState, code: Key)
    requires
        code == Key::Char('o') ==> paste_ok(old(app)@),
    ensures
        final(app)@ == left_add_section_spec(old(app)@, code),
{
    let sel = selected_node(app);
    let path_sel = match &sel {
        Some(p) => clone_path(p),
        None => Vec::new(),
    };
    let len = path_sel.len();
    if code == Key::Char('a') {
        app.mode = Mode::InputSection {
            node: None,
            parent: sel,
            insert_idx: Some(0),
            buf: String::new(),
            cursor: 0,
        };
    } else if code == Key::Char('A') {
        let (grandparent, insert_idx): (Option<NodePath>, Option<usize>) = if len == 0 {
            (None, None)
        } else if len == 1 {
            (None, Some(path_sel[0]))
        } else {
            let gp = path_prefix(&path_sel, len - 2);
            let gp_opt = if gp.len() == 0 {
                None
            } else {
                Some(gp)
            };
            (gp_opt, Some(path_sel[len - 2]))
        };
        app.mode = Mode::InputSection {
            node: None,
            parent: grandparent,
            insert_idx,
            buf: String::new(),
            cursor: 0,
        };
    } else if code == Key::Char('o') || code == Key::Char('O') {
        let parent = if len > 1 {
            Some(path_prefix(&path_sel, len - 1))
        } else {
            None
        };
        let insert_idx = if len > 0 {
            Some(
                if code == Key::Char('o') {
                    path_sel[len - 1] + 1
                } else {
                    path_sel[len - 1]
                },
            )
        } else {
            None
        };
        app.mode = Mode::InputSection {
            node: None,
            parent,
            insert_idx,
            buf: String::new(),
            cursor: 0,
        };
    }
    assert(app@.mode =~= left_add_section_spec(old(app)@, code).mode);
}

/// The name of the section at `node`, or empty text where there is none.
pub open spec fn name_at(list: Seq<SectionModel>, node: Seq<usize>) -> Seq<char> {
    match node_at(list, node) {
        Some(s) => s.name,
        None => Seq::empty(),
    }
}

/// The last row of a list of `n` rows (the first when there is none).
pub open spec fn last_row(n: int) -> usize {
    if n > 0 {
        (n - 1) as usize
    } else {
        0
    }
}

/// What a key does in the section tree: `q` quits; `j`/`k` (and the arrows)
/// move the selection; `l`, Tab or Enter focus the task panel; `a`, `A`, `o`
/// and `O` start a new section; `i` renames the selected one; `d`, `g` and
/// `y` wait for a second key; `p`/`P` paste below/above; `G` selects the last
/// row. Moving the selection selects the first task row.
pub open spec fn normal_left_spec(app: AppModel, list: Seq<SectionModel>, key: Key) -> (
    AppModel,
    Seq<SectionModel>,
    Outcome,
) {
    let n = app.tree_items.len() as int;
    let cur = sel_or0(app.left);
    if key == Key::Char('q') {
        (app, list, Outcome { quit: true, save: false })
    } else if key == Key::Char('j') || key == Key::Down {
        (
            AppModel {
                left: Some(min_int(cur + 1, last_row(n) as int) as usize),
                right: Some(0usize),
                ..app
            },
            list,
            carry_on(),
        )
    } else if key == Key::Char('k') || key == Key::Up {
        (
            AppModel {
                left: Some(
                    if cur > 0 {
                        (cur - 1) as usize
                    } else {
                        0
                    },
                ),
                right: Some(0usize),
                ..app
            },
            list,
            carry_on(),
        )
    } else if key == Key::Char('l') || key == Key::Tab || key == Key::Enter {
        (
            if selected_path(app) is Some {
                AppModel { focus: Focus::Right, ..app }
            } else {
                app
            },
            list,
            carry_on(),
        )
    } else if key == Key::Char('a') || key == Key::Char('A') || key == Key::Char('o') || key
        == Key::Char('O') {
        (left_add_section_spec(app, key), list, carry_on())
    } else if key == Key::Char('i') {
        match selected_path(app) {
            Some(node) => {
                let name = name_at(list, node);
                (
                    AppModel {
                        mode: ModeModel::InputSection {
                            node: Some(node),
                            parent: None,
                            insert_idx: None,
                            buf: name,
                            cursor: name.len() as usize,
                        },
                        ..app
                    },
                    list,
                    carry_on(),
                )
            },
            None => (app, list, carry_on()),
        }
    } else if key == Key::Char('d') {
        (AppModel { pending_d: true, ..app }, list, carry_on())
    } else if key == Key::Char('g') {
        (AppModel { pending_g: true, ..app }, list, carry_on())
    } else if key == Key::Char('y') {
        (AppModel { pending_y: true, ..app }, list, carry_on())
    } else if key == Key::Char('p') || key == Key::Char('P') {
        let (a, l, s) = paste_spec(app, list, key == Key::Char('P'));
        (a, l, saved(s))
    } else if key == Key::Char('G') {
        (AppModel { left: Some(last_row(n)), right: Some(0usize), ..app }, list, carry_on())
    } else {
        (app, list, carry_on())
    }
}

/// Whether a key that counts one past a selection can do so: `j` or Down
/// counts past the focused panel's row, `a` or `o` in the task panel past the
/// task row, `o` in the tree and a paste past the selected section's index.
/// A key that settles a pending `d`, `g` or `y` counts nothing.
pub open spec fn keys_ok(app: AppModel, key: Key) -> bool {
    !app.pending_d && !app.pending_g && !app.pending_y ==> {
        &&& (key == Key::Char('j') || key == Key::Down) ==> match app.focus {
            Focus::Left => sel_or0(app.left) < usize::MAX,
            Focus::Right => sel_or0(app.right) < usize::MAX,
        }
        &&& (app.focus == Focus::Right && (key == Key::Char('a') || key == Key::Char('o')))
            ==> sel_or0(app.right) < usize::MAX
        &&& (key == Key::Char('p') || key == Key::Char('P') || (app.focus == Focus::Left && key
            == Key::Char('o'))) ==> paste_ok(app)
    }
}

/// Handles a key in the section tree (see `normal_left_spec`).
fn handle_normal_left(app: &mut AppState, todo_list: &mut TodoList, code: Key) -> (r: Outcome)
    requires
        old(app)@.focus == Focus::Left,
        !old(app)@.pending_d && !old(app)@.pending_g && !old(app)@.pending_y,
        keys_ok(old(app)@, code),
    ensures
        (final(app)@, final(todo_list)@, r) == normal_left_spec(old(app)@, old(todo_list)@, code),
{
    let n = app.tree_items.len();
    let max = if n > 0 {
        n - 1
    } else {
        0
    };
    let cur = match app.left_state.selected() {
        Some(i) => i,
        None => 0,
    };
    if code == Key::Char('q') {
        return Outcome { quit: true, save: false };
    } else if code == Key::Char('j') || code == Key::Down {
        let next = if cur + 1 < max {
            cur + 1
        } else {
            max
        };
        app.left_state.select(Some(next));
        app.right_state.select(Some(0));
    } else if code == Key::Char('k') || code == Key::Up {
        let prev = if cur > 0 {
            cur - 1
        } else {
            0
        };
        app.left_state.select(Some(prev));
        app.right_state.select(Some(0));
    } else if code == Key::Char('l') || code == Key::Tab || code == Key::Enter {
        if selected_node(app).is_some() {
            app.focus = Focus::Right;
        }
    } else if code == Key::Char('a') || code == Key::Char('A') || code == Key::Char('o') || code
        == Key::Char('O') {
        handle_normal_left_add_section(app, code);
    } else if code == Key::Char('i') {
        match selected_node(app) {
            Some(node) => {
                let name = node_name(todo_list, &node);
                let cursor = chars_of(name.as_str()).len();
                app.mode = Mode::InputSection {
                    node: Some(node),
                    parent: None,
                    insert_idx: None,
                    buf: name,
                    cursor,
                };
            },
            None => {},
        }
    } else if code == Key::Char('d') {
        app.pending_d = true;
    } else if code == Key::Char('g') {
        app.pending_g = true;
    } else if code == Key::Char('y') {
        app.pending_y = true;
    } else if code == Key::Char('p') || code == Key::Char('P') {
        let save = paste_clipboard(app, todo_list, code == Key::Char('P'));
        return Outcome { quit: false, save };
    } else if code == Key::Char('G') {
        app.left_state.select(Some(max));
        app.right_state.select(Some(0));
    }
    Outcome { quit: false, save: false }
}

/// The keys that start a new task: `a`/`o` below the selected row, `O`
/// above it, `A` at the end of the selected section.
pub open spec fn right_add_task_spec(app: AppModel, key: Key) -> AppModel {
    let cur = sel_or0(app.right);
    if key == Key::Char('a') || key == Key::Char('o') {
        AppModel {
            mode: ModeModel::InputTask {
                editing_idx: None,
                insert_idx: Some((cur + 1) as usize),
                above: false,
                buf: Seq::empty(),
                cursor: 0,
            },
            ..app
        }
    } else if key == Key::Char('O') {
        AppModel {
            mode: ModeModel::InputTask {
                editing_idx: None,
                insert_idx: Some(cur),
                above: true,
                buf: Seq::empty(),
                cursor: 0,
            },
            ..app
        }
    } else if key == Key::Char('A') {
        AppModel {
            mode: ModeModel::InputTask {
                editing_idx: None,
                insert_idx: None,
                above: false,
                buf: Seq::empty(),
                cursor: 0,
            },
            ..app
        }
    } else {
        app
    }
}

/// Starts typing a new task (see `right_add_task_spec`).
fn handle_normal_right_add_task(app: &mut AppState, code: Key)
    requires
        code == Key::Char('a') || code == Key::Char('o') ==> sel_or0(old(app)@.right) < usize::MAX,
    ensures
        final(app)@ == right_add_task_spec(old(app)@, code),
{
    let cur = match app.right_state.selected() {
        Some(i) => i,
        None => 0,
    };
    if code == Key::Char('a') || code == Key::Char('o') {
        app.mode = Mode::InputTask {
            editing_idx: None,
            insert_idx: Some(cur + 1),
            above: false,
            buf: String::new(),
            cursor: 0,
        };
    } else if code == Key::Char('O') {
        app.mode = Mode::InputTask {
            editing_idx: None,
            insert_idx: Some(cur),
            above: true,
            buf: String::new(),
            cursor: 0,
        };
    } else if code == Key::Char('A') {
        app.mode = Mode::InputTask {
            editing_idx: None,
            insert_idx: None,
            above: false,
            buf: String::new(),
            cursor: 0,
        };
    }
    assert(app@.mode =~= right_add_task_spec(old(app)@, code).mode);
}

/// A due date written `YYYY-MM-DD`, or empty text for none.
pub open spec fn due_text(due: Option<int>) -> Seq<char> {
    match due {
        Some(d) => chrono_format_ymd(d),
        None => Seq::empty(),
    }
}

/// The task of the selected row, if a section is selected and the row is listed.
pub open spec fn selected_task(app: AppModel, list: Seq<SectionModel>) -> Option<TaskModel> {
    match selected_path(app) {
        Some(node) => {
            let refs = filtered_refs(list, node, app.filter_lower);
            let cur = sel_or0(app.right);
            if cur < refs.len() {
                task_at(list, refs[cur as int])
            } else {
                None
            }
        },
        None => None,
    }
}

/// What a key does in the task panel: `q` quits; `h`, Esc or Tab focus the
/// section tree; `j`/`k` (and the arrows) move the selection; Space, `x` or
/// Enter toggle the selected task; `a`, `o`, `O` and `A` start a new task;
/// `i` edits the selected task's text and `t` its due date; `d`, `g` and `y`
/// wait for a second key; `p`/`P` paste below/above; `G` selects the last row.
pub open spec fn normal_right_spec(app: AppModel, list: Seq<SectionModel>, key: Key) -> (
    AppModel,
    Seq<SectionModel>,
    Outcome,
) {
    let cur = sel_or0(app.right);
    if key == Key::Char('q') {
        (app, list, Outcome { quit: true, save: false })
    } else if key == Key::Char('h') || key == Key::Esc || key == Key::Tab {
        (AppModel { focus: Focus::Left, ..app }, list, carry_on())
    } else if key == Key::Char('j') || key == Key::Down {
        match selected_path(app) {
            Some(node) => {
                let n = filtered_refs(list, node, app.filter_lower).len() as int;
                (
                    AppModel { right: Some(min_int(cur + 1, last_row(n) as int) as usize), ..app },
                    list,
                    carry_on(),
                )
            },
            None => (app, list, carry_on()),
        }
    } else if key == Key::Char('k') || key == Key::Up {
        (
            AppModel {
                right: Some(
                    if cur > 0 {
                        (cur - 1) as usize
                    } else {
                        0
                    },
                ),
                ..app
            },
            list,
            carry_on(),
        )
    } else if key == Key::Char(' ') || key == Key::Char('x') || key == Key::Enter {
        match selected_path(app) {
            Some(node) => {
                let refs = filtered_refs(list, node, app.filter_lower);
                if cur < refs.len() {
                    let r = refs[cur as int];
                    let nl = match task_at(list, r) {
                        Some(t) => node_set(
                            list,
                            r.node,
                            with_task_at(
                                node_at(list, r.node)->0,
                                r.task_idx as int,
                                TaskModel { is_done: !t.is_done, ..t },
                            ),
                        ),
                        None => list,
                    };
                    (app, nl, saved(true))
                } else {
                    (app, list, carry_on())
                }
            },
            None => (app, list, carry_on()),
        }
    } else if key == Key::Char('a') || key == Key::Char('o') || key == Key::Char('O') || key
        == Key::Char('A') {
        (right_add_task_spec(app, key), list, carry_on())
    } else if key == Key::Char('i') {
        match selected_task(app, list) {
            Some(t) => (
                AppModel {
                    mode: ModeModel::InputTask {
                        editing_idx: Some(cur),
                        insert_idx: None,
                        above: false,
                        buf: t.text,
                        cursor: t.text.len() as usize,
                    },
                    ..app
                },
                list,
                carry_on(),
            ),
            None => (app, list, carry_on()),
        }
    } else if key == Key::Char('t') {
        match selected_task(app, list) {
            Some(t) => (
                AppModel {
                    mode: ModeModel::InputDue {
                        task_idx: cur,
                        buf: due_text(t.due),
                        cursor: due_text(t.due).len() as usize,
                    },
                    ..app
                },
                list,
                carry_on(),
            ),
            None => (app, list, carry_on()),
        }
    } else if key == Key::Char('d') {
        (AppModel { pending_d: true, ..app }, list, carry_on())
    } else if key == Key::Char('g') {
        (AppModel { pending_g: true, ..app }, list, carry_on())
    } else if key == Key::Char('y') {
        (AppModel { pending_y: true, ..app }, list, carry_on())
    } else if key == Key::Char('p') || key == Key::Char('P') {
        let (a, l, s) = paste_spec(app, list, key == Key::Char('P'));
        (a, l, saved(s))
    } else if key == Key::Char('G') {
        match selected_path(app) {
            Some(node) => {
                let n = filtered_refs(list, node, app.filter_lower).len() as int;
                (AppModel { right: Some(last_row(n)), ..app }, list, carry_on())
            },
            None => (app, list, carry_on()),
        }
    } else {
        (app, list, carry_on())
    }
}

/// The task of the selected row.
fn selected_task_exec<'a>(app: &AppState, todo_list: &'a TodoList) -> (r: Option<&'a crate::task::Task>)
    ensures
        match r {
            Some(t) => selected_task(app@, todo_list@) == Some(t@),
            None => selected_task(app@, todo_list@) is None,
        },
{
    let node = match selected_node(app) {
        Some(n) => n,
        None => return None,
    };
    let cur = match app.right_state.selected() {
        Some(i) => i,
        None => 0,
    };
    let refs = get_task_refs_filtered(todo_list, &node, app.filter_lower.as_str());
    if cur < refs.len() {
        assert(refs_view(refs@)[cur as int] == refs@[cur as int]@);
        get_task_from_ref(todo_list, &refs[cur])
    } else {
        None
    }
}

/// Handles a key in the task panel (see `normal_right_spec`).
fn handle_normal_right(app: &mut AppState, todo_list: &mut TodoList, code: Key) -> (r: Outcome)
    requires
        old(app)@.focus == Focus::Right,
        !old(app)@.pending_d && !old(app)@.pending_g && !old(app)@.pending_y,
        keys_ok(old(app)@, code),
    ensures
        (final(app)@, final(todo_list)@, r) == normal_right_spec(old(app)@, old(todo_list)@, code),
{
    let cur = match app.right_state.selected() {
        Some(i) => i,
        None => 0,
    };
    if code == Key::Char('q') {
        return Outcome { quit: true, save: false };
    } else if code == Key::Char('h') || code == Key::Esc || code == Key::Tab {
        app.focus = Focus::Left;
    } else if code == Key::Char('j') || code == Key::Down {
        match selected_node(app) {
            Some(node) => {
                let n = get_task_refs_filtered(todo_list, &node, app.filter_lower.as_str()).len();
                let max = if n > 0 {
                    n - 1
                } else {
                    0
                };
                let next = if cur + 1 < max {
                    cur + 1
                } else {
                    max
                };
                app.right_state.select(Some(next));
            },
            None => {},
        }
    } else if code == Key::Char('k') || code == Key::Up {
        let prev = if cur > 0 {
            cur - 1
        } else {
            0
        };
        app.right_state.select(Some(prev));
    } else if code == Key::Char(' ') || code == Key::Char('x') || code == Key::Enter {
        match selected_node(app) {
            Some(node) => {
                let refs = get_task_refs_filtered(todo_list, &node, app.filter_lower.as_str());
                if cur < refs.len() {
                    assert(refs_view(refs@)[cur as int] == refs@[cur as int]@);
                    match get_task_from_ref_mut(todo_list, &refs[cur]) {
                        Some(task) => {
                            task.is_done = !task.is_done;
                        },
                        None => {},
                    }
                    return Outcome { quit: false, save: true };
                }
            },
            None => {},
        }
    } else if code == Key::Char('a') || code == Key::Char('o') || code == Key::Char('O') || code
        == Key::Char('A') {
        handle_normal_right_add_task(app, code);
    } else if code == Key::Char('i') {
        match selected_task_exec(app, todo_list) {
            Some(task) => {
                let buf = task.text.clone();
                let cursor = chars_of(buf.as_str()).len();
                app.mode = Mode::InputTask {
                    editing_idx: Some(cur),
                    insert_idx: None,
                    above: false,
                    buf,
                    cursor,
                };
            },
            None => {},
        }
    } else if code == Key::Char('t') {
        match selected_task_exec(app, todo_list) {
            Some(task) => {
                let existing = match &task.due {
                    Some(d) => d.format_ymd(),
                    None => String::new(),
                };
                let cursor = chars_of(existing.as_str()).len();
                app.mode = Mode::InputDue { task_idx: cur, buf: existing, cursor };
            },
            None => {},
        }
    } else if code == Key::Char('d') {
        app.pending_d = true;
    } else if code == Key::Char('g') {
        app.pending_g = true;
    } else if code == Key::Char('y') {
        app.pending_y = true;
    } else if code == Key::Char('p') || code == Key::Char('P') {
        let save = paste_clipboard(app, todo_list, code == Key::Char('P'));
        return Outcome { quit: false, save };
    } else if code == Key::Char('G') {
        match selected_node(app) {
            Some(node) => {
                let n = get_task_refs_filtered(todo_list, &node, app.filter_lower.as_str()).len();
                let max = if n > 0 {
                    n - 1
                } else {
                    0
                };
                app.right_state.select(Some(max));
            },
            None => {},
        }
    }
    Outcome { quit: false, save: false }
}

/// What a key does while browsing: `?` opens the help, `:` in the task panel
/// sorts the selected section's tasks by due date, `/` starts typing a
/// filter, Esc clears a filter; a pending `d`, `g` or `y` is settled by the
/// key (`dd` deletes, `gg` selects the first row, `yy` yanks; any other key
/// only cancels it); other keys go to the focused panel.
pub open spec fn normal_spec(app: AppModel, list: Seq<SectionModel>, key: Key) -> (
    AppModel,
    Seq<SectionModel>,
    Outcome,
) {
    if key == Key::Char('?') {
        (AppModel { mode: ModeModel::Help, ..app }, list, carry_on())
    } else if key == Key::Char(':') && app.focus == Focus::Right {
        let (l, s) = sort_spec(app, list);
        (app, l, saved(s))
    } else if key == Key::Char('/') {
        (AppModel { mode: ModeModel::Filter, ..app }, list, carry_on())
    } else if key == Key::Esc && app.filter.len() > 0 {
        (AppModel { filter: Seq::empty(), filter_lower: Seq::empty(), ..app }, list, carry_on())
    } else if app.pending_d {
        let a = AppModel { pending_d: false, ..app };
        if key == Key::Char('d') {
            let (b, l, s) = match app.focus {
                Focus::Left => delete_tree_node_spec(a, list),
                Focus::Right => delete_task_spec(a, list),
            };
            (b, l, saved(s))
        } else {
            (a, list, carry_on())
        }
    } else if app.pending_g {
        let a = AppModel { pending_g: false, ..app };
        if key == Key::Char('g') {
            (
                match app.focus {
                    Focus::Left => AppModel { left: Some(0usize), right: Some(0usize), ..a },
                    Focus::Right => AppModel { right: Some(0usize), ..a },
                },
                list,
                carry_on(),
            )
        } else {
            (a, list, carry_on())
        }
    } else if app.pending_y {
        let a = AppModel { pending_y: false, ..app };
        if key == Key::Char('y') {
            (
                match app.focus {
                    Focus::Left => yank_tree_node_spec(a, list),
                    Focus::Right => yank_task_spec(a, list),
                },
                list,
                carry_on(),
            )
        } else {
            (a, list, carry_on())
        }
    } else {
        match app.focus {
            Focus::Left => normal_left_spec(app, list, key),
            Focus::Right => normal_right_spec(app, list, key),
        }
    }
}

/// A key while browsing leaves the filter alone, Esc on a filter aside.
pub proof fn lemma_normal_keeps_filter(app: AppModel, list: Seq<SectionModel>, key: Key)
    requires
        !(key == Key::Esc && app.filter.len() > 0),
    ensures
        normal_spec(app, list, key).0.filter == app.filter,
        normal_spec(app, list, key).0.filter_lower == app.filter_lower,
{
}

/// Handles a key while browsing (see `normal_spec`); says whether to stop and
/// whether the list changed and needs saving.
pub fn handle_normal(app: &mut AppState, todo_list: &mut TodoList, code: Key) -> (r: Outcome)
    requires
        keys_ok(old(app)@, code),
    ensures
        (final(app)@, final(todo_list)@, r) == normal_spec(old(app)@, old(todo_list)@, code),
{
    let right_focus = match app.focus {
        Focus::Right => true,
        Focus::Left => false,
    };
    if code == Key::Char('?') {
        app.mode = Mode::Help;
        return Outcome { quit: false, save: false };
    }
    if code == Key::Char(':') && right_focus {
        let save = sort_tasks_by_due(app, todo_list);
        return Outcome { quit: false, save };
    }
    if code == Key::Char('/') {
        app.mode = Mode::Filter;
        return Outcome { quit: false, save: false };
    }
    if code == Key::Esc && !app.filter.as_str().is_empty() {
        app.filter = String::new();
        app.filter_lower = String::new();
        return Outcome { quit: false, save: false };
    }
    if app.pending_d {
        app.pending_d = false;
        if code == Key::Char('d') {
            let save = if right_focus {
                delete_task(app, todo_list)
            } else {
                delete_tree_node(app, todo_list)
            };
            return Outcome { quit: false, save };
        }
        return Outcome { quit: false, save: false };
    }
    if app.pending_g {
        app.pending_g = false;
        if code == Key::Char('g') {
            if right_focus {
                app.right_state.select(Some(0));
            } else {
                app.left_state.select(Some(0));
                app.right_state.select(Some(0));
            }
        }
        return Outcome { quit: false, save: false };
    }
    if app.pending_y {
        app.pending_y = false;
        if code == Key::Char('y') {
            if right_focus {
                yank_task(app, todo_list);
            } else {
                yank_tree_node(app, todo_list);
            }
        }
        return Outcome { quit: false, save: false };
    }
    if right_focus {
        handle_normal_right(app, todo_list, code)
    } else {
        handle_normal_left(app, todo_list, code)
    }
}

} // verus!
