//! The edits made while browsing: deleting, yanking and pasting tasks and
//! sections, and sorting a section's tasks by due date.
use vstd::prelude::*;

use crate::date::Date;
use crate::input::{insert_task_at, ref_pos, ref_position, with_task_inserted};
use crate::model::{
    lemma_list_fits, lemma_tasks_view_insert, lemma_tasks_view_remove,
};
use crate::parser::clone_path;
use crate::refs::{
    filtered_refs, get_task_from_ref, get_task_refs_filtered, lemma_filtered_refs_valid, task_at,
};
use crate::state::{
    refs_view, AppModel, AppState, ClipboardItem, ClipboardModel, Focus, Mode, ModeModel, TaskRef,
};
use crate::task::{
    get_node, get_node_mut, node_at, node_set, tasks_view, NodePath, SectionModel, Task, TaskModel,
    TodoList,
};
use crate::tree::{
    build_tree_items, child_count, inserted, insert_section, min_int, mode_ghost, rebuild_and_select,
    rebuilt, remove_section, removed, selected_node, selected_path, walk_rows,
};

verus! {

broadcast use {lemma_tasks_view_insert, lemma_tasks_view_remove};

/// A selection, or the first row where there is none.
pub open spec fn sel_or0(o: Option<usize>) -> usize {
    match o {
        Some(i) => i,
        None => 0,
    }
}

/// The number of the section's own tasks (none where there is no section).
pub open spec fn own_count(list: Seq<SectionModel>, node: Seq<usize>) -> int {
    match node_at(list, node) {
        Some(s) => s.tasks.len() as int,
        None => 0,
    }
}

/// `s` with its task at `i` taken out.
pub open spec fn without_task(s: SectionModel, i: int) -> SectionModel {
    SectionModel { tasks: s.tasks.remove(i), ..s }
}

/// Deleting the selected task row: the task goes to the clipboard and out of
/// its section; the selection stays on the same row (the last one, if the row
/// was the last), or, with no row left, focus returns to the sections.
pub open spec fn delete_task_spec(app: AppModel, list: Seq<SectionModel>) -> (AppModel, Seq<SectionModel>, bool) {
    match selected_path(app) {
        None => (app, list, false),
        Some(node) => {
            let cur = sel_or0(app.right);
            let refs = filtered_refs(list, node, app.filter_lower);
            if cur < refs.len() {
                let r = refs[cur as int];
                match task_at(list, r) {
                    None => (app, list, false),
                    Some(t) => {
                        let s = node_at(list, r.node)->0;
                        let nl = node_set(list, r.node, without_task(s, r.task_idx as int));
                        let n = filtered_refs(nl, node, app.filter_lower).len();
                        let a = AppModel { clipboard: Some(ClipboardModel::Task(t)), ..app };
                        (
                            if n == 0 {
                                AppModel { right: Some(0usize), focus: Focus::Left, ..a }
                            } else {
                                AppModel { right: Some(min_int(cur as int, n - 1) as usize), ..a }
                            },
                            nl,
                            true,
                        )
                    },
                }
            } else {
                (app, list, false)
            }
        },
    }
}

/// A selection, or the first row where there is none.
fn sel_or_zero(o: Option<usize>) -> (r: usize)
    ensures
        r == sel_or0(o),
{
    match o {
        Some(i) => i,
        None => 0,
    }
}

/// Deletes the selected task row (see `delete_task_spec`); gives whether the
/// list changed and needs saving.
pub fn delete_task(app: &mut AppState, todo_list: &mut TodoList) -> (save: bool)
    ensures
        (final(app)@, final(todo_list)@, save) == delete_task_spec(old(app)@, old(todo_list)@),
{
    let node = match selected_node(app) {
        Some(n) => n,
        None => return false,
    };
    let cur = sel_or_zero(app.right_state.selected());
    let refs = get_task_refs_filtered(todo_list, &node, app.filter_lower.as_str());
    if cur >= refs.len() {
        return false;
    }
    let ref_item = &refs[cur];
    assert(refs_view(refs@)[cur as int] == ref_item@);
    let task = match get_task_from_ref(todo_list, ref_item) {
        Some(t) => t.clone(),
        None => return false,
    };
    app.clipboard = Some(ClipboardItem::Task(task));
    let ghost l0 = todo_list@;
    match get_node_mut(todo_list, ref_item.node.as_slice()) {
        Some(sec) => {
            let ghost s0 = sec@;
            sec.tasks.remove(ref_item.task_idx);
            assert(sec@ =~= without_task(s0, ref_item.task_idx as int));
        },
        None => {},
    }
    let new_len = get_task_refs_filtered(todo_list, &node, app.filter_lower.as_str()).len();
    if new_len == 0 {
        app.right_state.select(Some(0));
        app.focus = Focus::Left;
    } else {
        let pos = if cur < new_len - 1 {
            cur
        } else {
            new_len - 1
        };
        app.right_state.select(Some(pos));
    }
    true
}

/// Deleting the selected section: it goes to the clipboard and out of the
/// tree; the selection moves up a row (none when at most one row was listed)
/// and the first task row is selected.
pub open spec fn delete_tree_node_spec(app: AppModel, list: Seq<SectionModel>) -> (
    AppModel,
    Seq<SectionModel>,
    bool,
) {
    match selected_path(app) {
        None => (app, list, false),
        Some(node) => match removed(list, node) {
            None => (app, list, false),
            Some((nl, sec)) => {
                let cur = sel_or0(app.left);
                let n = app.tree_items.len();
                (
                    AppModel {
                        clipboard: Some(ClipboardModel::Section(sec)),
                        left: if n <= 1 {
                            None
                        } else {
                            Some(
                                min_int(
                                    if cur > 0 {
                                        cur - 1
                                    } else {
                                        0
                                    },
                                    n - 1,
                                ) as usize,
                            )
                        },
                        right: Some(0usize),
                        ..app
                    },
                    nl,
                    true,
                )
            },
        },
    }
}

/// Deletes the selected section (see `delete_tree_node_spec`); gives whether
/// the list changed and needs saving.
pub fn delete_tree_node(app: &mut AppState, todo_list: &mut TodoList) -> (save: bool)
    ensures
        (final(app)@, final(todo_list)@, save) == delete_tree_node_spec(old(app)@, old(todo_list)@),
{
    let node = match selected_node(app) {
        Some(n) => n,
        None => return false,
    };
    let removed_sec = match remove_section(todo_list, &node) {
        Some(s) => s,
        None => return false,
    };
    app.clipboard = Some(ClipboardItem::Section(removed_sec));
    let cur = sel_or_zero(app.left_state.selected());
    let n = app.tree_items.len();
    if n <= 1 {
        app.left_state.select(None);
    } else {
        let up = if cur > 0 {
            cur - 1
        } else {
            0
        };
        let pos = if up < n - 1 {
            up
        } else {
            n - 1
        };
        app.left_state.select(Some(pos));
    }
    app.right_state.select(Some(0));
    true
}

/// Yanking the selected task row: a copy of its task goes to the clipboard.
pub open spec fn yank_task_spec(app: AppModel, list: Seq<SectionModel>) -> AppModel {
    match selected_path(app) {
        None => app,
        Some(node) => {
            let cur = sel_or0(app.right);
            let refs = filtered_refs(list, node, app.filter_lower);
            if cur < refs.len() {
                match task_at(list, refs[cur as int]) {
                    Some(t) => AppModel { clipboard: Some(ClipboardModel::Task(t)), ..app },
                    None => app,
                }
            } else {
                app
            }
        },
    }
}

/// Copies the selected task into the clipboard (see `yank_task_spec`).
pub fn yank_task(app: &mut AppState, todo_list: &TodoList)
    ensures
        final(app)@ == yank_task_spec(old(app)@, todo_list@),
{
    let node = match selected_node(app) {
        Some(n) => n,
        None => return ,
    };
    let cur = sel_or_zero(app.right_state.selected());
    let refs = get_task_refs_filtered(todo_list, &node, app.filter_lower.as_str());
    if cur < refs.len() {
        assert(refs_view(refs@)[cur as int] == refs@[cur as int]@);
        let task = match get_task_from_ref(todo_list, &refs[cur]) {
            Some(t) => t.clone(),
            None => return ,
        };
        app.clipboard = Some(ClipboardItem::Task(task));
    }
}

/// Yanking the selected section: a copy of it, with its subtree, goes to the
/// clipboard.
pub open spec fn yank_tree_node_spec(app: AppModel, list: Seq<SectionModel>) -> AppModel {
    match selected_path(app) {
        Some(node) => match node_at(list, node) {
            Some(s) => AppModel { clipboard: Some(ClipboardModel::Section(s)), ..app },
            None => app,
        },
        None => app,
    }
}

/// Copies the selected section into the clipboard (see `yank_tree_node_spec`).
pub fn yank_tree_node(app: &mut AppState, todo_list: &TodoList)
    ensures
        final(app)@ == yank_tree_node_spec(old(app)@, todo_list@),
{
    let node = match selected_node(app) {
        Some(n) => n,
        None => return ,
    };
    match get_node(todo_list, node.as_slice()) {
        Some(sec) => {
            app.clipboard = Some(ClipboardItem::Section(sec.clone()));
        },
        None => {},
    }
}

/// Where a pasted task goes: in the task panel, just after (or, above, at) the
/// selected row's task, or first or last in the selected section when it lists
/// no row, last past the rows; from the section tree, first or last in the
/// selected section.
pub open spec fn paste_task_target(
    app: AppModel,
    list: Seq<SectionModel>,
    node: Seq<usize>,
    refs: Seq<crate::state::TaskRefModel>,
    above: bool,
) -> (Seq<usize>, int) {
    let cur = sel_or0(app.right);
    if app.focus == Focus::Right {
        if refs.len() == 0 {
            (
                node,
                if above {
                    0
                } else {
                    own_count(list, node)
                },
            )
        } else if cur < refs.len() {
            (
                refs[cur as int].node,
                if above {
                    refs[cur as int].task_idx as int
                } else {
                    refs[cur as int].task_idx + 1
                },
            )
        } else {
            (node, own_count(list, node))
        }
    } else {
        (
            node,
            if above {
                0
            } else {
                own_count(list, node)
            },
        )
    }
}

/// How many children the section at `parent` has (the top level for none).
pub open spec fn child_count_spec(list: Seq<SectionModel>, parent: Option<Seq<usize>>) -> int {
    match parent {
        None => list.len() as int,
        Some(p) => match node_at(list, p) {
            Some(s) => s.children.len() as int,
            None => 0,
        },
    }
}

/// Where a pasted section goes: a sibling just after (or, above, just before)
/// the selected section.
pub open spec fn paste_section_spot(list: Seq<SectionModel>, node: Seq<usize>, above: bool) -> (
    Option<Seq<usize>>,
    usize,
) {
    let len = node.len();
    if len == 0 {
        (
            None,
            if above {
                0
            } else {
                list.len() as usize
            },
        )
    } else {
        let parent = if len > 1 {
            Some(node.take(len - 1))
        } else {
            None
        };
        let base = node[len - 1];
        (
            parent,
            if above {
                base
            } else {
                min_int(base + 1, child_count_spec(list, parent)) as usize
            },
        )
    }
}

/// Pasting the clipboard: a task goes where `paste_task_target` says (and, in
/// the task panel, its row is selected); a section goes where
/// `paste_section_spot` says, or first or last at the top level with nothing
/// selected, and its row is selected.
pub open spec fn paste_spec(app: AppModel, list: Seq<SectionModel>, above: bool) -> (
    AppModel,
    Seq<SectionModel>,
    bool,
) {
    match app.clipboard {
        None => (app, list, false),
        Some(ClipboardModel::Task(t)) => match selected_path(app) {
            None => (app, list, false),
            Some(node) => {
                let refs = filtered_refs(list, node, app.filter_lower);
                let (target, ins) = paste_task_target(app, list, node, refs, above);
                let nl = insert_task_at(list, target, ins, t);
                (
                    if app.focus == Focus::Right {
                        AppModel {
                            tree_items: walk_rows(nl, None, mode_ghost(app.mode)),
                            right: Some(
                                match ref_pos(refs, target, ins, 0) {
                                    Some(i) => i as usize,
                                    None => sel_or0(app.right),
                                },
                            ),
                            ..app
                        }
                    } else {
                        app
                    },
                    nl,
                    true,
                )
            },
        },
        Some(ClipboardModel::Section(sec)) => match selected_path(app) {
            Some(node) => {
                let (parent, idx) = paste_section_spot(list, node, above);
                match inserted(list, parent, idx, sec) {
                    Some((nl, path)) => (
                        AppModel {
                            right: Some(0usize),
                            ..rebuilt(AppModel { mode: ModeModel::Normal, ..app }, nl, path)
                        },
                        nl,
                        true,
                    ),
                    None => (AppModel { right: Some(0usize), ..app }, list, false),
                }
            },
            None => {
                let idx: usize = if above {
                    0
                } else {
                    list.len() as usize
                };
                match inserted(list, None, idx, sec) {
                    Some((nl, path)) => (rebuilt(app, nl, path), nl, true),
                    None => (app, list, false),
                }
            },
        },
    }
}

/// Whether the last index of the selected section's path can be counted past.
pub open spec fn paste_ok(app: AppModel) -> bool {
    match selected_path(app) {
        Some(p) => p.len() > 0 ==> p[p.len() - 1] < usize::MAX,
        None => true,
    }
}

/// The number of the section's own tasks.
fn child_or_self_task_count(todo_list: &TodoList, node: &NodePath) -> (r: usize)
    ensures
        r == own_count(todo_list@, node@),
{
    match get_node(todo_list, node.as_slice()) {
        Some(s) => s.tasks.len(),
        None => 0,
    }
}

/// The first `n` entries of a path.
fn path_prefix(p: &NodePath, n: usize) -> (r: NodePath)
    requires
        n <= p@.len(),
    ensures
        r@ == p@.take(n as int),
{
    let mut r: Vec<usize> = Vec::new();
    let mut i: usize = 0;
    while i < n
        invariant
            n <= p@.len(),
            0 <= i <= n,
            r@ == p@.take(i as int),
        decreases n - i,
    {
        r.push(p[i]);
        assert(p@.take(i as int).push(p@[i as int]) =~= p@.take(i + 1));
        i = i + 1;
    }
    r
}

/// Pastes the clipboard (see `paste_spec`); gives whether the list changed and
/// needs saving.
pub fn paste_clipboard(app: &mut AppState, todo_list: &mut TodoList, above: bool) -> (save: bool)
    requires
        paste_ok(old(app)@),
    ensures
        (final(app)@, final(todo_list)@, save) == paste_spec(old(app)@, old(todo_list)@, above),
{
    let clip = match &app.clipboard {
        Some(item) => item.clone(),
        None => return false,
    };
    match clip {
        ClipboardItem::Task(task) => {
            let node = match selected_node(app) {
                Some(n) => n,
                None => return false,
            };
            let refs = get_task_refs_filtered(todo_list, &node, app.filter_lower.as_str());
            let cur = sel_or_zero(app.right_state.selected());
            proof {
                lemma_list_fits(*todo_list);
                lemma_filtered_refs_valid(todo_list@, node@, app@.filter_lower);
            }
            let ghost rv = refs_view(refs@);
            let right_focus = match app.focus {
                Focus::Right => true,
                Focus::Left => false,
            };
            let (target, ins_idx): (NodePath, usize) = if right_focus {
                if refs.len() == 0 {
                    let n = child_or_self_task_count(todo_list, &node);
                    (
                        node,
                        if above {
                            0
                        } else {
                            n
                        },
                    )
                } else if cur < refs.len() {
                    let r = &refs[cur];
                    assert(rv[cur as int] == r@);
                    assert(task_at(todo_list@, rv[cur as int]) is Some);
                    proof {
                        crate::model::lemma_node_at_fits(todo_list@, r.node@);
                    }
                    (
                        clone_path(&r.node),
                        if above {
                            r.task_idx
                        } else {
                            r.task_idx + 1
                        },
                    )
                } else {
                    let n = child_or_self_task_count(todo_list, &node);
                    (node, n)
                }
            } else {
                let n = child_or_self_task_count(todo_list, &node);
                (
                    node,
                    if above {
                        0
                    } else {
                        n
                    },
                )
            };
            assert((target@, ins_idx as int) == paste_task_target(
                app@,
                todo_list@,
                selected_path(app@)->0,
                rv,
                above,
            ));
            let ghost l0 = todo_list@;
            let ghost tv = task@;
            match get_node_mut(todo_list, target.as_slice()) {
                Some(sec) => {
                    let ghost s0 = sec@;
                    sec.tasks.insert(ins_idx, task);
                    assert(sec@ =~= with_task_inserted(s0, ins_idx as int, tv));
                },
                None => {},
            }
            assert(todo_list@ == insert_task_at(l0, target@, ins_idx as int, tv));
            if right_focus {
                app.tree_items = build_tree_items(todo_list, &app.mode);
                match ref_position(&refs, &target, ins_idx) {
                    Some(pos) => app.right_state.select(Some(pos)),
                    None => app.right_state.select(Some(cur)),
                }
            }
            true
        },
        ClipboardItem::Section(sec) => {
            match selected_node(app) {
                Some(node) => {
                    let len = node.len();
                    let (parent_opt, idx): (Option<NodePath>, usize) = if len == 0 {
                        (
                            None,
                            if above {
                                0
                            } else {
                                todo_list.sections.len()
                            },
                        )
                    } else {
                        let parent = if len > 1 {
                            Some(path_prefix(&node, len - 1))
                        } else {
                            None
                        };
                        let base = node[len - 1];
                        let idx = if above {
                            base
                        } else {
                            let count = child_count(todo_list, parent.as_ref());
                            if base + 1 < count {
                                base + 1
                            } else {
                                count
                            }
                        };
                        (parent, idx)
                    };
                    let ghost spot = paste_section_spot(todo_list@, node@, above);
                    assert(crate::state::opt_path_view(parent_opt) == spot.0 && idx == spot.1);
                    let mut save = false;
                    match insert_section(todo_list, parent_opt.as_ref(), idx, sec) {
                        Ok(new_path) => {
                            save = true;
                            app.mode = Mode::Normal;
                            rebuild_and_select(app, todo_list, &new_path);
                        },
                        Err(_) => {},
                    }
                    app.right_state.select(Some(0));
                    save
                },
                None => {
                    let idx = if above {
                        0
                    } else {
                        todo_list.sections.len()
                    };
                    match insert_section(todo_list, None, idx, sec) {
                        Ok(new_path) => {
                            rebuild_and_select(app, todo_list, &new_path);
                            true
                        },
                        Err(_) => false,
                    }
                },
            }
        },
    }
}

/// Whether due date `a` sorts no later than `b`: dates in order, then the
/// tasks without one.
pub open spec fn due_le(a: Option<int>, b: Option<int>) -> bool {
    match (a, b) {
        (Some(x), Some(y)) => x <= y,
        (Some(_), None) => true,
        (None, Some(_)) => false,
        (None, None) => true,
    }
}

/// Where `t` goes in the sorted `s` from position `i` on: before the first
/// task that sorts strictly after it.
pub open spec fn insert_pos(s: Seq<TaskModel>, t: TaskModel, i: int) -> int
    decreases s.len() - i,
{
    if i < 0 || i >= s.len() {
        s.len() as int
    } else if !due_le(s[i].due, t.due) {
        i
    } else {
        insert_pos(s, t, i + 1)
    }
}

/// The tasks sorted by due date, earliest first, those without one last; tasks
/// that sort alike keep their order.
pub open spec fn sort_by_due(ts: Seq<TaskModel>) -> Seq<TaskModel>
    decreases ts.len(),
{
    if ts.len() == 0 {
        ts
    } else {
        let s = sort_by_due(ts.drop_last());
        s.insert(insert_pos(s, ts.last(), 0), ts.last())
    }
}

/// Whether the tasks are in due-date order.
pub open spec fn due_sorted(s: Seq<TaskModel>) -> bool {
    forall|i: int, j: int| 0 <= i < j < s.len() ==> due_le(#[trigger] s[i].due, #[trigger] s[j].due)
}

/// The tasks, in order, whose due date is `k`.
pub open spec fn tasks_due(ts: Seq<TaskModel>, k: Option<int>) -> Seq<TaskModel>
    decreases ts.len(),
{
    if ts.len() == 0 {
        ts
    } else {
        tasks_due(ts.drop_last(), k) + if ts.last().due == k {
            seq![ts.last()]
        } else {
            Seq::empty()
        }
    }
}

proof fn lemma_due_le_total(a: Option<int>, b: Option<int>)
    ensures
        !due_le(a, b) ==> due_le(b, a) && a != b,
        due_le(a, b) && due_le(b, a) ==> a == b,
{
}

proof fn lemma_due_le_trans(a: Option<int>, b: Option<int>, c: Option<int>)
    requires
        due_le(a, b),
        due_le(b, c),
    ensures
        due_le(a, c),
{
}

proof fn lemma_insert_pos(s: Seq<TaskModel>, t: TaskModel, i: int)
    requires
        0 <= i <= s.len(),
    ensures
        i <= insert_pos(s, t, i) <= s.len(),
        forall|j: int| i <= j < insert_pos(s, t, i) ==> due_le(#[trigger] s[j].due, t.due),
        insert_pos(s, t, i) < s.len() ==> !due_le(s[insert_pos(s, t, i)].due, t.due),
    decreases s.len() - i,
{
    if i < s.len() && due_le(s[i].due, t.due) {
        lemma_insert_pos(s, t, i + 1);
    }
}

proof fn lemma_insert_sorted(s: Seq<TaskModel>, t: TaskModel)
    requires
        due_sorted(s),
    ensures
        due_sorted(s.insert(insert_pos(s, t, 0), t)),
{
    lemma_insert_pos(s, t, 0);
    let p = insert_pos(s, t, 0);
    let n = s.insert(p, t);
    assert forall|i: int, j: int| 0 <= i < j < n.len() implies due_le(#[trigger] n[i].due, #[trigger] n[j].due) by {
        if i < p && j < p {
            assert(n[i] == s[i] && n[j] == s[j]);
        } else if i < p && j == p {
            assert(n[i] == s[i]);
        } else if i < p && j > p {
            assert(n[i] == s[i] && n[j] == s[j - 1]);
        } else if i == p {
            assert(n[j] == s[j - 1]);
            lemma_due_le_total(s[p].due, t.due);
            if j - 1 > p {
                lemma_due_le_trans(t.due, s[p].due, s[j - 1].due);
            }
        } else {
            assert(n[i] == s[i - 1] && n[j] == s[j - 1]);
        }
    }
}

/// Sorting by due date puts the tasks in due-date order.
pub proof fn lemma_sort_by_due_sorted(ts: Seq<TaskModel>)
    ensures
        due_sorted(sort_by_due(ts)),
    decreases ts.len(),
{
    if ts.len() > 0 {
        lemma_sort_by_due_sorted(ts.drop_last());
        lemma_insert_sorted(sort_by_due(ts.drop_last()), ts.last());
    }
}

/// Sorting by due date keeps every task, and adds none.
pub proof fn lemma_sort_by_due_permutation(ts: Seq<TaskModel>)
    ensures
        sort_by_due(ts).to_multiset() == ts.to_multiset(),
    decreases ts.len(),
{
    broadcast use vstd::seq_lib::group_to_multiset_ensures;

    if ts.len() > 0 {
        let s = sort_by_due(ts.drop_last());
        lemma_sort_by_due_permutation(ts.drop_last());
        lemma_insert_pos(s, ts.last(), 0);
        vstd::seq_lib::to_multiset_insert(s, insert_pos(s, ts.last(), 0), ts.last());
        vstd::seq_lib::to_multiset_build(ts.drop_last(), ts.last());
        assert(ts.drop_last().push(ts.last()) =~= ts);
    }
}

proof fn lemma_tasks_due_concat(a: Seq<TaskModel>, b: Seq<TaskModel>, k: Option<int>)
    ensures
        tasks_due(a + b, k) == tasks_due(a, k) + tasks_due(b, k),
    decreases b.len(),
{
    if b.len() == 0 {
        assert(a + b =~= a);
        assert(tasks_due(a, k) + tasks_due(b, k) =~= tasks_due(a, k));
    } else {
        assert((a + b).drop_last() =~= a + b.drop_last());
        assert((a + b).last() == b.last());
        lemma_tasks_due_concat(a, b.drop_last(), k);
        assert(tasks_due(a + b, k) =~= tasks_due(a, k) + tasks_due(b, k));
    }
}

proof fn lemma_tasks_due_none(b: Seq<TaskModel>, k: Option<int>)
    requires
        forall|i: int| 0 <= i < b.len() ==> (#[trigger] b[i]).due != k,
    ensures
        tasks_due(b, k) == Seq::<TaskModel>::empty(),
    decreases b.len(),
{
    if b.len() > 0 {
        assert(b.last() == b[b.len() - 1]);
        lemma_tasks_due_none(b.drop_last(), k);
        assert(tasks_due(b, k) =~= Seq::<TaskModel>::empty());
    }
}

/// Sorting by due date keeps the order of the tasks that share a due date
/// (or that both have none): it is stable.
pub proof fn lemma_sort_by_due_stable(ts: Seq<TaskModel>, k: Option<int>)
    ensures
        tasks_due(sort_by_due(ts), k) == tasks_due(ts, k),
    decreases ts.len(),
{
    if ts.len() > 0 {
        let s = sort_by_due(ts.drop_last());
        let t = ts.last();
        lemma_sort_by_due_stable(ts.drop_last(), k);
        lemma_sort_by_due_sorted(ts.drop_last());
        lemma_insert_pos(s, t, 0);
        let p = insert_pos(s, t, 0);
        let a = s.take(p);
        let b = s.skip(p);
        assert(s.insert(p, t) =~= a + seq![t] + b);
        assert(s =~= a + b);
        lemma_tasks_due_concat(a + seq![t], b, k);
        lemma_tasks_due_concat(a, seq![t], k);
        lemma_tasks_due_concat(a, b, k);
        assert(seq![t].drop_last() =~= Seq::<TaskModel>::empty());
        assert(seq![t].last() == t);
        assert(tasks_due(Seq::<TaskModel>::empty(), k) =~= Seq::<TaskModel>::empty());
        assert(ts.drop_last().push(t) =~= ts);
        if t.due == k {
            assert(tasks_due(seq![t], k) =~= seq![t]);
            assert forall|i: int| 0 <= i < b.len() implies (#[trigger] b[i]).due != k by {
                assert(b[i] == s[p + i]);
                lemma_due_le_total(s[p].due, t.due);
                if i > 0 {
                    assert(due_le(s[p].due, s[p + i].due));
                    if s[p + i].due == t.due {
                        lemma_due_le_trans(s[p].due, s[p + i].due, t.due);
                    }
                }
            }
            lemma_tasks_due_none(b, k);
            assert(tasks_due(s.insert(p, t), k) =~= tasks_due(s, k) + seq![t]);
        } else {
            assert(tasks_due(seq![t], k) =~= Seq::<TaskModel>::empty());
            assert(tasks_due(s.insert(p, t), k) =~= tasks_due(s, k));
        }
    }
}

/// Sorting the selected section's own tasks by due date.
pub open spec fn sort_spec(app: AppModel, list: Seq<SectionModel>) -> (Seq<SectionModel>, bool) {
    match selected_path(app) {
        Some(node) => match node_at(list, node) {
            Some(s) => (node_set(list, node, SectionModel { tasks: sort_by_due(s.tasks), ..s }), true),
            None => (list, false),
        },
        None => (list, false),
    }
}

/// Whether due date `a` sorts no later than `b`.
fn due_le_exec(a: &Option<Date>, b: &Option<Date>) -> (r: bool)
    ensures
        r == due_le(crate::model::due_view(*a), crate::model::due_view(*b)),
{
    match (a, b) {
        (Some(x), Some(y)) => x.days() <= y.days(),
        (Some(_), None) => true,
        (None, Some(_)) => false,
        (None, None) => true,
    }
}

/// The tasks sorted by due date (see `sort_by_due`), by inserting each in turn
/// after the tasks that sort no later.
fn sorted_by_due(tasks: Vec<Task>) -> (r: Vec<Task>)
    ensures
        tasks_view(r@) == sort_by_due(tasks_view(tasks@)),
{
    let ghost orig = tasks_view(tasks@);
    let mut rest = tasks;
    let mut out: Vec<Task> = Vec::new();
    let ghost mut k: int = 0;
    assert(tasks_view(out@) =~= sort_by_due(orig.take(0)));
    while rest.len() > 0
        invariant
            0 <= k <= orig.len(),
            tasks_view(rest@) == orig.skip(k),
            tasks_view(out@) == sort_by_due(orig.take(k)),
        decreases rest@.len(),
    {
        let t = rest.remove(0);
        let ghost s = tasks_view(out@);
        assert(orig.skip(k)[0] == t@);
        assert(tasks_view(rest@) =~= orig.skip(k + 1));
        let mut i: usize = 0;
        while i < out.len() && due_le_exec(&out[i].due, &t.due)
            invariant
                0 <= i <= out@.len(),
                s == tasks_view(out@),
                insert_pos(s, t@, 0) == insert_pos(s, t@, i as int),
            decreases out@.len() - i,
        {
            assert(s[i as int] == out@[i as int]@);
            i = i + 1;
        }
        if i < out.len() {
            assert(s[i as int] == out@[i as int]@);
        }
        out.insert(i, t);
        proof {
            assert(orig.take(k + 1).drop_last() =~= orig.take(k));
            assert(orig.take(k + 1).last() == t@);
            k = k + 1;
        }
    }
    assert(orig.take(k) =~= orig);
    out
}

/// Sorts the selected section's own tasks by due date (see `sort_spec`); gives
/// whether the list changed and needs saving.
pub(crate) fn sort_tasks_by_due(app: &mut AppState, todo_list: &mut TodoList) -> (save: bool)
    ensures
        final(app)@ == old(app)@,
        (final(todo_list)@, save) == sort_spec(old(app)@, old(todo_list)@),
{
    let node = match selected_node(app) {
        Some(n) => n,
        None => return false,
    };
    match get_node_mut(todo_list, node.as_slice()) {
        Some(sec) => {
            let ghost s0 = sec@;
            let mut tasks: Vec<Task> = Vec::new();
            std::mem::swap(&mut tasks, &mut sec.tasks);
            sec.tasks = sorted_by_due(tasks);
            assert(sec@ =~= SectionModel { tasks: sort_by_due(s0.tasks), ..s0 });
            true
        },
        None => false,
    }
}

} // verus!
