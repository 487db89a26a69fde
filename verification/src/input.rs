//! What the keys do while a task, a due date or a section name is typed, and
//! what Enter makes of the text.
use vstd::prelude::*;

use crate::date::{resolve_relative_date, resolves_to, Date};
use crate::edit::{backspace_at_cursor, delete_at_cursor, insert_at_cursor, move_left, move_right};
use crate::model::{
    lemma_list_fits, lemma_node_at_fits, lemma_tasks_view_insert, list_fits,
};
use crate::parser::{clone_path, empty_section};
use crate::refs::{
    get_task_from_ref_mut, get_task_refs, lemma_task_refs_valid, task_at, task_refs, with_task_at,
};
use crate::state::{
    opt_path_view, refs_view, AppModel, AppState, Focus, Key, Mode, ModeModel, TaskRef,
    TaskRefModel, TreeItemModel,
};
use crate::task::{
    get_node, get_node_mut, node_at, node_set, NodePath, Section, SectionModel, Task, TaskModel,
    TodoList,
};
use crate::text::{chars_of, trim, trim_string};
use crate::tree::{
    build_tree_items, inserted, insert_section, min_int, mode_ghost, rebuild_and_select, rebuilt,
    selected_node, selected_path, walk_rows,
};

verus! {

broadcast use {lemma_tasks_view_insert, crate::model::lemma_section_view_children};

/// What is being typed for a task: the row edited (none for a new task), where
/// a new task goes, the text and the cursor.
pub struct InputTaskParams {
    pub editing_idx: Option<usize>,
    pub insert_idx: Option<usize>,
    pub above: bool,
    pub buf: String,
    pub cursor: usize,
}

/// What is being typed for a due date: the task row, the text and the cursor.
pub struct InputDueParams {
    pub task_idx: usize,
    pub buf: String,
    pub cursor: usize,
}

/// What is being typed for a section name: the section renamed (none for a
/// new one), where a new one goes, the text and the cursor.
pub struct InputSectionParams {
    pub node: Option<NodePath>,
    pub parent: Option<NodePath>,
    pub insert_idx: Option<usize>,
    pub buf: String,
    pub cursor: usize,
}

pub struct TaskParamsModel {
    pub editing_idx: Option<usize>,
    pub insert_idx: Option<usize>,
    pub above: bool,
    pub buf: Seq<char>,
    pub cursor: usize,
}

pub struct DueParamsModel {
    pub task_idx: usize,
    pub buf: Seq<char>,
    pub cursor: usize,
}

pub struct SectionParamsModel {
    pub node: Option<Seq<usize>>,
    pub parent: Option<Seq<usize>>,
    pub insert_idx: Option<usize>,
    pub buf: Seq<char>,
    pub cursor: usize,
}

impl InputTaskParams {
    pub open spec fn view(&self) -> TaskParamsModel {
        TaskParamsModel {
            editing_idx: self.editing_idx,
            insert_idx: self.insert_idx,
            above: self.above,
            buf: self.buf@,
            cursor: self.cursor,
        }
    }
}

impl InputDueParams {
    pub open spec fn view(&self) -> DueParamsModel {
        DueParamsModel { task_idx: self.task_idx, buf: self.buf@, cursor: self.cursor }
    }
}

impl InputSectionParams {
    pub open spec fn view(&self) -> SectionParamsModel {
        SectionParamsModel {
            node: opt_path_view(self.node),
            parent: opt_path_view(self.parent),
            insert_idx: self.insert_idx,
            buf: self.buf@,
            cursor: self.cursor,
        }
    }
}

/// The text and the cursor after an editing key (other keys change nothing).
pub open spec fn edit_buf(buf: Seq<char>, cursor: usize, key: Key) -> (Seq<char>, usize) {
    match key {
        Key::Char(c) => (buf.insert(min_int(cursor as int, buf.len() as int), c), (cursor + 1) as usize),
        Key::Backspace => if cursor == 0 {
            (buf, cursor)
        } else {
            (
                if cursor - 1 < buf.len() {
                    buf.remove(cursor - 1)
                } else {
                    buf
                },
                (cursor - 1) as usize,
            )
        },
        Key::Delete => (
            if cursor < buf.len() {
                buf.remove(cursor as int)
            } else {
                buf
            },
            cursor,
        ),
        Key::Left => (
            buf,
            if cursor > 0 {
                (cursor - 1) as usize
            } else {
                0
            },
        ),
        Key::Right => (
            buf,
            if cursor < buf.len() {
                (cursor + 1) as usize
            } else {
                cursor
            },
        ),
        Key::Home => (buf, 0),
        Key::End => (buf, buf.len() as usize),
        _ => (buf, cursor),
    }
}

/// Applies an editing key to the text and the cursor.
fn apply_edit_key(buf: &mut String, cursor: &mut usize, key: Key)
    requires
        key is Char ==> *old(cursor) < usize::MAX,
    ensures
        (final(buf)@, *final(cursor)) == edit_buf(old(buf)@, *old(cursor), key),
{
    match key {
        Key::Char(c) => insert_at_cursor(buf, cursor, c),
        Key::Backspace => backspace_at_cursor(buf, cursor),
        Key::Delete => delete_at_cursor(buf, *cursor),
        Key::Left => move_left(cursor),
        Key::Right => move_right(cursor, buf.as_str()),
        Key::Home => {
            *cursor = 0;
        },
        Key::End => {
            *cursor = chars_of(buf.as_str()).len();
        },
        _ => {},
    }
}

/// The number of tasks of the section at `node` (none where there is none).
fn node_task_count(todo_list: &TodoList, node: &NodePath) -> (r: usize)
    ensures
        r == match node_at(todo_list@, node@) {
            Some(s) => s.tasks.len() as int,
            None => 0,
        },
{
    match get_node(todo_list, node.as_slice()) {
        Some(s) => s.tasks.len(),
        None => 0,
    }
}

/// The row, among the rows of the task panel, that a new task is placed
/// relative to: the row before the typed one, or the typed one's row for a
/// task typed above; past the end where none is given.
pub open spec fn anchor_of(n: int, insert_idx: Option<usize>, above: bool) -> int {
    match insert_idx {
        None => n,
        Some(p) => if above {
            p as int
        } else if p > 0 {
            p - 1
        } else {
            0
        },
    }
}

/// Where a new task goes: the section of the anchor row, just after (or, above,
/// at) its task; with no anchor row, last in the selected section.
pub open spec fn commit_target(
    list: Seq<SectionModel>,
    node: Seq<usize>,
    refs: Seq<TaskRefModel>,
    insert_idx: Option<usize>,
    above: bool,
) -> (Seq<usize>, int) {
    let a = anchor_of(refs.len() as int, insert_idx, above);
    if a < refs.len() {
        (
            refs[a].node,
            if above {
                refs[a].task_idx as int
            } else {
                refs[a].task_idx + 1
            },
        )
    } else {
        (
            node,
            match node_at(list, node) {
                Some(s) => s.tasks.len() as int,
                None => 0,
            },
        )
    }
}

/// `s` with `t` inserted among its tasks at `i`.
pub open spec fn with_task_inserted(s: SectionModel, i: int, t: TaskModel) -> SectionModel {
    SectionModel { tasks: s.tasks.insert(i, t), ..s }
}

/// `list` with `t` inserted at `i` among the tasks of the section at `target`.
pub open spec fn insert_task_at(list: Seq<SectionModel>, target: Seq<usize>, i: int, t: TaskModel) -> Seq<
    SectionModel,
> {
    match node_at(list, target) {
        Some(s) => node_set(list, target, with_task_inserted(s, i, t)),
        None => list,
    }
}

/// A new task: not done, with no due date.
pub open spec fn new_task(text: Seq<char>) -> TaskModel {
    TaskModel { text, is_done: false, due: None }
}

/// The first position at or after `from` of the row of task `idx` of the
/// section at `node`.
pub open spec fn ref_pos(refs: Seq<TaskRefModel>, node: Seq<usize>, idx: int, from: int) -> Option<int>
    decreases refs.len() - from,
{
    if from < 0 || from >= refs.len() {
        None
    } else if refs[from].node == node && refs[from].task_idx == idx {
        Some(from)
    } else {
        ref_pos(refs, node, idx, from + 1)
    }
}

/// What Enter does with a typed task: with text left after trimming and a
/// section selected, a new task is inserted (and selected, the task panel
/// focused), or the edited row's task takes the text; the list then needs saving.
pub open spec fn commit_task(app: AppModel, list: Seq<SectionModel>, p: TaskParamsModel) -> (
    AppModel,
    Seq<SectionModel>,
    bool,
) {
    let text = trim(p.buf);
    if text.len() == 0 || selected_path(app) is None {
        (app, list, false)
    } else {
        let node = selected_path(app)->0;
        let refs = task_refs(list, node);
        match p.editing_idx {
            None => {
                let (target, ins) = commit_target(list, node, refs, p.insert_idx, p.above);
                let nl = insert_task_at(list, target, ins, new_task(text));
                let nrefs = task_refs(nl, node);
                let right = match ref_pos(nrefs, target, ins, 0) {
                    Some(i) => i,
                    None => match p.insert_idx {
                        Some(k) => min_int(k as int, nrefs.len() as int),
                        None => nrefs.len() as int,
                    },
                };
                (
                    AppModel {
                        tree_items: walk_rows(nl, None, mode_ghost(app.mode)),
                        right: Some(right as usize),
                        focus: Focus::Right,
                        ..app
                    },
                    nl,
                    true,
                )
            },
            Some(idx) => if idx < refs.len() {
                let r = refs[idx as int];
                let s = node_at(list, r.node)->0;
                let t = s.tasks[r.task_idx as int];
                (
                    app,
                    node_set(list, r.node, with_task_at(s, r.task_idx as int, TaskModel { text, ..t })),
                    true,
                )
            } else {
                (app, list, false)
            },
        }
    }
}

/// The position of the row of task `idx` of the section at `node`.
pub(crate) fn ref_position(refs: &Vec<TaskRef>, node: &NodePath, idx: usize) -> (r: Option<usize>)
    ensures
        match r {
            Some(i) => ref_pos(refs_view(refs@), node@, idx as int, 0) == Some(i as int),
            None => ref_pos(refs_view(refs@), node@, idx as int, 0) is None,
        },
{
    let ghost rv = refs_view(refs@);
    let mut i: usize = 0;
    while i < refs.len()
        invariant
            rv == refs_view(refs@),
            0 <= i <= refs@.len(),
            ref_pos(rv, node@, idx as int, 0) == ref_pos(rv, node@, idx as int, i as int),
        decreases refs@.len() - i,
    {
        assert(rv[i as int] == refs@[i as int]@);
        if crate::tree::path_eq(&refs[i].node, node) && refs[i].task_idx == idx {
            return Some(i);
        }
        i = i + 1;
    }
    None
}

/// Commits a typed task (see `commit_task`); gives whether the list changed
/// and needs saving.
fn commit_input_task(app: &mut AppState, todo_list: &mut TodoList, params: &InputTaskParams) -> (save: bool)
    ensures
        (final(app)@, final(todo_list)@, save) == commit_task(old(app)@, old(todo_list)@, params@),
{
    let text = trim_string(params.buf.as_str());
    if text.as_str().is_empty() {
        return false;
    }
    let node = match selected_node(app) {
        Some(n) => n,
        None => return false,
    };
    proof {
        lemma_list_fits(*todo_list);
        lemma_task_refs_valid(todo_list@, node@);
    }
    match params.editing_idx {
        None => {
            let refs = get_task_refs(todo_list, &node);
            let ghost rv = refs_view(refs@);
            let anchor = match params.insert_idx {
                None => refs.len(),
                Some(p) => if params.above {
                    p
                } else if p > 0 {
                    p - 1
                } else {
                    0
                },
            };
            let (target, ins_idx): (NodePath, usize) = if anchor < refs.len() {
                let r = &refs[anchor];
                assert(rv[anchor as int] == r@);
                proof {
                    assert(task_at(todo_list@, rv[anchor as int]) is Some);
                    lemma_node_at_fits(todo_list@, r.node@);
                }
                (
                    clone_path(&r.node),
                    if params.above {
                        r.task_idx
                    } else {
                        r.task_idx + 1
                    },
                )
            } else {
                (clone_path(&node), node_task_count(todo_list, &node))
            };
            assert((target@, ins_idx as int) == commit_target(
                todo_list@,
                node@,
                rv,
                params.insert_idx,
                params.above,
            ));
            let ghost l0 = todo_list@;
            match get_node_mut(todo_list, target.as_slice()) {
                Some(sec) => {
                    let ghost s0 = sec@;
                    sec.tasks.insert(ins_idx, Task { text, is_done: false, due: None });
                    assert(sec@ =~= with_task_inserted(s0, ins_idx as int, new_task(trim(params.buf@))));
                },
                None => {},
            }
            assert(todo_list@ == insert_task_at(l0, target@, ins_idx as int, new_task(trim(params.buf@))));
            app.tree_items = build_tree_items(todo_list, &app.mode);
            let new_refs = get_task_refs(todo_list, &node);
            match ref_position(&new_refs, &target, ins_idx) {
                Some(pos) => app.right_state.select(Some(pos)),
                None => {
                    let n = new_refs.len();
                    let pos = match params.insert_idx {
                        Some(k) => if k < n {
                            k
                        } else {
                            n
                        },
                        None => n,
                    };
                    app.right_state.select(Some(pos));
                },
            }
            app.focus = Focus::Right;
            true
        },
        Some(idx) => {
            let refs = get_task_refs(todo_list, &node);
            if idx < refs.len() {
                let ghost l0 = todo_list@;
                let ghost r0 = refs@[idx as int]@;
                assert(refs_view(refs@)[idx as int] == r0);
                assert(task_at(l0, r0) is Some);
                match get_task_from_ref_mut(todo_list, &refs[idx]) {
                    Some(task) => {
                        task.text = text;
                    },
                    None => {},
                }
                true
            } else {
                false
            }
        },
    }
}

/// The mode that shows a task being typed.
pub open spec fn task_mode(p: TaskParamsModel) -> ModeModel {
    ModeModel::InputTask {
        editing_idx: p.editing_idx,
        insert_idx: p.insert_idx,
        above: p.above,
        buf: p.buf,
        cursor: p.cursor,
    }
}

/// What a key does while a task is typed: Esc cancels, Enter commits the text
/// (see `commit_task`); both go back to browsing. Any other key edits the text
/// (see `edit_buf`), which the mode then shows.
pub open spec fn input_task_step(app: AppModel, list: Seq<SectionModel>, key: Key, p: TaskParamsModel) -> (
    AppModel,
    Seq<SectionModel>,
    TaskParamsModel,
    bool,
) {
    match key {
        Key::Esc => (AppModel { mode: ModeModel::Normal, ..app }, list, p, false),
        Key::Enter => {
            let (a, l, save) = commit_task(app, list, p);
            (AppModel { mode: ModeModel::Normal, ..a }, l, p, save)
        },
        _ => {
            let (b, c) = edit_buf(p.buf, p.cursor, key);
            let p2 = TaskParamsModel { buf: b, cursor: c, ..p };
            (
                if app.mode is InputTask {
                    AppModel { mode: task_mode(p2), ..app }
                } else {
                    app
                },
                list,
                p2,
                false,
            )
        },
    }
}

/// Handles a key while a task is typed (see `input_task_step`); gives whether
/// the list changed and needs saving.
pub fn handle_input_task(
    app: &mut AppState,
    todo_list: &mut TodoList,
    code: Key,
    params: &mut InputTaskParams,
) -> (save: bool)
    requires
        code is Char ==> old(params).cursor < usize::MAX,
    ensures
        (final(app)@, final(todo_list)@, final(params)@, save) == input_task_step(
            old(app)@,
            old(todo_list)@,
            code,
            old(params)@,
        ),
{
    let mut save = false;
    match code {
        Key::Esc => {
            app.mode = Mode::Normal;
        },
        Key::Enter => {
            save = commit_input_task(app, todo_list, params);
            app.mode = Mode::Normal;
        },
        _ => {
            apply_edit_key(&mut params.buf, &mut params.cursor, code);
        },
    }
    let typing = match app.mode {
        Mode::InputTask { .. } => true,
        _ => false,
    };
    if typing {
        app.mode = Mode::InputTask {
            editing_idx: params.editing_idx,
            insert_idx: params.insert_idx,
            above: params.above,
            buf: params.buf.clone(),
            cursor: params.cursor,
        };
    }
    save
}

/// The mode that shows a due date being typed.
pub open spec fn due_mode(p: DueParamsModel) -> ModeModel {
    ModeModel::InputDue { task_idx: p.task_idx, buf: p.buf, cursor: p.cursor }
}

/// What a key does while a due date is typed, `due` being the date (a day
/// number) the trimmed text gives: Esc cancels; Enter sets the due date of
/// the row's task, if a section is selected and the row is listed, and goes
/// back to browsing; any other key edits the text, which the mode then shows.
pub open spec fn input_due_step(
    app: AppModel,
    list: Seq<SectionModel>,
    key: Key,
    p: DueParamsModel,
    due: Option<int>,
) -> (AppModel, Seq<SectionModel>, DueParamsModel, bool) {
    match key {
        Key::Esc => (AppModel { mode: ModeModel::Normal, ..app }, list, p, false),
        Key::Enter => {
            let a = AppModel { mode: ModeModel::Normal, ..app };
            match selected_path(app) {
                Some(node) => {
                    let refs = task_refs(list, node);
                    if p.task_idx < refs.len() {
                        let r = refs[p.task_idx as int];
                        let s = node_at(list, r.node)->0;
                        let t = s.tasks[r.task_idx as int];
                        (
                            a,
                            node_set(list, r.node, with_task_at(s, r.task_idx as int, TaskModel { due, ..t })),
                            p,
                            true,
                        )
                    } else {
                        (a, list, p, false)
                    }
                },
                None => (a, list, p, false),
            }
        },
        _ => {
            let (b, c) = edit_buf(p.buf, p.cursor, key);
            let p2 = DueParamsModel { buf: b, cursor: c, ..p };
            (
                if app.mode is InputDue {
                    AppModel { mode: due_mode(p2), ..app }
                } else {
                    app
                },
                list,
                p2,
                false,
            )
        },
    }
}

/// What holds of the due date that Enter sets from the trimmed text `t`: none
/// for empty text (which clears the date), else what `resolves_to` says of
/// the date the text names on the clock's day.
pub open spec fn due_typed(t: Seq<char>, due: Option<int>) -> bool {
    if t.len() == 0 {
        due is None
    } else {
        resolves_to(t, due)
    }
}

/// Handles a key while a due date is typed (see `input_due_step`), the date
/// being as `due_typed` says. Gives whether the list changed and needs saving.
pub fn handle_input_due(
    app: &mut AppState,
    todo_list: &mut TodoList,
    code: Key,
    params: &mut InputDueParams,
) -> (save: bool)
    requires
        code is Char ==> old(params).cursor < usize::MAX,
    ensures
        !(code is Enter) ==> (final(app)@, final(todo_list)@, final(params)@, save)
            == input_due_step(old(app)@, old(todo_list)@, code, old(params)@, None),
        code is Enter ==> exists|due: Option<int>|
            #[trigger] due_typed(trim(old(params)@.buf), due) && (
                final(app)@,
                final(todo_list)@,
                final(params)@,
                save,
            ) == input_due_step(old(app)@, old(todo_list)@, code, old(params)@, due),
{
    let mut save = false;
    match code {
        Key::Esc => {
            app.mode = Mode::Normal;
        },
        Key::Enter => {
            let trimmed = trim_string(params.buf.as_str());
            let due = if trimmed.as_str().is_empty() {
                None
            } else {
                resolve_relative_date(trimmed.as_str())
            };
            let ghost dv = match due {
                Some(d) => Some(d.day()),
                None => None,
            };
            assert(due_typed(trim(params@.buf), dv));
            let ghost a0 = app@;
            let ghost l0 = todo_list@;
            match selected_node(app) {
                Some(node) => {
                    let refs = get_task_refs(todo_list, &node);
                    if params.task_idx < refs.len() {
                        proof {
                            lemma_list_fits(*todo_list);
                            lemma_task_refs_valid(todo_list@, node@);
                            assert(refs_view(refs@)[params.task_idx as int]
                                == refs@[params.task_idx as int]@);
                        }
                        match get_task_from_ref_mut(todo_list, &refs[params.task_idx]) {
                            Some(task) => {
                                task.due = due;
                            },
                            None => {},
                        }
                        save = true;
                    }
                },
                None => {},
            }
            app.mode = Mode::Normal;
            assert((app@, todo_list@, params@, save) == input_due_step(
                a0,
                l0,
                code,
                params@,
                dv,
            ));
        },
        _ => {
            apply_edit_key(&mut params.buf, &mut params.cursor, code);
        },
    }
    let typing = match app.mode {
        Mode::InputDue { .. } => true,
        _ => false,
    };
    if typing {
        app.mode = Mode::InputDue {
            task_idx: params.task_idx,
            buf: params.buf.clone(),
            cursor: params.cursor,
        };
    }
    save
}

/// The mode that shows a section name being typed.
pub open spec fn section_mode(p: SectionParamsModel) -> ModeModel {
    ModeModel::InputSection {
        node: p.node,
        parent: p.parent,
        insert_idx: p.insert_idx,
        buf: p.buf,
        cursor: p.cursor,
    }
}

/// What a key does while a section name is typed: Esc cancels; Enter, with a
/// name left after trimming, adds a new section (selected, its first task row
/// selected) or renames the edited one (selected again), and goes back to
/// browsing; any other key edits the text, which the mode then shows.
pub open spec fn input_section_step(
    app: AppModel,
    list: Seq<SectionModel>,
    key: Key,
    p: SectionParamsModel,
) -> (AppModel, Seq<SectionModel>, SectionParamsModel, bool) {
    let normal = AppModel { mode: ModeModel::Normal, ..app };
    match key {
        Key::Esc => (normal, list, p, false),
        Key::Enter => {
            let name = trim(p.buf);
            if name.len() == 0 {
                (normal, list, p, false)
            } else {
                match p.node {
                    None => {
                        let idx = match p.insert_idx {
                            Some(i) => i,
                            None => usize::MAX,
                        };
                        match inserted(list, p.parent, idx, empty_section(name)) {
                            Some((nl, path)) => (
                                AppModel { right: Some(0usize), ..rebuilt(normal, nl, path) },
                                nl,
                                p,
                                true,
                            ),
                            None => (normal, list, p, false),
                        }
                    },
                    Some(existing) => match node_at(list, existing) {
                        Some(s) => {
                            let nl = node_set(list, existing, SectionModel { name, ..s });
                            (rebuilt(normal, nl, existing), nl, p, true)
                        },
                        None => (rebuilt(normal, list, existing), list, p, false),
                    },
                }
            }
        },
        _ => {
            let (b, c) = edit_buf(p.buf, p.cursor, key);
            let p2 = SectionParamsModel { buf: b, cursor: c, ..p };
            (
                if app.mode is InputSection {
                    AppModel { mode: section_mode(p2), ..app }
                } else {
                    app
                },
                list,
                p2,
                false,
            )
        },
    }
}

/// Handles a key while a section name is typed (see `input_section_step`);
/// gives whether the list changed and needs saving.
pub fn handle_input_section(
    app: &mut AppState,
    todo_list: &mut TodoList,
    code: Key,
    params: &mut InputSectionParams,
) -> (save: bool)
    requires
        code is Char ==> old(params).cursor < usize::MAX,
    ensures
        (final(app)@, final(todo_list)@, final(params)@, save) == input_section_step(
            old(app)@,
            old(todo_list)@,
            code,
            old(params)@,
        ),
{
    let mut save = false;
    match code {
        Key::Esc => {
            app.mode = Mode::Normal;
        },
        Key::Enter => {
            let name = trim_string(params.buf.as_str());
            if !name.as_str().is_empty() {
                match &params.node {
                    None => {
                        let idx = match params.insert_idx {
                            Some(i) => i,
                            None => usize::MAX,
                        };
                        let section = Section::new(name.as_str());
                        match insert_section(todo_list, params.parent.as_ref(), idx, section) {
                            Ok(new_path) => {
                                save = true;
                                app.mode = Mode::Normal;
                                rebuild_and_select(app, todo_list, &new_path);
                                app.right_state.select(Some(0));
                            },
                            Err(_) => {},
                        }
                    },
                    Some(existing) => {
                        let ghost l0 = todo_list@;
                        match get_node_mut(todo_list, existing.as_slice()) {
                            Some(sec) => {
                                let ghost s0 = sec@;
                                sec.name = name;
                                assert(sec@ =~= SectionModel { name: trim(params.buf@), ..s0 });
                                save = true;
                            },
                            None => {},
                        }
                        app.mode = Mode::Normal;
                        rebuild_and_select(app, todo_list, existing);
                    },
                }
            }
            app.mode = Mode::Normal;
        },
        _ => {
            apply_edit_key(&mut params.buf, &mut params.cursor, code);
        },
    }
    let typing = match app.mode {
        Mode::InputSection { .. } => true,
        _ => false,
    };
    if typing {
        app.mode = Mode::InputSection {
            node: match &params.node {
                Some(p) => Some(clone_path(p)),
                None => None,
            },
            parent: match &params.parent {
                Some(p) => Some(clone_path(p)),
                None => None,
            },
            insert_idx: params.insert_idx,
            buf: params.buf.clone(),
            cursor: params.cursor,
        };
    }
    save
}

/// Typing a character and then deleting it with Backspace gives back the text
/// and the cursor as they were.
pub proof fn lemma_backspace_undoes_typing(buf: Seq<char>, cursor: usize, c: char)
    requires
        cursor <= buf.len(),
        cursor < usize::MAX,
    ensures
        ({
            let (b1, c1) = edit_buf(buf, cursor, Key::Char(c));
            edit_buf(b1, c1, Key::Backspace) == (buf, cursor)
        }),
{
    let b1 = buf.insert(cursor as int, c);
    assert(b1.remove(cursor as int) =~= buf);
}

/// Editing keeps the cursor within the text (at most at its end).
pub proof fn lemma_edit_keeps_cursor(buf: Seq<char>, cursor: usize, key: Key)
    requires
        cursor <= buf.len(),
        buf.len() < usize::MAX,
    ensures
        ({
            let (b1, c1) = edit_buf(buf, cursor, key);
            c1 <= b1.len()
        }),
{
}

/// Typing a task, a due date or a section name leaves the filter alone.
pub proof fn lemma_input_keeps_filter(
    app: AppModel,
    list: Seq<SectionModel>,
    key: Key,
    tp: TaskParamsModel,
    dp: DueParamsModel,
    sp: SectionParamsModel,
    due: Option<int>,
)
    ensures
        input_task_step(app, list, key, tp).0.filter == app.filter,
        input_task_step(app, list, key, tp).0.filter_lower == app.filter_lower,
        input_due_step(app, list, key, dp, due).0.filter == app.filter,
        input_due_step(app, list, key, dp, due).0.filter_lower == app.filter_lower,
        input_section_step(app, list, key, sp).0.filter == app.filter,
        input_section_step(app, list, key, sp).0.filter_lower == app.filter_lower,
{
}

/// Where Enter puts a new task typed next to row `k` of the task panel: typed
/// above it (`O`), the task goes into that row's section just before the
/// row's task, which moves one place down; typed below the row before it
/// (`a`/`o`), just after that row's task. Nothing else in the section changes.
pub proof fn lemma_new_task_beside_row(app: AppModel, list: Seq<SectionModel>, p: TaskParamsModel, k: usize)
    requires
        list_fits(list),
        trim(p.buf).len() > 0,
        selected_path(app) is Some,
        p.editing_idx is None,
        p.insert_idx == Some(k),
    ensures
        ({
            let refs = task_refs(list, selected_path(app)->0);
            let nl = commit_task(app, list, p).1;
            let t = TaskModel { text: trim(p.buf), is_done: false, due: None };
            &&& p.above && k < refs.len() ==> ({
                let r = refs[k as int];
                let s = node_at(list, r.node)->0;
                &&& node_at(list, r.node) is Some
                &&& node_at(nl, r.node) == Some(
                    SectionModel { tasks: s.tasks.insert(r.task_idx as int, t), ..s },
                )
                &&& node_at(nl, r.node)->0.tasks[r.task_idx as int] == t
                &&& node_at(nl, r.node)->0.tasks[r.task_idx + 1] == s.tasks[r.task_idx as int]
            })
            &&& !p.above && 0 < k <= refs.len() ==> ({
                let r = refs[k - 1];
                let s = node_at(list, r.node)->0;
                &&& node_at(list, r.node) is Some
                &&& node_at(nl, r.node) == Some(
                    SectionModel { tasks: s.tasks.insert(r.task_idx + 1, t), ..s },
                )
                &&& node_at(nl, r.node)->0.tasks[r.task_idx as int] == s.tasks[r.task_idx as int]
                &&& node_at(nl, r.node)->0.tasks[r.task_idx + 1] == t
            })
        }),
{
    let node = selected_path(app)->0;
    let refs = task_refs(list, node);
    lemma_task_refs_valid(list, node);
    let t = TaskModel { text: trim(p.buf), is_done: false, due: None };
    if p.above && k < refs.len() {
        let r = refs[k as int];
        assert(task_at(list, r) is Some);
        let s = node_at(list, r.node)->0;
        let n = SectionModel { tasks: s.tasks.insert(r.task_idx as int, t), ..s };
        crate::roundtrip::lemma_node_set_at(list, r.node, n);
    }
    if !p.above && 0 < k <= refs.len() {
        let r = refs[k - 1];
        assert(task_at(list, r) is Some);
        let s = node_at(list, r.node)->0;
        let n = SectionModel { tasks: s.tasks.insert(r.task_idx + 1, t), ..s };
        crate::roundtrip::lemma_node_set_at(list, r.node, n);
    }
}

} // verus!
