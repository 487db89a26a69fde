//! What the panels show: the rows of the section tree and of the task panel,
//! the task panel's title and the placement of the help window. Drawing them
//! is left to the terminal side.
use vstd::prelude::*;
use vstd::utf8::{encode_utf8, encode_utf8_decode_utf8};

use crate::date::{chrono_format_ymd, Date};
use crate::edit::char_to_byte;
use crate::model::{forest_tasks, lemma_children_view, lemma_forest_tasks_prefix, total_tasks};
use crate::refs::{filtered_refs, get_task_from_ref, get_task_refs_filtered, task_at};
use crate::state::{
    items_view, opt_str_view, refs_view, AppModel, AppState, Focus, Mode, ModeModel, TaskRefModel,
    TreeItem, TreeItemModel,
};
use crate::task::{get_node, node_at, sections_view, Section, SectionModel, Task, TaskModel, TodoList};
use crate::text::{lemma_boundary_at_split, lemma_encode_concat, push_char};
use crate::tree::{min_int, selected_node, selected_path};

verus! {

/// Two spaces of indentation per nesting level.
pub fn indent(depth: usize) -> (r: String)
    ensures
        r@ == Seq::new((2 * depth) as nat, |i: int| ' '),
{
    let mut s = String::new();
    let mut k: usize = 0;
    while k < depth
        invariant
            0 <= k <= depth,
            s@ == Seq::new((2 * k) as nat, |i: int| ' '),
        decreases depth - k,
    {
        push_char(&mut s, ' ');
        push_char(&mut s, ' ');
        assert(s@ =~= Seq::new((2 * (k + 1)) as nat, |i: int| ' '));
        k = k + 1;
    }
    s
}

/// The character of a decimal digit.
pub open spec fn digit_char(d: int) -> char {
    if d == 0 {
        '0'
    } else if d == 1 {
        '1'
    } else if d == 2 {
        '2'
    } else if d == 3 {
        '3'
    } else if d == 4 {
        '4'
    } else if d == 5 {
        '5'
    } else if d == 6 {
        '6'
    } else if d == 7 {
        '7'
    } else if d == 8 {
        '8'
    } else {
        '9'
    }
}

/// A number written in decimal, without leading zeros.
pub open spec fn decimal(n: nat) -> Seq<char>
    decreases n,
{
    if n < 10 {
        seq![digit_char(n as int)]
    } else {
        decimal(n / 10).push(digit_char((n % 10) as int))
    }
}

/// The character of the digit `d` (below ten).
fn digit_exec(d: usize) -> (c: char)
    requires
        d < 10,
    ensures
        c == digit_char(d as int),
{
    if d == 0 {
        '0'
    } else if d == 1 {
        '1'
    } else if d == 2 {
        '2'
    } else if d == 3 {
        '3'
    } else if d == 4 {
        '4'
    } else if d == 5 {
        '5'
    } else if d == 6 {
        '6'
    } else if d == 7 {
        '7'
    } else if d == 8 {
        '8'
    } else {
        '9'
    }
}

/// Writes `n` in decimal at the end of `s`.
fn push_decimal(s: &mut String, n: usize)
    ensures
        final(s)@ == old(s)@ + decimal(n as nat),
    decreases n,
{
    if n >= 10 {
        push_decimal(s, n / 10);
    }
    push_char(s, digit_exec(n % 10));
    proof {
        if n >= 10 {
            assert(old(s)@ + decimal((n / 10) as nat) + seq![digit_char((n % 10) as int)] =~= old(s)@
                + decimal(n as nat));
        } else {
            assert(old(s)@ + seq![digit_char(n as int)] =~= old(s)@ + decimal(n as nat));
        }
    }
}

/// What a section's row of the tree says of its task count: the count, or
/// `?` where it is not known.
pub open spec fn count_text(count: Option<nat>) -> Seq<char> {
    match count {
        Some(n) => decimal(n),
        None => "?"@,
    }
}

/// The label of a section's row of the tree: its indentation, its name and
/// its task count in brackets.
pub open spec fn section_label(depth: nat, name: Seq<char>, count: Option<nat>) -> Seq<char> {
    Seq::new(2 * depth, |i: int| ' ') + name + " ("@ + count_text(count) + ")"@
}

/// The label of a section's row of the tree (see `section_label`).
pub fn section_label_text(depth: usize, name: &str, count: Option<usize>) -> (r: String)
    ensures
        r@ == section_label(
            depth as nat,
            name@,
            match count {
                Some(n) => Some(n as nat),
                None => None,
            },
        ),
{
    let mut s = indent(depth);
    s.append(name);
    s.append(" (");
    match count {
        Some(n) => push_decimal(&mut s, n),
        None => s.append("?"),
    }
    s.append(")");
    proof {
        reveal_strlit(" (");
        reveal_strlit("?");
        reveal_strlit(")");
    }
    s
}

/// The text before and after the character at `char_idx` (all of it before,
/// for an index past the end).
pub fn split_at_char(s: &str, char_idx: usize) -> (r: (&str, &str))
    ensures
        r.0@ == s@.take(min_int(char_idx as int, s@.len() as int)),
        r.1@ == s@.skip(min_int(char_idx as int, s@.len() as int)),
{
    let byte = char_to_byte(s, char_idx);
    let ghost k = min_int(char_idx as int, s@.len() as int);
    let ghost a = s@.take(k);
    let ghost b = s@.skip(k);
    proof {
        assert(a + b =~= s@);
        lemma_boundary_at_split(a, b);
        lemma_encode_concat(a, b);
    }
    let (x, y) = s.split_at(byte);
    proof {
        let bytes = encode_utf8(s@);
        assert(bytes.subrange(0, byte as int) =~= encode_utf8(a));
        assert(bytes.subrange(byte as int, bytes.len() as int) =~= encode_utf8(b));
        encode_utf8_decode_utf8(x@);
        encode_utf8_decode_utf8(a);
        encode_utf8_decode_utf8(y@);
        encode_utf8_decode_utf8(b);
    }
    (x, y)
}

/// A rectangle of the screen.
#[derive(Clone, Copy, Debug, PartialEq, Eq, Structural)]
pub struct Rect {
    pub x: u16,
    pub y: u16,
    pub width: u16,
    pub height: u16,
}

/// A window `percent_x` percent as wide as `area` (at most as wide) and
/// `height` rows high (at most as high), centred in it.
pub fn centered_rect(percent_x: u16, height: u16, area: Rect) -> (r: Rect)
    requires
        area.width * percent_x <= u16::MAX,
        area.x + area.width <= u16::MAX,
        area.y + area.height <= u16::MAX,
    ensures
        ({
            let w = area.width * percent_x / 100;
            &&& r.x == area.x + (if area.width > w {
                area.width - w
            } else {
                0
            }) / 2
            &&& r.y == area.y + (if area.height > height {
                area.height - height
            } else {
                0
            }) / 2
            &&& r.width == min_int(w, area.width as int)
            &&& r.height == min_int(height as int, area.height as int)
        }),
{
    let popup_width = area.width * percent_x / 100;
    let free_x = if area.width > popup_width {
        area.width - popup_width
    } else {
        0
    };
    let free_y = if area.height > height {
        area.height - height
    } else {
        0
    };
    Rect {
        x: area.x + free_x / 2,
        y: area.y + free_y / 2,
        width: if popup_width < area.width {
            popup_width
        } else {
            area.width
        },
        height: if height < area.height {
            height
        } else {
            area.height
        },
    }
}

/// A row of the section tree: a name being typed (for a new section, or a
/// renamed one) split at the cursor; a section with its count of tasks (none
/// when the count passes a machine word); or nothing, for a path that leads
/// nowhere.
pub enum LeftRow {
    Typing { depth: usize, before: String, after: String, new: bool },
    Section { depth: usize, name: String, count: Option<usize> },
    Blank,
}

pub enum LeftRowModel {
    Typing { depth: nat, before: Seq<char>, after: Seq<char>, new: bool },
    Section { depth: nat, name: Seq<char>, count: Option<nat> },
    Blank,
}

impl LeftRow {
    pub open spec fn view(&self) -> LeftRowModel {
        match self {
            LeftRow::Typing { depth, before, after, new } => LeftRowModel::Typing {
                depth: *depth as nat,
                before: before@,
                after: after@,
                new: *new,
            },
            LeftRow::Section { depth, name, count } => LeftRowModel::Section {
                depth: *depth as nat,
                name: name@,
                count: match count {
                    Some(n) => Some(*n as nat),
                    None => None,
                },
            },
            LeftRow::Blank => LeftRowModel::Blank,
        }
    }
}

/// The number of tasks in a section and its descendants, where it fits a word.
pub open spec fn fitting_count(s: SectionModel) -> Option<nat> {
    if total_tasks(s) <= usize::MAX {
        Some(total_tasks(s))
    } else {
        None
    }
}

/// The number of tasks in a section and its descendants, or none where it
/// does not fit a machine word.
fn checked_count(sec: &Section) -> (r: Option<usize>)
    ensures
        r matches Some(n) ==> n == total_tasks(sec@),
        r is None ==> total_tasks(sec@) > usize::MAX,
    decreases sec,
{
    proof {
        lemma_children_view(sec);
    }
    let mut n: usize = sec.tasks.len();
    let mut k: usize = 0;
    while k < sec.children.len()
        invariant
            0 <= k <= sec.children@.len(),
            sec@.children == sections_view(sec.children@),
            n == sec@.tasks.len() + forest_tasks(sec@.children.subrange(0, k as int)),
        decreases sec.children@.len() - k,
    {
        proof {
            let cs = sec@.children;
            assert(cs.subrange(0, k + 1).subrange(0, k as int) =~= cs.subrange(0, k as int));
            lemma_forest_tasks_prefix(cs, k + 1);
            assert(cs.subrange(0, cs.len() as int) =~= cs);
        }
        match checked_count(&sec.children[k]) {
            Some(c) => {
                if c > usize::MAX - n {
                    return None;
                }
                n = n + c;
            },
            None => {
                return None;
            },
        }
        k = k + 1;
    }
    assert(sec@.children.subrange(0, k as int) =~= sec@.children);
    Some(n)
}

/// The text typed in the section tree and its cursor: those of the mode while
/// a section name is typed.
pub open spec fn section_typing(m: ModeModel) -> (Seq<char>, usize) {
    match m {
        ModeModel::InputSection { buf, cursor, .. } => (buf, cursor),
        _ => (Seq::empty(), 0),
    }
}

/// The row of the section tree that shows `item`.
pub open spec fn left_row(list: Seq<SectionModel>, mode: ModeModel, item: TreeItemModel) -> LeftRowModel {
    let (buf, cursor) = section_typing(mode);
    let k = min_int(cursor as int, buf.len() as int);
    match item {
        TreeItemModel::GhostRow(d) => {
            let (nb, nc) = match mode {
                ModeModel::InputSection { node: None, buf, cursor, .. } => (buf, cursor),
                _ => (Seq::empty(), 0usize),
            };
            let j = min_int(nc as int, nb.len() as int);
            LeftRowModel::Typing { depth: d, before: nb.take(j), after: nb.skip(j), new: true }
        },
        TreeItemModel::Node(path) => {
            let depth: nat = if path.len() > 0 {
                (path.len() - 1) as nat
            } else {
                0
            };
            if mode matches ModeModel::InputSection { node: Some(n), .. } && n == path {
                LeftRowModel::Typing { depth, before: buf.take(k), after: buf.skip(k), new: false }
            } else {
                match node_at(list, path) {
                    Some(s) => LeftRowModel::Section { depth, name: s.name, count: fitting_count(s) },
                    None => LeftRowModel::Blank,
                }
            }
        },
    }
}

/// The rows of the section tree, one for each listed row.
pub open spec fn left_rows_spec(list: Seq<SectionModel>, app: AppModel) -> Seq<LeftRowModel> {
    Seq::new(app.tree_items.len(), |i: int| left_row(list, app.mode, app.tree_items[i]))
}

/// A copy of a text.
fn text_copy(s: &str) -> (r: String)
    ensures
        r@ == s@,
{
    s.to_owned()
}

/// The row that shows `item` (see `left_row`).
fn left_row_of(todo_list: &TodoList, mode: &Mode, item: &TreeItem) -> (r: LeftRow)
    ensures
        r@ == left_row(todo_list@, mode@, item@),
{
    match item {
        TreeItem::GhostRow(d) => {
            let (before, after) = match mode {
                Mode::InputSection { node: None, buf, cursor, .. } => {
                    let (a, b) = split_at_char(buf.as_str(), *cursor);
                    (text_copy(a), text_copy(b))
                },
                _ => {
                    assert(Seq::<char>::empty().take(0) =~= Seq::<char>::empty());
                    assert(Seq::<char>::empty().skip(0) =~= Seq::<char>::empty());
                    (String::new(), String::new())
                },
            };
            LeftRow::Typing { depth: *d, before, after, new: true }
        },
        TreeItem::Node(path) => {
            let depth = if path.len() > 0 {
                path.len() - 1
            } else {
                0
            };
            let renaming = match mode {
                Mode::InputSection { node: Some(n), .. } => crate::tree::path_eq(n, path),
                _ => false,
            };
            if renaming {
                match mode {
                    Mode::InputSection { buf, cursor, .. } => {
                        let (a, b) = split_at_char(buf.as_str(), *cursor);
                        LeftRow::Typing { depth, before: text_copy(a), after: text_copy(b), new: false }
                    },
                    _ => LeftRow::Blank,
                }
            } else {
                match get_node(todo_list, path.as_slice()) {
                    Some(sec) => LeftRow::Section {
                        depth,
                        name: sec.name.clone(),
                        count: checked_count(sec),
                    },
                    None => LeftRow::Blank,
                }
            }
        },
    }
}

/// The rows of the section tree (see `left_row`).
pub fn left_rows(todo_list: &TodoList, app: &AppState) -> (r: Vec<LeftRow>)
    ensures
        r@.len() == app@.tree_items.len(),
        forall|i: int| 0 <= i < r@.len() ==> #[trigger] r@[i]@ == left_rows_spec(todo_list@, app@)[i],
{
    let mut out: Vec<LeftRow> = Vec::new();
    let mut i: usize = 0;
    while i < app.tree_items.len()
        invariant
            0 <= i <= app.tree_items@.len(),
            out@.len() == i,
            forall|j: int| 0 <= j < i ==> #[trigger] out@[j]@ == left_rows_spec(todo_list@, app@)[j],
        decreases app.tree_items@.len() - i,
    {
        assert(items_view(app.tree_items@)[i as int] == app.tree_items@[i as int]@);
        out.push(left_row_of(todo_list, &app.mode, &app.tree_items[i]));
        i = i + 1;
    }
    out
}

/// Whether the section tree has the keyboard while browsing.
pub open spec fn left_focused_spec(app: AppModel) -> bool {
    app.focus == Focus::Left && app.mode is Normal
}

/// Whether the section tree has the keyboard while browsing (see
/// `left_focused_spec`).
pub fn left_focused(app: &AppState) -> (r: bool)
    ensures
        r == left_focused_spec(app@),
{
    let normal = match app.mode {
        Mode::Normal => true,
        _ => false,
    };
    let left = match app.focus {
        Focus::Left => true,
        Focus::Right => false,
    };
    left && normal
}

/// Whether the section tree shows as active: browsing with it focused, or
/// typing a section name.
pub open spec fn left_active_spec(app: AppModel) -> bool {
    (app.focus == Focus::Left && app.mode is Normal) || app.mode is InputSection
}

/// Whether the section tree shows as active (see `left_active_spec`).
pub fn left_active(app: &AppState) -> (r: bool)
    ensures
        r == left_active_spec(app@),
{
    let normal = match app.mode {
        Mode::Normal => true,
        _ => false,
    };
    let naming = match app.mode {
        Mode::InputSection { .. } => true,
        _ => false,
    };
    let left = match app.focus {
        Focus::Left => true,
        Focus::Right => false,
    };
    (left && normal) || naming
}

/// How a due date stands: the task is done, or the date is past, today or later.
#[derive(Clone, Copy, Debug, PartialEq, Eq, Structural)]
pub enum DueStatus {
    Done,
    Overdue,
    Today,
    Later,
}

/// How the due date `d` of a task stands on day `today`.
pub open spec fn due_status_spec(is_done: bool, d: int, today: int) -> DueStatus {
    if is_done {
        DueStatus::Done
    } else if d < today {
        DueStatus::Overdue
    } else if d == today {
        DueStatus::Today
    } else {
        DueStatus::Later
    }
}

/// How a task's due date stands on `today` (see `due_status_spec`).
pub fn due_status(is_done: bool, due: Date, today: Date) -> (r: DueStatus)
    ensures
        r == due_status_spec(is_done, due.day(), today.day()),
{
    if is_done {
        DueStatus::Done
    } else if due.days() < today.days() {
        DueStatus::Overdue
    } else if due.days() == today.days() {
        DueStatus::Today
    } else {
        DueStatus::Later
    }
}

/// What a row of the task panel shows after its check box and breadcrumb: a
/// task, with its due date and how it stands, padded to the panel's width; a
/// task's text being edited; a task whose due date is being typed; or the text
/// of a new task.
pub enum RightRowKind {
    Task { text: String, due: Option<(String, DueStatus)>, pad: usize },
    Editing { buf: String },
    DueEditing { text: String, buf: String, pad: usize },
    New { buf: String },
}

/// A row of the task panel.
pub struct RightRow {
    pub is_done: bool,
    pub sub_name: Option<String>,
    pub kind: RightRowKind,
}

pub enum RightRowKindModel {
    Task { text: Seq<char>, due: Option<(Seq<char>, DueStatus)>, pad: nat },
    Editing { buf: Seq<char> },
    DueEditing { text: Seq<char>, buf: Seq<char>, pad: nat },
    New { buf: Seq<char> },
}

pub struct RightRowModel {
    pub is_done: bool,
    pub sub_name: Option<Seq<char>>,
    pub kind: RightRowKindModel,
}

impl RightRow {
    pub open spec fn view(&self) -> RightRowModel {
        RightRowModel {
            is_done: self.is_done,
            sub_name: opt_str_view(self.sub_name),
            kind: match self.kind {
                RightRowKind::Task { text, due, pad } => RightRowKindModel::Task {
                    text: text@,
                    due: match due {
                        Some((t, s)) => Some((t@, s)),
                        None => None,
                    },
                    pad: pad as nat,
                },
                RightRowKind::Editing { buf } => RightRowKindModel::Editing { buf: buf@ },
                RightRowKind::DueEditing { text, buf, pad } => RightRowKindModel::DueEditing {
                    text: text@,
                    buf: buf@,
                    pad: pad as nat,
                },
                RightRowKind::New { buf } => RightRowKindModel::New { buf: buf@ },
            },
        }
    }
}

/// The number of bytes that encode a text.
pub open spec fn bytes_of(s: Seq<char>) -> nat {
    encode_utf8(s).len()
}

/// `width` less `used`, or nothing when `used` fills it.
pub open spec fn pad_of(width: int, used: int) -> nat {
    if width > used {
        (width - used) as nat
    } else {
        0
    }
}

/// The bytes that a row's check box and breadcrumb take (`  x ` or `  ○ `,
/// then `[name] `).
pub open spec fn lead_bytes(is_done: bool, sub_name: Option<Seq<char>>) -> int {
    (if is_done {
        4int
    } else {
        6int
    }) + match sub_name {
        Some(n) => bytes_of(n) + 3,
        None => 0,
    }
}

/// The row of the task panel for a listed task `t`.
pub open spec fn task_row(
    r: TaskRefModel,
    t: TaskModel,
    i: int,
    mode: ModeModel,
    width: int,
    today: int,
) -> RightRowModel {
    let lead = lead_bytes(t.is_done, r.sub_name);
    RightRowModel {
        is_done: t.is_done,
        sub_name: r.sub_name,
        kind: if mode matches ModeModel::InputTask { editing_idx: Some(e), .. } && e == i {
            RightRowKindModel::Editing { buf: mode->InputTask_buf }
        } else if mode matches ModeModel::InputDue { task_idx, .. } && task_idx == i {
            RightRowKindModel::DueEditing {
                text: t.text,
                buf: mode->InputDue_buf,
                pad: pad_of(width, lead + bytes_of(t.text) + 6 + bytes_of(mode->InputDue_buf) + 1),
            }
        } else {
            RightRowKindModel::Task {
                text: t.text,
                due: match t.due {
                    Some(d) => Some((chrono_format_ymd(d), due_status_spec(t.is_done, d, today))),
                    None => None,
                },
                pad: pad_of(
                    width,
                    lead + bytes_of(t.text) + match t.due {
                        Some(d) => 6 + bytes_of(chrono_format_ymd(d)),
                        None => 0,
                    },
                ),
            }
        },
    }
}

/// The rows the task panel lists for the selected section (none without one).
pub open spec fn panel_refs(list: Seq<SectionModel>, app: AppModel) -> Seq<TaskRefModel> {
    match selected_path(app) {
        Some(node) => filtered_refs(list, node, app.filter_lower),
        None => Seq::empty(),
    }
}

/// The row of a task being added.
pub open spec fn new_row(buf: Seq<char>) -> RightRowModel {
    RightRowModel { is_done: false, sub_name: None, kind: RightRowKindModel::New { buf } }
}

/// The rows of the task panel, `width` bytes wide, on day `today`: one for
/// each listed task, and, while a new task is typed, its row where it will go.
pub open spec fn right_rows_spec(list: Seq<SectionModel>, app: AppModel, width: int, today: int) -> Seq<
    RightRowModel,
> {
    let refs = panel_refs(list, app);
    let base = Seq::new(
        refs.len(),
        |i: int| task_row(refs[i], task_at(list, refs[i])->0, i, app.mode, width, today),
    );
    match app.mode {
        ModeModel::InputTask { editing_idx: None, insert_idx, buf, .. } => {
            let n = base.len() as int;
            let at = match insert_idx {
                Some(k) => min_int(k as int, n),
                None => n,
            };
            base.insert(at, new_row(buf))
        },
        _ => base,
    }
}

/// The number of bytes that encode a text.
fn byte_len(s: &str) -> (r: usize)
    ensures
        r == bytes_of(s@),
{
    s.as_bytes().len()
}

/// `width` less `used`, or nothing when `used` fills it.
fn pad_exec(width: usize, used: u128) -> (r: usize)
    ensures
        r == pad_of(width as int, used as int),
{
    if (width as u128) > used {
        (width as u128 - used) as usize
    } else {
        0
    }
}

/// A copy of optional text.
fn opt_copy(s: &Option<String>) -> (r: Option<String>)
    ensures
        opt_str_view(r) == opt_str_view(*s),
{
    match s {
        Some(x) => Some(x.clone()),
        None => None,
    }
}

/// The bytes of the check box and breadcrumb.
fn lead_exec(is_done: bool, sub_name: &Option<String>) -> (r: u128)
    ensures
        r == lead_bytes(is_done, opt_str_view(*sub_name)),
        r <= usize::MAX + 10,
{
    let b: u128 = if is_done {
        4
    } else {
        6
    };
    match sub_name {
        Some(n) => b + byte_len(n.as_str()) as u128 + 3,
        None => b,
    }
}

/// The row of the task panel for task `t` of row `i` (see `task_row`).
fn task_row_exec(
    r: &crate::state::TaskRef,
    t: &Task,
    i: usize,
    mode: &Mode,
    width: usize,
    today: Date,
) -> (row: RightRow)
    ensures
        row@ == task_row(r@, t@, i as int, mode@, width as int, today.day()),
{
    let lead = lead_exec(t.is_done, &r.sub_name);
    let text_bytes = byte_len(t.text.as_str()) as u128;
    let editing = match mode {
        Mode::InputTask { editing_idx: Some(e), .. } => *e == i,
        _ => false,
    };
    let due_editing = match mode {
        Mode::InputDue { task_idx, .. } => *task_idx == i,
        _ => false,
    };
    let kind = if editing {
        match mode {
            Mode::InputTask { buf, .. } => RightRowKind::Editing { buf: buf.clone() },
            _ => RightRowKind::Editing { buf: String::new() },
        }
    } else if due_editing {
        match mode {
            Mode::InputDue { buf, .. } => {
                let used = lead + text_bytes + 6 + byte_len(buf.as_str()) as u128 + 1;
                RightRowKind::DueEditing { text: t.text.clone(), buf: buf.clone(), pad: pad_exec(width, used) }
            },
            _ => RightRowKind::Editing { buf: String::new() },
        }
    } else {
        let (due, due_bytes): (Option<(String, DueStatus)>, u128) = match &t.due {
            Some(d) => {
                let written = d.format_ymd();
                let n = byte_len(written.as_str()) as u128;
                (Some((written, due_status(t.is_done, *d, today))), 6 + n)
            },
            None => (None, 0),
        };
        RightRowKind::Task { text: t.text.clone(), due, pad: pad_exec(width, lead + text_bytes + due_bytes) }
    };
    RightRow { is_done: t.is_done, sub_name: opt_copy(&r.sub_name), kind }
}

/// The rows of the task panel (see `right_rows_spec`).
pub fn right_rows(todo_list: &TodoList, app: &AppState, width: usize, today: Date) -> (r: Vec<RightRow>)
    ensures
        r@.len() == right_rows_spec(todo_list@, app@, width as int, today.day()).len(),
        forall|i: int|
            0 <= i < r@.len() ==> #[trigger] r@[i]@ == right_rows_spec(todo_list@, app@, width as int, today.day())[i],
{
    let ghost want = right_rows_spec(todo_list@, app@, width as int, today.day());
    let refs = match selected_node(app) {
        Some(node) => get_task_refs_filtered(todo_list, &node, app.filter_lower.as_str()),
        None => Vec::new(),
    };
    let ghost rv = refs_view(refs@);
    assert(rv =~= panel_refs(todo_list@, app@));
    proof {
        crate::model::lemma_list_fits(*todo_list);
        if let Some(node) = selected_path(app@) {
            crate::refs::lemma_filtered_refs_valid(todo_list@, node, app@.filter_lower);
        }
    }
    let ghost base = Seq::new(
        rv.len(),
        |i: int| task_row(rv[i], task_at(todo_list@, rv[i])->0, i, app@.mode, width as int, today.day()),
    );
    let mut out: Vec<RightRow> = Vec::new();
    let mut i: usize = 0;
    while i < refs.len()
        invariant
            0 <= i <= refs@.len(),
            rv == refs_view(refs@),
            rv == panel_refs(todo_list@, app@),
            base == Seq::new(
                rv.len(),
                |i: int| task_row(rv[i], task_at(todo_list@, rv[i])->0, i, app@.mode, width as int, today.day()),
            ),
            forall|j: int| 0 <= j < rv.len() ==> #[trigger] task_at(todo_list@, rv[j]) is Some,
            out@.len() == i,
            forall|j: int| 0 <= j < i ==> #[trigger] out@[j]@ == base[j],
        decreases refs@.len() - i,
    {
        assert(rv[i as int] == refs@[i as int]@);
        assert(task_at(todo_list@, rv[i as int]) is Some);
        match get_task_from_ref(todo_list, &refs[i]) {
            Some(t) => {
                out.push(task_row_exec(&refs[i], t, i, &app.mode, width, today));
            },
            None => {
                out.push(RightRow { is_done: false, sub_name: None, kind: RightRowKind::New { buf: String::new() } });
            },
        }
        i = i + 1;
    }
    let adding = match &app.mode {
        Mode::InputTask { editing_idx: None, insert_idx, buf, .. } => Some((*insert_idx, buf.clone())),
        _ => None,
    };
    match adding {
        Some((at, buf)) => {
            let n = out.len();
            let pos = match at {
                Some(k) => if k < n {
                    k
                } else {
                    n
                },
                None => n,
            };
            let ghost before = out@;
            out.insert(pos, RightRow { is_done: false, sub_name: None, kind: RightRowKind::New { buf } });
            assert forall|j: int| 0 <= j < out@.len() implies #[trigger] out@[j]@ == want[j] by {
                if j < pos {
                    assert(out@[j] == before[j]);
                } else if j > pos {
                    assert(out@[j] == before[j - 1]);
                }
            }
        },
        None => {},
    }
    out
}

/// The task panel's title: the selected section's name, or `Tasks`.
pub open spec fn right_title_spec(list: Seq<SectionModel>, app: AppModel) -> Seq<char> {
    match selected_path(app) {
        Some(node) => seq![' ', ' '] + match node_at(list, node) {
            Some(s) => s.name,
            None => Seq::empty(),
        } + seq![' ', ' '],
        None => seq![' ', 'T', 'a', 's', 'k', 's', ' '],
    }
}

/// The task panel's title (see `right_title_spec`).
pub fn right_title(todo_list: &TodoList, app: &AppState) -> (r: String)
    ensures
        r@ == right_title_spec(todo_list@, app@),
{
    let mut t = String::new();
    match selected_node(app) {
        Some(node) => {
            push_char(&mut t, ' ');
            push_char(&mut t, ' ');
            match get_node(todo_list, node.as_slice()) {
                Some(sec) => t.append(sec.name.as_str()),
                None => {},
            }
            push_char(&mut t, ' ');
            push_char(&mut t, ' ');
        },
        None => {
            push_char(&mut t, ' ');
            push_char(&mut t, 'T');
            push_char(&mut t, 'a');
            push_char(&mut t, 's');
            push_char(&mut t, 'k');
            push_char(&mut t, 's');
            push_char(&mut t, ' ');
        },
    }
    assert(t@ =~= right_title_spec(todo_list@, app@));
    t
}

/// Whether the task panel shows as active: browsing with it focused, or
/// typing a task or a due date.
pub open spec fn right_active_spec(app: AppModel) -> bool {
    (app.focus == Focus::Right && app.mode is Normal) || app.mode is InputTask || app.mode is InputDue
}

/// Whether the task panel shows as active (see `right_active_spec`).
pub fn right_active(app: &AppState) -> (r: bool)
    ensures
        r == right_active_spec(app@),
{
    let normal = match app.mode {
        Mode::Normal => true,
        _ => false,
    };
    let typing = match app.mode {
        Mode::InputTask { .. } => true,
        Mode::InputDue { .. } => true,
        _ => false,
    };
    let right = match app.focus {
        Focus::Right => true,
        Focus::Left => false,
    };
    (right && normal) || typing
}

} // verus!
