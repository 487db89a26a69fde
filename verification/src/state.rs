//! The interface's state: focus, mode, the visible tree and the selections.
use vstd::prelude::*;

use crate::task::{NodePath, Section, SectionModel, Task, TaskModel};
use crate::text::lower;

verus! {

/// A key press, as the interface tells keys apart; every other key is `Other`.
#[derive(Clone, Copy, Debug, PartialEq, Eq, Structural)]
pub enum Key {
    Char(char),
    Enter,
    Esc,
    Backspace,
    Delete,
    Left,
    Right,
    Up,
    Down,
    Home,
    End,
    Tab,
    Other,
}

/// What the caller is to do after a key: stop, and save the list.
#[derive(Clone, Copy, Debug, PartialEq, Eq, Structural)]
pub struct Outcome {
    pub quit: bool,
    pub save: bool,
}

/// Which panel has the keyboard.
#[derive(Clone, Copy, Debug, PartialEq, Eq, Structural)]
pub enum Focus {
    Left,
    Right,
}

/// A row of the section tree: a section by its path, or the row where a new
/// section is being typed, with its depth.
#[derive(Clone, Debug, PartialEq, Eq)]
pub enum TreeItem {
    Node(NodePath),
    GhostRow(usize),
}

/// A tree row as a mathematical value.
pub enum TreeItemModel {
    Node(Seq<usize>),
    GhostRow(nat),
}

impl TreeItem {
    pub open spec fn view(&self) -> TreeItemModel {
        match self {
            TreeItem::Node(p) => TreeItemModel::Node(p@),
            TreeItem::GhostRow(d) => TreeItemModel::GhostRow(*d as nat),
        }
    }

    /// A copy of the row.
    pub fn copy(&self) -> (r: TreeItem)
        ensures
            r@ == self@,
    {
        match self {
            TreeItem::Node(p) => TreeItem::Node(crate::parser::clone_path(p)),
            TreeItem::GhostRow(d) => TreeItem::GhostRow(*d),
        }
    }
}

/// The models of a list of tree rows.
pub open spec fn items_view(v: Seq<TreeItem>) -> Seq<TreeItemModel> {
    Seq::new(v.len(), |i: int| v[i].view())
}

pub broadcast proof fn lemma_items_view_push(v: Seq<TreeItem>, x: TreeItem)
    ensures
        #[trigger] items_view(v.push(x)) == items_view(v).push(x@),
{
    assert(items_view(v.push(x)) =~= items_view(v).push(x@));
}

/// What a yank holds.
#[derive(Debug, PartialEq)]
pub enum ClipboardItem {
    Task(Task),
    Section(Section),
}

/// What the clipboard holds, as a mathematical value.
pub enum ClipboardModel {
    Task(TaskModel),
    Section(SectionModel),
}

impl ClipboardItem {
    pub open spec fn view(&self) -> ClipboardModel {
        match self {
            ClipboardItem::Task(t) => ClipboardModel::Task(t@),
            ClipboardItem::Section(s) => ClipboardModel::Section(s@),
        }
    }
}

impl Clone for ClipboardItem {
    fn clone(&self) -> (r: ClipboardItem)
        ensures
            r@ == self@,
    {
        match self {
            ClipboardItem::Task(t) => ClipboardItem::Task(t.clone()),
            ClipboardItem::Section(s) => ClipboardItem::Section(s.clone()),
        }
    }
}

/// What the keyboard is doing: browsing, reading help, filtering, or typing a
/// task, a due date or a section name.
#[derive(Clone, Debug, PartialEq, Eq)]
pub enum Mode {
    Normal,
    Help,
    Filter,
    InputTask {
        editing_idx: Option<usize>,
        insert_idx: Option<usize>,
        above: bool,
        buf: String,
        cursor: usize,
    },
    InputDue { task_idx: usize, buf: String, cursor: usize },
    InputSection {
        node: Option<NodePath>,
        parent: Option<NodePath>,
        insert_idx: Option<usize>,
        buf: String,
        cursor: usize,
    },
}

/// What the keyboard is doing, as a mathematical value.
#[verifier::ext_equal]
pub enum ModeModel {
    Normal,
    Help,
    Filter,
    InputTask {
        editing_idx: Option<usize>,
        insert_idx: Option<usize>,
        above: bool,
        buf: Seq<char>,
        cursor: usize,
    },
    InputDue { task_idx: usize, buf: Seq<char>, cursor: usize },
    InputSection {
        node: Option<Seq<usize>>,
        parent: Option<Seq<usize>>,
        insert_idx: Option<usize>,
        buf: Seq<char>,
        cursor: usize,
    },
}

/// The view of an optional path.
pub open spec fn opt_path_view(p: Option<NodePath>) -> Option<Seq<usize>> {
    match p {
        Some(v) => Some(v@),
        None => None,
    }
}

impl Mode {
    pub open spec fn view(&self) -> ModeModel {
        match self {
            Mode::Normal => ModeModel::Normal,
            Mode::Help => ModeModel::Help,
            Mode::Filter => ModeModel::Filter,
            Mode::InputTask { editing_idx, insert_idx, above, buf, cursor } => ModeModel::InputTask {
                editing_idx: *editing_idx,
                insert_idx: *insert_idx,
                above: *above,
                buf: buf@,
                cursor: *cursor,
            },
            Mode::InputDue { task_idx, buf, cursor } => ModeModel::InputDue {
                task_idx: *task_idx,
                buf: buf@,
                cursor: *cursor,
            },
            Mode::InputSection { node, parent, insert_idx, buf, cursor } => ModeModel::InputSection {
                node: opt_path_view(*node),
                parent: opt_path_view(*parent),
                insert_idx: *insert_idx,
                buf: buf@,
                cursor: *cursor,
            },
        }
    }
}

/// The selection of a list panel (the part of a list widget's state that the
/// interface decides).
#[derive(Clone, Copy, Debug, PartialEq, Eq, Structural)]
pub struct ListState {
    pub selected: Option<usize>,
}

impl ListState {
    /// No row selected.
    pub fn new() -> (r: ListState)
        ensures
            r.selected is None,
    {
        ListState { selected: None }
    }

    /// Selects a row (or none).
    pub fn select(&mut self, index: Option<usize>)
        ensures
            final(self).selected == index,
    {
        self.selected = index;
    }

    /// The selected row.
    pub fn selected(&self) -> (r: Option<usize>)
        ensures
            r == self.selected,
    {
        self.selected
    }
}

/// The whole interface state.
pub struct AppState {
    pub focus: Focus,
    pub mode: Mode,
    pub tree_items: Vec<TreeItem>,
    pub left_state: ListState,
    pub right_state: ListState,
    pub pending_d: bool,
    pub pending_g: bool,
    pub pending_y: bool,
    pub clipboard: Option<ClipboardItem>,
    pub help_scroll: u16,
    pub filter: String,
    pub filter_lower: String,
}

/// The interface state as a mathematical value.
#[verifier::ext_equal]
pub struct AppModel {
    pub focus: Focus,
    pub mode: ModeModel,
    pub tree_items: Seq<TreeItemModel>,
    pub left: Option<usize>,
    pub right: Option<usize>,
    pub pending_d: bool,
    pub pending_g: bool,
    pub pending_y: bool,
    pub clipboard: Option<ClipboardModel>,
    pub help_scroll: u16,
    pub filter: Seq<char>,
    pub filter_lower: Seq<char>,
}

/// The view of what the clipboard holds.
pub open spec fn clip_view(c: Option<ClipboardItem>) -> Option<ClipboardModel> {
    match c {
        Some(x) => Some(x@),
        None => None,
    }
}

impl AppState {
    pub open spec fn view(&self) -> AppModel {
        AppModel {
            focus: self.focus,
            mode: self.mode@,
            tree_items: items_view(self.tree_items@),
            left: self.left_state.selected,
            right: self.right_state.selected,
            pending_d: self.pending_d,
            pending_g: self.pending_g,
            pending_y: self.pending_y,
            clipboard: clip_view(self.clipboard),
            help_scroll: self.help_scroll,
            filter: self.filter@,
            filter_lower: self.filter_lower@,
        }
    }

    /// The state at start: the left panel focused, the first section selected
    /// when there is one, the first task row selected, nothing pending.
    pub fn new(section_count: usize) -> (r: AppState)
        ensures
            r.focus == Focus::Left,
            r.mode@ == ModeModel::Normal,
            r.tree_items@.len() == 0,
            r.left_state.selected == (if section_count > 0 {
                Some(0usize)
            } else {
                None
            }),
            r.right_state.selected == Some(0usize),
            !r.pending_d && !r.pending_g && !r.pending_y,
            r.clipboard is None,
            r.help_scroll == 0,
            r.filter@.len() == 0,
            r.filter_lower@.len() == 0,
            r.filter_lower@ == lower(r.filter@),
    {
        let mut left_state = ListState::new();
        if section_count > 0 {
            left_state.select(Some(0));
        }
        let mut right_state = ListState::new();
        right_state.select(Some(0));
        AppState {
            focus: Focus::Left,
            mode: Mode::Normal,
            tree_items: Vec::new(),
            left_state,
            right_state,
            pending_d: false,
            pending_g: false,
            pending_y: false,
            clipboard: None,
            help_scroll: 0,
            filter: String::new(),
            filter_lower: String::new(),
        }
    }
}

/// A row of the task panel: the task at `task_idx` of the section at `node`,
/// with the names of the sections between the listed section and the task's
/// own, when the task sits in a nested section.
#[derive(Clone, Debug, PartialEq, Eq)]
pub struct TaskRef {
    pub node: NodePath,
    pub task_idx: usize,
    pub sub_name: Option<String>,
}

/// A task row as a mathematical value.
pub struct TaskRefModel {
    pub node: Seq<usize>,
    pub task_idx: usize,
    pub sub_name: Option<Seq<char>>,
}

/// The view of optional text.
pub open spec fn opt_str_view(s: Option<String>) -> Option<Seq<char>> {
    match s {
        Some(x) => Some(x@),
        None => None,
    }
}

impl TaskRef {
    pub open spec fn view(&self) -> TaskRefModel {
        TaskRefModel { node: self.node@, task_idx: self.task_idx, sub_name: opt_str_view(self.sub_name) }
    }
}

/// The models of a list of task rows.
pub open spec fn refs_view(v: Seq<TaskRef>) -> Seq<TaskRefModel> {
    Seq::new(v.len(), |i: int| v[i].view())
}

pub broadcast proof fn lemma_refs_view_push(v: Seq<TaskRef>, x: TaskRef)
    ensures
        #[trigger] refs_view(v.push(x)) == refs_view(v).push(x@),
{
    assert(refs_view(v.push(x)) =~= refs_view(v).push(x@));
}


}
