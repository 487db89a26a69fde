//! The section tree as the left panel lists it, and the edits of its shape.
use vstd::prelude::*;

use crate::model::{
    lemma_node_set_same, lemma_sections_view_insert, lemma_sections_view_remove,
};
use crate::parser::clone_path;
use crate::roundtrip::{lemma_node_child, lemma_node_set_at, lemma_node_set_twice};
use crate::state::{
    items_view, lemma_items_view_push, opt_path_view, AppModel, AppState, Mode, ModeModel,
    TreeItem, TreeItemModel,
};
use crate::task::{
    get_node, get_node_mut, lemma_children_view, node_at, node_set, sec_at, sections_view, total_tasks,
    NodePath, Section, SectionModel, TodoList,
};

verus! {

broadcast use {
    lemma_items_view_push,
    lemma_sections_view_insert,
    lemma_sections_view_remove,
    crate::model::lemma_section_view_children,
};

/// Where the row of a section being typed stands: under which parent (none for
/// the top level) and before which child (none for after the last).
pub struct GhostSpot {
    pub parent: Option<Seq<usize>>,
    pub at: Option<usize>,
}

/// The row spot of the section being typed, if the mode is typing a new one.
pub open spec fn mode_ghost(m: ModeModel) -> Option<GhostSpot> {
    match m {
        ModeModel::InputSection { node: None, parent, insert_idx, .. } => Some(
            GhostSpot { parent, at: insert_idx },
        ),
        _ => None,
    }
}

/// The nesting level of the children of `parent`.
pub open spec fn depth_of(parent: Option<Seq<usize>>) -> nat {
    match parent {
        Some(p) => p.len(),
        None => 0,
    }
}

/// The path of child `i` of `parent`.
pub open spec fn row_path(parent: Option<Seq<usize>>, i: int) -> Seq<usize> {
    match parent {
        Some(p) => p.push(i as usize),
        None => seq![i as usize],
    }
}

/// Whether the typed section's row comes just before child `i` of `parent`.
pub open spec fn ghost_before(g: Option<GhostSpot>, parent: Option<Seq<usize>>, i: int) -> bool {
    g matches Some(s) && s.parent == parent && s.at == Some(i as usize)
}

/// Whether the typed section's row comes after the `n` children of `parent`.
pub open spec fn ghost_after(g: Option<GhostSpot>, parent: Option<Seq<usize>>, n: int) -> bool {
    g matches Some(s) && s.parent == parent && (s.at is None || s.at == Some(n as usize))
}

/// The rows of the forest `cs` under `parent`, in depth-first order, with the
/// typed section's row where it stands.
pub open spec fn walk_rows(cs: Seq<SectionModel>, parent: Option<Seq<usize>>, g: Option<GhostSpot>) -> Seq<
    TreeItemModel,
>
    decreases cs, 1int, 0int,
{
    walk_prefix(cs, parent, g, cs.len() as int) + if ghost_after(g, parent, cs.len() as int) {
        seq![TreeItemModel::GhostRow(depth_of(parent))]
    } else {
        Seq::empty()
    }
}

/// The rows of the first `n` sections of `cs` and their descendants.
pub open spec fn walk_prefix(
    cs: Seq<SectionModel>,
    parent: Option<Seq<usize>>,
    g: Option<GhostSpot>,
    n: int,
) -> Seq<TreeItemModel>
    decreases cs, 0int, n,
{
    if n <= 0 || n > cs.len() {
        Seq::empty()
    } else {
        let i = n - 1;
        let p = row_path(parent, i);
        walk_prefix(cs, parent, g, i) + (if ghost_before(g, parent, i) {
            seq![TreeItemModel::GhostRow(depth_of(parent))]
        } else {
            Seq::empty()
        }) + seq![TreeItemModel::Node(p)] + walk_rows(cs[i].children, Some(p), g)
    }
}

/// Whether two paths are equal.
pub fn path_eq(a: &Vec<usize>, b: &Vec<usize>) -> (r: bool)
    ensures
        r == (a@ == b@),
{
    if a.len() != b.len() {
        return false;
    }
    let mut i: usize = 0;
    while i < a.len()
        invariant
            a@.len() == b@.len(),
            0 <= i <= a@.len(),
            forall|j: int| 0 <= j < i ==> a@[j] == b@[j],
        decreases a@.len() - i,
    {
        if a[i] != b[i] {
            return false;
        }
        i = i + 1;
    }
    assert(a@ =~= b@);
    true
}

/// Whether two optional paths are equal.
fn opt_path_eq(a: &Option<NodePath>, b: Option<&NodePath>) -> (r: bool)
    ensures
        r == (opt_path_view(*a) == ref_path_view(b)),
{
    match (a, b) {
        (Some(x), Some(y)) => path_eq(x, y),
        (None, None) => true,
        _ => false,
    }
}

/// The view of an optional borrowed path.
pub open spec fn ref_path_view(p: Option<&NodePath>) -> Option<Seq<usize>> {
    match p {
        Some(v) => Some(v@),
        None => None,
    }
}

/// The view of where the typed section's row stands.
pub open spec fn ghost_view(g: Option<&(Option<NodePath>, Option<usize>)>) -> Option<GhostSpot> {
    match g {
        Some(x) => Some(GhostSpot { parent: opt_path_view(x.0), at: x.1 }),
        None => None,
    }
}

/// A copy of a path, or an empty path.
fn path_or_empty(p: Option<&NodePath>) -> (r: NodePath)
    ensures
        r@ == match p {
            Some(v) => v@,
            None => Seq::<usize>::empty(),
        },
{
    match p {
        Some(v) => clone_path(v),
        None => Vec::new(),
    }
}

/// Appends the rows of `children` (under `parent`, at nesting `depth`) to `items`.
fn walk_tree(
    items: &mut Vec<TreeItem>,
    ghost: Option<&(Option<NodePath>, Option<usize>)>,
    parent: Option<&NodePath>,
    children: &Vec<Section>,
    depth: usize,
)
    requires
        depth == depth_of(ref_path_view(parent)),
    ensures
        items_view(final(items)@) == items_view(old(items)@) + walk_rows(
            sections_view(children@),
            ref_path_view(parent),
            ghost_view(ghost),
        ),
    decreases children@,
{
    let ghost cs = sections_view(children@);
    let ghost pv = ref_path_view(parent);
    let ghost gv = ghost_view(ghost);
    let ghost start = items_view(items@);
    let n = children.len();
    let mut i: usize = 0;
    while i < n
        invariant
            n == children@.len(),
            cs == sections_view(children@),
            pv == ref_path_view(parent),
            gv == ghost_view(ghost),
            depth == depth_of(pv),
            0 <= i <= n,
            items_view(items@) == start + walk_prefix(cs, pv, gv, i as int),
        decreases n - i,
    {
        let child = &children[i];
        let ghost before = items_view(items@);
        let here = match ghost {
            Some(g) => opt_path_eq(&g.0, parent) && g.1 == Some(i),
            None => false,
        };
        if here {
            items.push(TreeItem::GhostRow(depth));
        }
        let ghost mid = items_view(items@);
        let mut p = path_or_empty(parent);
        p.push(i);
        let ghost rp = row_path(pv, i as int);
        assert(p@ =~= rp);
        items.push(TreeItem::Node(clone_path(&p)));
        let ghost mid2 = items_view(items@);
        assert(mid2 == mid.push(TreeItemModel::Node(rp)));
        proof {
            lemma_children_view(child);
        }
        walk_tree(items, ghost, Some(&p), &child.children, p.len());
        proof {
            let gpart = if ghost_before(gv, pv, i as int) {
                seq![TreeItemModel::GhostRow(depth_of(pv))]
            } else {
                Seq::empty()
            };
            assert(mid == before + gpart);
            assert(cs[i as int].children == sections_view(child.children@));
            assert(walk_prefix(cs, pv, gv, i + 1) == walk_prefix(cs, pv, gv, i as int) + gpart
                + seq![TreeItemModel::Node(rp)] + walk_rows(cs[i as int].children, Some(rp), gv));
            assert(items_view(items@) =~= start + walk_prefix(cs, pv, gv, i + 1));
        }
        i = i + 1;
    }
    let ghost before_end = items_view(items@);
    let at_end = match ghost {
        Some(g) => opt_path_eq(&g.0, parent) && (g.1.is_none() || g.1 == Some(n)),
        None => false,
    };
    if at_end {
        items.push(TreeItem::GhostRow(depth));
    }
    assert(items_view(items@) =~= start + walk_rows(cs, pv, gv));
}

/// The rows of the whole tree for the left panel, in depth-first order; while a
/// new section is typed, its row stands where the section will go.
pub fn build_tree_items(todo_list: &TodoList, mode: &Mode) -> (r: Vec<TreeItem>)
    ensures
        items_view(r@) == walk_rows(todo_list@, None, mode_ghost(mode@)),
{
    let ghost_spot: Option<(Option<NodePath>, Option<usize>)> = match mode {
        Mode::InputSection { node: None, parent, insert_idx, .. } => Some(
            (
                match parent {
                    Some(p) => Some(clone_path(p)),
                    None => None,
                },
                *insert_idx,
            ),
        ),
        _ => None,
    };
    let gref = ghost_spot.as_ref();
    assert(ghost_view(gref) == mode_ghost(mode@));
    let mut items: Vec<TreeItem> = Vec::new();
    walk_tree(&mut items, gref, None, &todo_list.sections, 0);
    assert(items_view(Seq::<TreeItem>::empty()) =~= Seq::<TreeItemModel>::empty());
    assert(items_view(items@) =~= walk_rows(todo_list@, None, mode_ghost(mode@)));
    items
}

/// The path of the selected row, if a section's row is selected.
pub open spec fn selected_path(app: AppModel) -> Option<Seq<usize>> {
    match app.left {
        Some(i) => if i < app.tree_items.len() {
            match app.tree_items[i as int] {
                TreeItemModel::Node(p) => Some(p),
                TreeItemModel::GhostRow(_) => None,
            }
        } else {
            None
        },
        None => None,
    }
}

/// The path of the section whose row is selected in the left panel.
pub fn selected_node(app: &AppState) -> (r: Option<NodePath>)
    ensures
        opt_path_view(r) == selected_path(app@),
{
    let idx = match app.left_state.selected() {
        Some(i) => i,
        None => return None,
    };
    if idx >= app.tree_items.len() {
        return None;
    }
    match &app.tree_items[idx] {
        TreeItem::Node(p) => Some(clone_path(p)),
        TreeItem::GhostRow(_) => None,
    }
}

/// The first position at or after `i` of `x` in `items`.
pub open spec fn pos_from(items: Seq<TreeItemModel>, x: TreeItemModel, i: int) -> Option<int>
    decreases items.len() - i,
{
    if i < 0 || i >= items.len() {
        None
    } else if items[i] == x {
        Some(i)
    } else {
        pos_from(items, x, i + 1)
    }
}

/// The first position of the row of the section at `path`.
fn node_position(items: &Vec<TreeItem>, path: &NodePath) -> (r: Option<usize>)
    ensures
        match r {
            Some(i) => pos_from(items_view(items@), TreeItemModel::Node(path@), 0) == Some(
                i as int,
            ),
            None => pos_from(items_view(items@), TreeItemModel::Node(path@), 0) is None,
        },
{
    let ghost iv = items_view(items@);
    let ghost x = TreeItemModel::Node(path@);
    let mut i: usize = 0;
    while i < items.len()
        invariant
            iv == items_view(items@),
            x == TreeItemModel::Node(path@),
            0 <= i <= items@.len(),
            pos_from(iv, x, 0) == pos_from(iv, x, i as int),
        decreases items@.len() - i,
    {
        let hit = match &items[i] {
            TreeItem::Node(p) => path_eq(p, path),
            TreeItem::GhostRow(_) => false,
        };
        assert(iv[i as int] == items@[i as int]@);
        if hit {
            return Some(i);
        }
        i = i + 1;
    }
    None
}

/// `app` with the rows rebuilt for `list` and the row of the section at `path`
/// selected where it is listed.
pub open spec fn rebuilt(app: AppModel, list: Seq<SectionModel>, path: Seq<usize>) -> AppModel {
    let rows = walk_rows(list, None, mode_ghost(app.mode));
    AppModel {
        tree_items: rows,
        left: match pos_from(rows, TreeItemModel::Node(path), 0) {
            Some(i) => Some(i as usize),
            None => app.left,
        },
        ..app
    }
}

/// Rebuilds the rows and selects the row of the section at `path` when it is listed.
pub fn rebuild_and_select(app: &mut AppState, todo_list: &TodoList, path: &NodePath)
    ensures
        final(app)@ == rebuilt(old(app)@, todo_list@, path@),
{
    app.tree_items = build_tree_items(todo_list, &app.mode);
    if let Some(pos) = node_position(&app.tree_items, path) {
        app.left_state.select(Some(pos));
    }
}

/// The name of the section at `node`, or empty text where there is none.
pub fn node_name(todo_list: &TodoList, node: &NodePath) -> (r: String)
    ensures
        r@ == match node_at(todo_list@, node@) {
            Some(s) => s.name,
            None => Seq::<char>::empty(),
        },
{
    match get_node(todo_list, node.as_slice()) {
        Some(s) => s.name.clone(),
        None => String::new(),
    }
}

/// The number of tasks in a section and all of its descendants.
pub fn count_tasks(sec: &Section) -> (n: usize)
    requires
        total_tasks(sec@) <= usize::MAX,
    ensures
        n == total_tasks(sec@),
{
    sec.count_tasks()
}

/// How many children the section at `path` has (the top level for none; none
/// for a path that leads nowhere).
pub fn child_count(todo_list: &TodoList, path: Option<&NodePath>) -> (r: usize)
    ensures
        r == match path {
            None => todo_list@.len(),
            Some(p) => match node_at(todo_list@, p@) {
                Some(s) => s.children.len(),
                None => 0,
            },
        },
{
    match path {
        None => todo_list.sections.len(),
        Some(p) => match get_node(todo_list, p.as_slice()) {
            Some(s) => {
                proof {
                    lemma_children_view(s);
                }
                s.children.len()
            },
            None => 0,
        },
    }
}

/// Why an edit of the tree was refused.
#[derive(Clone, Copy, Debug, PartialEq, Eq, Structural)]
pub enum TreeError {
    /// The parent named for a new section is not in the tree.
    ParentNotFound,
}

/// `s` with `c` inserted among its children at `i`.
pub open spec fn with_child_at(s: SectionModel, i: int, c: SectionModel) -> SectionModel {
    SectionModel { children: s.children.insert(i, c), ..s }
}

/// `s` with its child at `i` taken out.
pub open spec fn without_child(s: SectionModel, i: int) -> SectionModel {
    SectionModel { children: s.children.remove(i), ..s }
}

/// The smaller of two integers.
pub open spec fn min_int(a: int, b: int) -> int {
    if a <= b {
        a
    } else {
        b
    }
}

/// What inserting `sec` under `parent` at `idx` makes of `list`, and the new
/// section's path; none where the parent is not in the tree. An index past the
/// end puts the section last.
pub open spec fn inserted(
    list: Seq<SectionModel>,
    parent: Option<Seq<usize>>,
    idx: usize,
    sec: SectionModel,
) -> Option<(Seq<SectionModel>, Seq<usize>)> {
    match parent {
        None => {
            let i = min_int(idx as int, list.len() as int);
            Some((list.insert(i, sec), seq![i as usize]))
        },
        Some(p) => match node_at(list, p) {
            Some(s) => {
                let i = min_int(idx as int, s.children.len() as int);
                Some((node_set(list, p, with_child_at(s, i, sec)), p.push(i as usize)))
            },
            None => None,
        },
    }
}

/// What removing the section at `path` makes of `list`, and the section taken
/// out; none where no section is there.
pub open spec fn removed(list: Seq<SectionModel>, path: Seq<usize>) -> Option<
    (Seq<SectionModel>, SectionModel),
> {
    if path.len() == 0 {
        None
    } else if path.len() == 1 {
        if path[0] < list.len() {
            Some((list.remove(path[0] as int), list[path[0] as int]))
        } else {
            None
        }
    } else {
        let pp = path.drop_last();
        let k = path.last() as int;
        match node_at(list, pp) {
            Some(s) => if k < s.children.len() {
                Some((node_set(list, pp, without_child(s, k)), s.children[k]))
            } else {
                None
            },
            None => None,
        }
    }
}

/// Inserts `section` under `parent` (the top level for none) at `idx`, or last
/// where `idx` is past the end, and gives the new section's path.
pub fn insert_section(
    todo_list: &mut TodoList,
    parent: Option<&NodePath>,
    idx: usize,
    section: Section,
) -> (r: Result<NodePath, TreeError>)
    ensures
        match inserted(old(todo_list)@, ref_path_view(parent), idx, section@) {
            Some((l, p)) => r matches Ok(q) && q@ == p && final(todo_list)@ == l,
            None => r == Err::<NodePath, TreeError>(TreeError::ParentNotFound)
                && final(todo_list)@ == old(todo_list)@,
        },
{
    match parent {
        None => {
            let n = todo_list.sections.len();
            let i = if idx < n {
                idx
            } else {
                n
            };
            todo_list.sections.insert(i, section);
            let mut path: NodePath = Vec::new();
            path.push(i);
            assert(path@ =~= seq![i]);
            Ok(path)
        },
        Some(p) => {
            let sec = match get_node_mut(todo_list, p.as_slice()) {
                Some(s) => s,
                None => return Err(TreeError::ParentNotFound),
            };
            let ghost s0 = sec@;
            proof {
                lemma_children_view(sec);
            }
            let n = sec.children.len();
            let i = if idx < n {
                idx
            } else {
                n
            };
            sec.children.insert(i, section);
            proof {
                lemma_children_view(sec);
                assert(sec@ =~= with_child_at(s0, i as int, section@));
            }
            let mut path = clone_path(p);
            path.push(i);
            Ok(path)
        },
    }
}

/// Takes the section at `path` out of the tree and gives it back; none where no
/// section is there.
pub fn remove_section(todo_list: &mut TodoList, path: &NodePath) -> (r: Option<Section>)
    ensures
        match removed(old(todo_list)@, path@) {
            Some((l, s)) => r matches Some(x) && x@ == s && final(todo_list)@ == l,
            None => r is None && final(todo_list)@ == old(todo_list)@,
        },
{
    if path.len() == 0 {
        return None;
    }
    if path.len() == 1 {
        if path[0] < todo_list.sections.len() {
            let out = todo_list.sections.remove(path[0]);
            return Some(out);
        }
        return None;
    }
    let last = path.len() - 1;
    let mut parent_path: Vec<usize> = Vec::new();
    let mut i: usize = 0;
    while i < last
        invariant
            last == path@.len() - 1,
            0 <= i <= last,
            parent_path@ == path@.take(i as int),
        decreases last - i,
    {
        parent_path.push(path[i]);
        assert(path@.take(i as int).push(path@[i as int]) =~= path@.take(i + 1));
        i = i + 1;
    }
    assert(parent_path@ =~= path@.drop_last());
    let idx = path[last];
    let parent = match get_node_mut(todo_list, parent_path.as_slice()) {
        Some(s) => s,
        None => return None,
    };
    let ghost s0 = parent@;
    proof {
        lemma_children_view(parent);
    }
    if idx < parent.children.len() {
        let out = parent.children.remove(idx);
        proof {
            lemma_children_view(parent);
            assert(parent@ =~= without_child(s0, idx as int));
        }
        Some(out)
    } else {
        proof {
            lemma_node_set_same(old(todo_list)@, parent_path@);
        }
        None
    }
}

/// Removing the section that an insertion has just made gives back the
/// section that was inserted, and the tree as it was before the insertion.
pub proof fn lemma_remove_after_insert(
    list: Seq<SectionModel>,
    parent: Option<Seq<usize>>,
    idx: usize,
    sec: SectionModel,
)
    requires
        inserted(list, parent, idx, sec) is Some,
    ensures
        inserted(list, parent, idx, sec) matches Some((l, p)) && removed(l, p) == Some((list, sec)),
{
    let (l1, p) = inserted(list, parent, idx, sec)->0;
    match parent {
        None => {
            let i = min_int(idx as int, list.len() as int);
            assert(p =~= seq![i as usize]);
            assert(p.len() == 1 && p[0] as int == i);
            assert(l1.remove(i) =~= list);
            assert(l1[i] == sec);
        },
        Some(pp) => {
            let s = node_at(list, pp)->0;
            let i = min_int(idx as int, s.children.len() as int);
            let s1 = with_child_at(s, i, sec);
            assert(p.drop_last() =~= pp);
            lemma_node_set_at(list, pp, s1);
            assert(node_at(l1, pp) == Some(s1));
            assert(s1.children.remove(i) =~= s.children);
            assert(without_child(s1, i) == s);
            lemma_node_set_twice(list, pp, s1, s);
            lemma_node_set_same(list, pp);
        },
    }
}

/// An insertion under a parent that is in the tree succeeds, and its section
/// is found at the path it gives.
pub proof fn lemma_insert_then_find(
    list: Seq<SectionModel>,
    parent: Option<Seq<usize>>,
    idx: usize,
    sec: SectionModel,
)
    requires
        parent matches Some(p) ==> node_at(list, p) is Some,
    ensures
        inserted(list, parent, idx, sec) matches Some((l, p)) && node_at(l, p) == Some(sec),
{
    match parent {
        None => {
            let i = min_int(idx as int, list.len() as int);
            let p = seq![i as usize];
            let l1 = list.insert(i, sec);
            assert(p.drop_first() =~= Seq::<usize>::empty());
            assert(p[0] as int == i);
            assert(l1[i] == sec);
            assert(node_at(l1, p) == sec_at(l1[i], p.drop_first()));
        },
        Some(pp) => {
            let s = node_at(list, pp)->0;
            let i = min_int(idx as int, s.children.len() as int);
            let s1 = with_child_at(s, i, sec);
            lemma_node_set_at(list, pp, s1);
            lemma_node_child(node_set(list, pp, s1), pp, i as usize, sec);
        },
    }
}

} // verus!
