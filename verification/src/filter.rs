//! The left panel under a filter: the sections whose names match, with their
//! ancestors, or else the sections that hold matching tasks.
use vstd::prelude::*;

use crate::parser::clone_path;
use crate::refs::{str_contains, task_matches, task_matches_spec};
use crate::state::{items_view, lemma_items_view_push, Mode, ModeModel, TreeItem, TreeItemModel};
use crate::task::{
    lemma_children_view, sections_view, NodePath, Section, SectionModel, TodoList,
};
use crate::text::{contains, lower, to_lowercase};
use crate::tree::{build_tree_items, mode_ghost, path_eq, row_path, walk_rows};

verus! {

broadcast use {lemma_items_view_push, crate::model::lemma_section_view_children};

/// Whether a section's lower-cased name holds the lower-cased filter.
pub open spec fn section_matches_spec(s: SectionModel, f: Seq<char>) -> bool {
    contains(lower(s.name), f)
}

/// Whether a section or one of its descendants holds a task that matches.
pub open spec fn subtree_match(s: SectionModel, f: Seq<char>) -> bool
    decreases s, 0int,
{
    (exists|i: int| 0 <= i < s.tasks.len() && task_matches_spec(#[trigger] s.tasks[i], f))
        || forest_match(s.children, f, s.children.len() as int)
}

/// Whether one of the first `n` sections of `cs` has a matching task in its subtree.
pub open spec fn forest_match(cs: Seq<SectionModel>, f: Seq<char>, n: int) -> bool
    decreases cs, n,
{
    if n <= 0 || n > cs.len() {
        false
    } else {
        forest_match(cs, f, n - 1) || subtree_match(cs[n - 1], f)
    }
}

/// The paths, depth first, of the sections of `cs` (under `parent`) and their
/// descendants whose names match.
pub open spec fn name_paths(cs: Seq<SectionModel>, parent: Option<Seq<usize>>, f: Seq<char>) -> Seq<
    Seq<usize>,
>
    decreases cs, 1int, 0int,
{
    name_prefix(cs, parent, f, cs.len() as int)
}

/// `name_paths` for the first `n` sections of `cs`.
pub open spec fn name_prefix(cs: Seq<SectionModel>, parent: Option<Seq<usize>>, f: Seq<char>, n: int) -> Seq<
    Seq<usize>,
>
    decreases cs, 0int, n,
{
    if n <= 0 || n > cs.len() {
        Seq::empty()
    } else {
        let p = row_path(parent, n - 1);
        name_prefix(cs, parent, f, n - 1) + (if section_matches_spec(cs[n - 1], f) {
            seq![p]
        } else {
            Seq::empty()
        }) + name_paths(cs[n - 1].children, Some(p), f)
    }
}

/// The rows, depth first, of the sections of `cs` (under `parent`) whose
/// subtrees hold a matching task; a section without one hides its subtree.
pub open spec fn task_filtered_rows(cs: Seq<SectionModel>, parent: Option<Seq<usize>>, f: Seq<char>) -> Seq<
    TreeItemModel,
>
    decreases cs, 1int, 0int,
{
    task_filtered_prefix(cs, parent, f, cs.len() as int)
}

/// `task_filtered_rows` for the first `n` sections of `cs`.
pub open spec fn task_filtered_prefix(
    cs: Seq<SectionModel>,
    parent: Option<Seq<usize>>,
    f: Seq<char>,
    n: int,
) -> Seq<TreeItemModel>
    decreases cs, 0int, n,
{
    if n <= 0 || n > cs.len() {
        Seq::empty()
    } else {
        let p = row_path(parent, n - 1);
        task_filtered_prefix(cs, parent, f, n - 1) + if subtree_match(cs[n - 1], f) {
            seq![TreeItemModel::Node(p)] + task_filtered_rows(cs[n - 1].children, Some(p), f)
        } else {
            Seq::empty()
        }
    }
}

/// `items` with the row of `p` added at the end, unless it is there already.
pub open spec fn add_row(items: Seq<TreeItemModel>, p: Seq<usize>) -> Seq<TreeItemModel> {
    if items.contains(TreeItemModel::Node(p)) {
        items
    } else {
        items.push(TreeItemModel::Node(p))
    }
}

/// `items` with the rows of the first `k` ancestors-or-self of `path` added,
/// the shortest first.
pub open spec fn with_ancestors(items: Seq<TreeItemModel>, path: Seq<usize>, k: int) -> Seq<
    TreeItemModel,
>
    decreases k,
{
    if k <= 0 {
        items
    } else {
        add_row(with_ancestors(items, path, k - 1), path.take(k))
    }
}

/// The rows of the first `n` paths of `paths` and of all their ancestors,
/// each once, in the order they are first met.
pub open spec fn ancestor_rows(paths: Seq<Seq<usize>>, n: int) -> Seq<TreeItemModel>
    decreases n,
{
    if n <= 0 || n > paths.len() {
        Seq::empty()
    } else {
        with_ancestors(ancestor_rows(paths, n - 1), paths[n - 1], paths[n - 1].len() as int)
    }
}

/// The rows the left panel shows: the whole tree for an empty filter or while a
/// section is typed; else the sections whose names match and their ancestors,
/// or, where no name matches, the sections whose subtrees hold a matching task.
pub open spec fn visible_rows(list: Seq<SectionModel>, mode: ModeModel, f: Seq<char>) -> Seq<
    TreeItemModel,
> {
    if f.len() == 0 || mode is InputSection {
        walk_rows(list, None, mode_ghost(mode))
    } else {
        let np = name_paths(list, None, f);
        if np.len() > 0 {
            ancestor_rows(np, np.len() as int)
        } else {
            task_filtered_rows(list, None, f)
        }
    }
}

/// Whether a section's name matches a lower-cased filter.
fn section_matches(sec: &Section, filter_lower: &str) -> (r: bool)
    ensures
        r == section_matches_spec(sec@, filter_lower@),
{
    let lower = to_lowercase(sec.name.as_str());
    str_contains(lower.as_str(), filter_lower)
}

/// Whether a section or one of its descendants holds a matching task.
fn subtree_has_matching_task(sec: &Section, filter_lower: &str) -> (r: bool)
    ensures
        r == subtree_match(sec@, filter_lower@),
    decreases sec,
{
    proof {
        lemma_children_view(sec);
    }
    let ghost f = filter_lower@;
    let mut i: usize = 0;
    while i < sec.tasks.len()
        invariant
            0 <= i <= sec.tasks@.len(),
            f == filter_lower@,
            forall|j: int| 0 <= j < i ==> !task_matches_spec(#[trigger] sec@.tasks[j], f),
        decreases sec.tasks@.len() - i,
    {
        if task_matches(&sec.tasks[i], filter_lower) {
            assert(task_matches_spec(sec@.tasks[i as int], f));
            return true;
        }
        i = i + 1;
    }
    let mut k: usize = 0;
    while k < sec.children.len()
        invariant
            0 <= k <= sec.children@.len(),
            f == filter_lower@,
            sec@.children == sections_view(sec.children@),
            !forest_match(sec@.children, f, k as int),
        decreases sec.children@.len() - k,
    {
        if subtree_has_matching_task(&sec.children[k], filter_lower) {
            assert(forest_match(sec@.children, f, k + 1));
            assert(forest_match(sec@.children, f, sec@.children.len() as int)) by {
                lemma_forest_match_mono(sec@.children, f, k + 1, sec@.children.len() as int);
            }
            return true;
        }
        k = k + 1;
    }
    false
}

proof fn lemma_forest_match_mono(cs: Seq<SectionModel>, f: Seq<char>, a: int, b: int)
    requires
        0 <= a <= b <= cs.len(),
        forest_match(cs, f, a),
    ensures
        forest_match(cs, f, b),
    decreases b - a,
{
    if a < b {
        lemma_forest_match_mono(cs, f, a, b - 1);
    }
}

/// A copy of the path of child `i` of `parent`.
fn child_path(parent: Option<&NodePath>, i: usize) -> (r: NodePath)
    ensures
        r@ == row_path(
            match parent {
                Some(p) => Some(p@),
                None => None,
            },
            i as int,
        ),
{
    let mut p = match parent {
        Some(v) => clone_path(v),
        None => Vec::new(),
    };
    p.push(i);
    assert(p@ =~= row_path(
        match parent {
            Some(q) => Some(q@),
            None => None,
        },
        i as int,
    ));
    p
}

/// Appends the paths of the sections under `parent` whose names match.
fn collect_section_name_matches(
    paths: &mut Vec<NodePath>,
    parent: Option<&NodePath>,
    children: &Vec<Section>,
    filter_lower: &str,
)
    ensures
        paths_view(final(paths)@) == paths_view(old(paths)@) + name_paths(
            sections_view(children@),
            match parent {
                Some(p) => Some(p@),
                None => None,
            },
            filter_lower@,
        ),
    decreases children@,
{
    let ghost cs = sections_view(children@);
    let ghost pv = match parent {
        Some(p) => Some(p@),
        None => None,
    };
    let ghost start = paths_view(paths@);
    let mut i: usize = 0;
    while i < children.len()
        invariant
            0 <= i <= children@.len(),
            cs == sections_view(children@),
            pv == match parent {
                Some(p) => Some(p@),
                None => None,
            },
            paths_view(paths@) == start + name_prefix(cs, pv, filter_lower@, i as int),
        decreases children@.len() - i,
    {
        let child = &children[i];
        let p = child_path(parent, i);
        let ghost before = paths_view(paths@);
        let hit = section_matches(child, filter_lower);
        if hit {
            paths.push(clone_path(&p));
        }
        let ghost mid = paths_view(paths@);
        assert(mid == before + if hit {
            seq![p@]
        } else {
            Seq::<Seq<usize>>::empty()
        }) by {
            assert(mid =~= before + if hit {
                seq![p@]
            } else {
                Seq::<Seq<usize>>::empty()
            });
        }
        proof {
            lemma_children_view(child);
        }
        collect_section_name_matches(paths, Some(&p), &child.children, filter_lower);
        assert(paths_view(paths@) =~= start + name_prefix(cs, pv, filter_lower@, i + 1));
        i = i + 1;
    }
}

/// The views of a list of paths.
pub open spec fn paths_view(v: Seq<NodePath>) -> Seq<Seq<usize>> {
    Seq::new(v.len(), |i: int| v[i]@)
}

/// Appends the rows of the sections under `parent` whose subtrees hold a
/// matching task.
fn walk_tree_filtered_by_task(
    items: &mut Vec<TreeItem>,
    parent: Option<&NodePath>,
    children: &Vec<Section>,
    filter_lower: &str,
)
    ensures
        items_view(final(items)@) == items_view(old(items)@) + task_filtered_rows(
            sections_view(children@),
            match parent {
                Some(p) => Some(p@),
                None => None,
            },
            filter_lower@,
        ),
    decreases children@,
{
    let ghost cs = sections_view(children@);
    let ghost pv = match parent {
        Some(p) => Some(p@),
        None => None,
    };
    let ghost start = items_view(items@);
    let mut i: usize = 0;
    while i < children.len()
        invariant
            0 <= i <= children@.len(),
            cs == sections_view(children@),
            pv == match parent {
                Some(p) => Some(p@),
                None => None,
            },
            items_view(items@) == start + task_filtered_prefix(cs, pv, filter_lower@, i as int),
        decreases children@.len() - i,
    {
        let child = &children[i];
        let p = child_path(parent, i);
        let desc_match = subtree_has_matching_task(child, filter_lower);
        if desc_match {
            let ghost before = items_view(items@);
            items.push(TreeItem::Node(clone_path(&p)));
            proof {
                lemma_children_view(child);
            }
            walk_tree_filtered_by_task(items, Some(&p), &child.children, filter_lower);
            assert(items_view(items@) =~= start + task_filtered_prefix(
                cs,
                pv,
                filter_lower@,
                i + 1,
            ));
        } else {
            assert(items_view(items@) =~= start + task_filtered_prefix(
                cs,
                pv,
                filter_lower@,
                i + 1,
            ));
        }
        i = i + 1;
    }
}

/// Whether the row of the section at `p` is among `items`.
fn has_node_row(items: &Vec<TreeItem>, p: &NodePath) -> (r: bool)
    ensures
        r == items_view(items@).contains(TreeItemModel::Node(p@)),
{
    let ghost x = TreeItemModel::Node(p@);
    let mut i: usize = 0;
    while i < items.len()
        invariant
            0 <= i <= items@.len(),
            x == TreeItemModel::Node(p@),
            forall|j: int| 0 <= j < i ==> items_view(items@)[j] != x,
        decreases items@.len() - i,
    {
        let hit = match &items[i] {
            TreeItem::Node(q) => path_eq(q, p),
            TreeItem::GhostRow(_) => false,
        };
        assert(items_view(items@)[i as int] == items@[i as int]@);
        if hit {
            assert(items_view(items@)[i as int] == x);
            return true;
        }
        i = i + 1;
    }
    false
}

/// The rows of the left panel under a lower-cased filter: the whole tree for
/// an empty filter or while a section is typed; else the sections whose names
/// match with their ancestors; else the sections whose subtrees hold a
/// matching task.
pub fn build_visible_tree_items(todo_list: &TodoList, mode: &Mode, filter_lower: &str) -> (r: Vec<
    TreeItem,
>)
    ensures
        items_view(r@) == visible_rows(todo_list@, mode@, filter_lower@),
{
    let typing = match mode {
        Mode::InputSection { .. } => true,
        _ => false,
    };
    if filter_lower.is_empty() || typing {
        return build_tree_items(todo_list, mode);
    }
    let mut name_matched_paths: Vec<NodePath> = Vec::new();
    collect_section_name_matches(&mut name_matched_paths, None, &todo_list.sections, filter_lower);
    assert(paths_view(Seq::<NodePath>::empty()) =~= Seq::<Seq<usize>>::empty());
    let ghost np = name_paths(todo_list@, None, filter_lower@);
    assert(paths_view(name_matched_paths@) =~= np);
    let mut items: Vec<TreeItem> = Vec::new();
    assert(items_view(items@) =~= Seq::<TreeItemModel>::empty());
    if name_matched_paths.len() > 0 {
        let mut n: usize = 0;
        while n < name_matched_paths.len()
            invariant
                0 <= n <= name_matched_paths@.len(),
                paths_view(name_matched_paths@) == np,
                items_view(items@) == ancestor_rows(np, n as int),
            decreases name_matched_paths@.len() - n,
        {
            let path = &name_matched_paths[n];
            assert(np[n as int] == path@);
            let ghost base = items_view(items@);
            let mut ancestor_path: Vec<usize> = Vec::new();
            let mut depth: usize = 0;
            while depth < path.len()
                invariant
                    0 <= depth <= path@.len(),
                    ancestor_path@ == path@.take(depth as int),
                    items_view(items@) == with_ancestors(base, path@, depth as int),
                decreases path@.len() - depth,
            {
                ancestor_path.push(path[depth]);
                assert(path@.take(depth as int).push(path@[depth as int]) =~= path@.take(
                    depth + 1,
                ));
                if !has_node_row(&items, &ancestor_path) {
                    items.push(TreeItem::Node(clone_path(&ancestor_path)));
                }
                depth = depth + 1;
            }
            n = n + 1;
        }
    } else {
        walk_tree_filtered_by_task(&mut items, None, &todo_list.sections, filter_lower);
        assert(items_view(items@) =~= task_filtered_rows(todo_list@, None, filter_lower@));
    }
    items
}

} // verus!
