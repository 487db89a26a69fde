//! The task rows of the right panel: which tasks a selected section lists, and
//! how a filter narrows them.
use vstd::prelude::*;

use crate::date::chrono_format_ymd;
use crate::model::{
    forest_tasks, total_tasks, fits, lemma_forest_fits_at, lemma_node_at_fits, lemma_node_set_same, lemma_tasks_view_update,
    list_fits,
};
use crate::parser::clone_path;
use crate::state::{lemma_refs_view_push, opt_str_view, refs_view, TaskRef, TaskRefModel};
use crate::task::{
    get_node, get_node_mut, lemma_children_view, node_at, node_set, sections_view, tasks_view,
    NodePath, Section, SectionModel, Task, TaskModel, TodoList,
};
use crate::text::{chars_of, contains, find, find_exec, lemma_find_from, lower, push_char, to_lowercase};

verus! {

broadcast use {
    lemma_tasks_view_update,
    lemma_refs_view_push,
    crate::model::lemma_section_view_children,
};

/// What stands between the names of a breadcrumb.
pub open spec fn crumb_sep() -> Seq<char> {
    seq![' ', '›', ' ']
}

/// `parts` joined by `sep`.
pub open spec fn join(parts: Seq<Seq<char>>, sep: Seq<char>) -> Seq<char>
    decreases parts.len(),
{
    if parts.len() == 0 {
        Seq::empty()
    } else if parts.len() == 1 {
        parts[0]
    } else {
        join(parts.drop_last(), sep) + sep + parts.last()
    }
}

/// The names of the sections at the prefixes of `node` of lengths 2 to `m`
/// that lead to a section.
pub open spec fn crumb_parts(list: Seq<SectionModel>, node: Seq<usize>, m: int) -> Seq<Seq<char>>
    decreases m,
{
    if m < 2 {
        Seq::empty()
    } else {
        crumb_parts(list, node, m - 1) + match node_at(list, node.take(m)) {
            Some(s) => seq![s.name],
            None => Seq::empty(),
        }
    }
}

/// The breadcrumb of a nested section: the names of the sections below the
/// top-level one down to it, joined by ` › `; none for a top-level section.
pub open spec fn breadcrumb(list: Seq<SectionModel>, node: Seq<usize>) -> Option<Seq<char>> {
    if node.len() <= 1 {
        None
    } else {
        let parts = crumb_parts(list, node, node.len() as int);
        if parts.len() == 0 {
            None
        } else {
            Some(join(parts, crumb_sep()))
        }
    }
}

/// The rows of the first `n` tasks of the section at `node`.
pub open spec fn task_rows(node: Seq<usize>, n: nat, crumb: Option<Seq<char>>) -> Seq<TaskRefModel> {
    Seq::new(n, |i: int| TaskRefModel { node, task_idx: i as usize, sub_name: crumb })
}

/// The rows of the tasks of `s` (at `p`) and then of its descendants, depth
/// first, each with the breadcrumb of its own section.
pub open spec fn flat_refs(list: Seq<SectionModel>, s: SectionModel, p: Seq<usize>) -> Seq<TaskRefModel>
    decreases s, 0int,
{
    task_rows(p, s.tasks.len(), breadcrumb(list, p)) + flat_children(list, s.children, p, s.children.len() as int)
}

/// The rows of the first `n` children of the section at `p` and their descendants.
pub open spec fn flat_children(list: Seq<SectionModel>, cs: Seq<SectionModel>, p: Seq<usize>, n: int) -> Seq<
    TaskRefModel,
>
    decreases cs, n,
{
    if n <= 0 || n > cs.len() {
        Seq::empty()
    } else {
        flat_children(list, cs, p, n - 1) + flat_refs(list, cs[n - 1], p.push((n - 1) as usize))
    }
}

/// The rows the task panel lists for the section at `node`: for a top-level
/// section all the tasks of its subtree, else its own tasks.
pub open spec fn task_refs(list: Seq<SectionModel>, node: Seq<usize>) -> Seq<TaskRefModel> {
    match node_at(list, node) {
        None => Seq::empty(),
        Some(s) => if node.len() == 1 {
            flat_refs(list, s, node)
        } else {
            task_rows(node, s.tasks.len(), None)
        },
    }
}

/// The task a row names, if there is one.
pub open spec fn task_at(list: Seq<SectionModel>, r: TaskRefModel) -> Option<TaskModel> {
    match node_at(list, r.node) {
        Some(s) => if r.task_idx < s.tasks.len() {
            Some(s.tasks[r.task_idx as int])
        } else {
            None
        },
        None => None,
    }
}

/// Whether a task matches a lower-cased filter: its lower-cased text holds it,
/// or its due date written `YYYY-MM-DD` does.
pub open spec fn task_matches_spec(t: TaskModel, f: Seq<char>) -> bool {
    contains(lower(t.text), f) || (t.due matches Some(d) && contains(
        lower(chrono_format_ymd(d)),
        f,
    ))
}

/// Whether a row stays under a lower-cased filter: its task matches, or its
/// breadcrumb does.
pub open spec fn ref_matches(list: Seq<SectionModel>, r: TaskRefModel, f: Seq<char>) -> bool {
    (task_at(list, r) matches Some(t) && task_matches_spec(t, f)) || (r.sub_name matches Some(n)
        && contains(lower(n), f))
}

/// The rows of `refs` that stay under the filter, in order.
pub open spec fn keep_refs(list: Seq<SectionModel>, refs: Seq<TaskRefModel>, f: Seq<char>) -> Seq<
    TaskRefModel,
>
    decreases refs.len(),
{
    if refs.len() == 0 {
        Seq::empty()
    } else {
        keep_refs(list, refs.drop_last(), f) + if ref_matches(list, refs.last(), f) {
            seq![refs.last()]
        } else {
            Seq::empty()
        }
    }
}

/// The rows the task panel lists under a lower-cased filter (all of them for
/// an empty filter).
pub open spec fn filtered_refs(list: Seq<SectionModel>, node: Seq<usize>, f: Seq<char>) -> Seq<
    TaskRefModel,
> {
    if f.len() == 0 {
        task_refs(list, node)
    } else {
        keep_refs(list, task_refs(list, node), f)
    }
}

/// Whether `needle` stands in `hay`.
pub fn str_contains(hay: &str, needle: &str) -> (r: bool)
    ensures
        r == contains(hay@, needle@),
{
    let h = chars_of(hay);
    let n = chars_of(needle);
    let found = find_exec(&h, &n);
    proof {
        lemma_find_from(h@, n@, 0);
    }
    found.is_some()
}

/// Whether a task matches a lower-cased filter.
pub fn task_matches(task: &Task, filter_lower: &str) -> (r: bool)
    ensures
        r == task_matches_spec(task@, filter_lower@),
{
    let text = to_lowercase(task.text.as_str());
    if str_contains(text.as_str(), filter_lower) {
        return true;
    }
    match &task.due {
        Some(d) => {
            let written = d.format_ymd();
            let lower = to_lowercase(written.as_str());
            str_contains(lower.as_str(), filter_lower)
        },
        None => false,
    }
}

/// A copy of optional text.
fn clone_opt_string(s: &Option<String>) -> (r: Option<String>)
    ensures
        opt_str_view(r) == opt_str_view(*s),
{
    match s {
        Some(x) => Some(x.clone()),
        None => None,
    }
}

/// The breadcrumb of the section at `node`.
fn node_breadcrumb(todo_list: &TodoList, node: &NodePath) -> (r: Option<String>)
    ensures
        opt_str_view(r) == breadcrumb(todo_list@, node@),
{
    if node.len() <= 1 {
        return None;
    }
    let ghost list = todo_list@;
    let mut sep = String::new();
    push_char(&mut sep, ' ');
    push_char(&mut sep, '›');
    push_char(&mut sep, ' ');
    assert(sep@ =~= crumb_sep());
    let mut out = String::new();
    let mut count: usize = 0;
    let mut prefix: Vec<usize> = Vec::new();
    prefix.push(node[0]);
    let mut k: usize = 1;
    assert(prefix@ =~= node@.take(1));
    while k < node.len()
        invariant
            list == todo_list@,
            sep@ == crumb_sep(),
            1 <= k <= node@.len(),
            prefix@ == node@.take(k as int),
            count == crumb_parts(list, node@, k as int).len(),
            count <= k,
            out@ == join(crumb_parts(list, node@, k as int), crumb_sep()),
        decreases node@.len() - k,
    {
        prefix.push(node[k]);
        assert(node@.take(k as int).push(node@[k as int]) =~= node@.take(k + 1));
        let ghost parts = crumb_parts(list, node@, k as int);
        match get_node(todo_list, prefix.as_slice()) {
            Some(sec) => {
                if count > 0 {
                    out.append(sep.as_str());
                }
                out.append(sec.name.as_str());
                proof {
                    let np = parts.push(sec@.name);
                    assert(crumb_parts(list, node@, k + 1) =~= np);
                    assert(np.drop_last() =~= parts);
                    if parts.len() == 0 {
                        assert(out@ =~= join(np, crumb_sep()));
                    } else {
                        assert(out@ =~= join(np, crumb_sep()));
                    }
                }
                count = count + 1;
            },
            None => {
                assert(crumb_parts(list, node@, k + 1) =~= parts);
            },
        }
        k = k + 1;
    }
    if count == 0 {
        None
    } else {
        Some(out)
    }
}

/// The rows of a section's own tasks, for the section at `node`.
fn push_task_rows(out: &mut Vec<TaskRef>, node: &NodePath, n: usize, crumb: &Option<String>)
    ensures
        refs_view(final(out)@) == refs_view(old(out)@) + task_rows(node@, n as nat, opt_str_view(*crumb)),
{
    let ghost start = refs_view(out@);
    let mut i: usize = 0;
    while i < n
        invariant
            0 <= i <= n,
            refs_view(out@) == start + task_rows(node@, i as nat, opt_str_view(*crumb)),
        decreases n - i,
    {
        out.push(TaskRef { node: clone_path(node), task_idx: i, sub_name: clone_opt_string(crumb) });
        assert(refs_view(out@) =~= start + task_rows(node@, (i + 1) as nat, opt_str_view(*crumb)));
        i = i + 1;
    }
}

/// Appends the rows of `sec` (the section at `node`) and of its descendants.
fn collect_flatten(todo_list: &TodoList, sec: &Section, node: &NodePath, out: &mut Vec<TaskRef>)
    ensures
        refs_view(final(out)@) == refs_view(old(out)@) + flat_refs(todo_list@, sec@, node@),
    decreases sec,
{
    proof {
        lemma_children_view(sec);
    }
    let ghost start = refs_view(out@);
    let crumb = node_breadcrumb(todo_list, node);
    push_task_rows(out, node, sec.tasks.len(), &crumb);
    let ghost mid = refs_view(out@);
    let child_count = sec.children.len();
    let mut ci: usize = 0;
    while ci < child_count
        invariant
            child_count == sec.children@.len(),
            sec@.children == sections_view(sec.children@),
            0 <= ci <= child_count,
            refs_view(out@) == mid + flat_children(todo_list@, sec@.children, node@, ci as int),
        decreases child_count - ci,
    {
        let mut cp = clone_path(node);
        cp.push(ci);
        let ghost before = refs_view(out@);
        collect_flatten(todo_list, &sec.children[ci], &cp, out);
        assert(refs_view(out@) =~= mid + flat_children(todo_list@, sec@.children, node@, ci + 1));
        ci = ci + 1;
    }
    assert(refs_view(out@) =~= start + flat_refs(todo_list@, sec@, node@));
}

/// The rows the task panel lists for the section at `node`: for a top-level
/// section every task of its subtree, depth first, the tasks of nested
/// sections carrying their breadcrumb; for a nested section its own tasks.
pub fn get_task_refs(todo_list: &TodoList, node: &NodePath) -> (r: Vec<TaskRef>)
    ensures
        refs_view(r@) == task_refs(todo_list@, node@),
{
    let mut out: Vec<TaskRef> = Vec::new();
    assert(refs_view(out@) =~= Seq::<TaskRefModel>::empty());
    match get_node(todo_list, node.as_slice()) {
        None => {},
        Some(sec) => {
            if node.len() == 1 {
                collect_flatten(todo_list, sec, node, &mut out);
            } else {
                push_task_rows(&mut out, node, sec.tasks.len(), &None);
            }
        },
    }
    assert(refs_view(out@) =~= task_refs(todo_list@, node@));
    out
}

/// The task a row names, if there is one.
pub fn get_task_from_ref<'a>(todo_list: &'a TodoList, ref_item: &TaskRef) -> (r: Option<&'a Task>)
    ensures
        match r {
            Some(t) => task_at(todo_list@, ref_item@) == Some(t@),
            None => task_at(todo_list@, ref_item@) is None,
        },
{
    let sec = match get_node(todo_list, ref_item.node.as_slice()) {
        Some(s) => s,
        None => return None,
    };
    if ref_item.task_idx < sec.tasks.len() {
        Some(&sec.tasks[ref_item.task_idx])
    } else {
        None
    }
}

/// `s` with its task at `i` replaced by `t`.
pub open spec fn with_task_at(s: SectionModel, i: int, t: TaskModel) -> SectionModel {
    SectionModel { tasks: s.tasks.update(i, t), ..s }
}

/// The task a row names, to change in place; whatever is written through the
/// borrow lands in that task and nowhere else.
pub fn get_task_from_ref_mut<'a>(todo_list: &'a mut TodoList, ref_item: &TaskRef) -> (r: Option<
    &'a mut Task,
>)
    ensures
        match r {
            Some(t) => task_at(old(todo_list)@, ref_item@) == Some((*t)@) && final(todo_list)@
                == node_set(
                old(todo_list)@,
                ref_item@.node,
                with_task_at(
                    node_at(old(todo_list)@, ref_item@.node)->0,
                    ref_item.task_idx as int,
                    (*final(t))@,
                ),
            ),
            None => task_at(old(todo_list)@, ref_item@) is None && final(todo_list)@ == old(
                todo_list,
            )@,
        },
{
    let sec = match get_node_mut(todo_list, ref_item.node.as_slice()) {
        Some(s) => s,
        None => return None,
    };
    if ref_item.task_idx < sec.tasks.len() {
        let t = &mut sec.tasks[ref_item.task_idx];
        Some(t)
    } else {
        proof {
            lemma_node_set_same(old(todo_list)@, ref_item.node@);
        }
        None
    }
}

/// The rows of `refs` that stay under a lower-cased filter.
fn keep_matching(todo_list: &TodoList, refs: Vec<TaskRef>, filter_lower: &str) -> (r: Vec<TaskRef>)
    ensures
        refs_view(r@) == keep_refs(todo_list@, refs_view(refs@), filter_lower@),
{
    let mut out: Vec<TaskRef> = Vec::new();
    let mut i: usize = 0;
    while i < refs.len()
        invariant
            0 <= i <= refs@.len(),
            refs_view(out@) == keep_refs(todo_list@, refs_view(refs@).take(i as int), filter_lower@),
        decreases refs@.len() - i,
    {
        let r = &refs[i];
        let by_task = match get_task_from_ref(todo_list, r) {
            Some(task) => task_matches(task, filter_lower),
            None => false,
        };
        let keep = by_task || match &r.sub_name {
            Some(n) => {
                let lower = to_lowercase(n.as_str());
                str_contains(lower.as_str(), filter_lower)
            },
            None => false,
        };
        proof {
            let rv = refs_view(refs@);
            assert(rv.take(i + 1).drop_last() =~= rv.take(i as int));
            assert(rv.take(i + 1).last() == r@);
            assert(keep == ref_matches(todo_list@, r@, filter_lower@));
        }
        if keep {
            out.push(TaskRef {
                node: clone_path(&r.node),
                task_idx: r.task_idx,
                sub_name: clone_opt_string(&r.sub_name),
            });
        }
        proof {
            let rv = refs_view(refs@);
            assert(refs_view(out@) =~= keep_refs(todo_list@, rv.take(i + 1), filter_lower@));
        }
        i = i + 1;
    }
    assert(refs_view(refs@).take(refs@.len() as int) =~= refs_view(refs@));
    out
}

/// The rows the task panel lists for the section at `node` under a
/// lower-cased filter: those whose task, or whose breadcrumb, matches it; all
/// of them for an empty filter.
pub fn get_task_refs_filtered(todo_list: &TodoList, node: &NodePath, filter_lower: &str) -> (r: Vec<
    TaskRef,
>)
    ensures
        refs_view(r@) == filtered_refs(todo_list@, node@, filter_lower@),
{
    let refs = get_task_refs(todo_list, node);
    if filter_lower.is_empty() {
        return refs;
    }
    keep_matching(todo_list, refs, filter_lower)
}

/// Every row of `flat_refs` for the section at `p` names a task that is there.
proof fn lemma_flat_refs_valid(list: Seq<SectionModel>, s: SectionModel, p: Seq<usize>)
    requires
        node_at(list, p) == Some(s),
        fits(s),
    ensures
        forall|j: int|
            0 <= j < flat_refs(list, s, p).len() ==> #[trigger] task_at(list, flat_refs(list, s, p)[j])
                is Some,
    decreases s, 0int,
{
    lemma_flat_children_valid(list, s, p, s.children.len() as int);
    let a = task_rows(p, s.tasks.len(), breadcrumb(list, p));
    let b = flat_children(list, s.children, p, s.children.len() as int);
    assert forall|j: int| 0 <= j < flat_refs(list, s, p).len() implies #[trigger] task_at(
        list,
        flat_refs(list, s, p)[j],
    ) is Some by {
        if j < a.len() {
            assert(flat_refs(list, s, p)[j] == a[j]);
        } else {
            assert(flat_refs(list, s, p)[j] == b[j - a.len()]);
        }
    }
}

proof fn lemma_flat_children_valid(list: Seq<SectionModel>, s: SectionModel, p: Seq<usize>, n: int)
    requires
        node_at(list, p) == Some(s),
        fits(s),
        n <= s.children.len(),
    ensures
        forall|j: int|
            0 <= j < flat_children(list, s.children, p, n).len() ==> #[trigger] task_at(
                list,
                flat_children(list, s.children, p, n)[j],
            ) is Some,
    decreases s.children, n,
{
    if 0 < n {
        lemma_flat_children_valid(list, s, p, n - 1);
        let c = s.children[n - 1];
        lemma_forest_fits_at(s.children, s.children.len() as int, n - 1);
        crate::roundtrip::lemma_node_child(list, p, (n - 1) as usize, c);
        lemma_flat_refs_valid(list, c, p.push((n - 1) as usize));
        let a = flat_children(list, s.children, p, n - 1);
        let b = flat_refs(list, c, p.push((n - 1) as usize));
        assert forall|j: int| 0 <= j < flat_children(list, s.children, p, n).len() implies #[trigger] task_at(
            list,
            flat_children(list, s.children, p, n)[j],
        ) is Some by {
            if j < a.len() {
                assert(flat_children(list, s.children, p, n)[j] == a[j]);
            } else {
                assert(flat_children(list, s.children, p, n)[j] == b[j - a.len()]);
            }
        }
    }
}

/// Every row the task panel lists names a task that is there.
pub proof fn lemma_task_refs_valid(list: Seq<SectionModel>, node: Seq<usize>)
    requires
        list_fits(list),
    ensures
        forall|j: int|
            0 <= j < task_refs(list, node).len() ==> #[trigger] task_at(list, task_refs(list, node)[j])
                is Some,
{
    if let Some(s) = node_at(list, node) {
        if node.len() == 1 {
            lemma_node_at_fits(list, node);
            lemma_flat_refs_valid(list, s, node);
        }
    }
}

/// The rows a filter keeps are rows of the list it filters.
proof fn lemma_keep_refs_from(list: Seq<SectionModel>, refs: Seq<TaskRefModel>, f: Seq<char>)
    ensures
        forall|j: int|
            0 <= j < keep_refs(list, refs, f).len() ==> exists|i: int|
                0 <= i < refs.len() && #[trigger] keep_refs(list, refs, f)[j] == refs[i],
    decreases refs.len(),
{
    if refs.len() > 0 {
        let a = keep_refs(list, refs.drop_last(), f);
        lemma_keep_refs_from(list, refs.drop_last(), f);
        assert forall|j: int| 0 <= j < keep_refs(list, refs, f).len() implies exists|i: int|
            0 <= i < refs.len() && #[trigger] keep_refs(list, refs, f)[j] == refs[i] by {
            if j < a.len() {
                let i = choose|i: int| 0 <= i < refs.drop_last().len() && a[j] == refs.drop_last()[i];
                assert(keep_refs(list, refs, f)[j] == refs[i]);
            } else {
                assert(keep_refs(list, refs, f)[j] == refs[refs.len() - 1]);
            }
        }
    }
}

/// Every row the task panel lists under a filter names a task that is there.
pub proof fn lemma_filtered_refs_valid(list: Seq<SectionModel>, node: Seq<usize>, f: Seq<char>)
    requires
        list_fits(list),
    ensures
        forall|j: int|
            0 <= j < filtered_refs(list, node, f).len() ==> #[trigger] task_at(
                list,
                filtered_refs(list, node, f)[j],
            ) is Some,
{
    lemma_task_refs_valid(list, node);
    if f.len() > 0 {
        let refs = task_refs(list, node);
        lemma_keep_refs_from(list, refs, f);
        assert forall|j: int| 0 <= j < filtered_refs(list, node, f).len() implies #[trigger] task_at(
            list,
            filtered_refs(list, node, f)[j],
        ) is Some by {
            let i = choose|i: int| 0 <= i < refs.len() && keep_refs(list, refs, f)[j] == refs[i];
            assert(task_at(list, refs[i]) is Some);
        }
    }
}

proof fn lemma_flat_refs_len(list: Seq<SectionModel>, s: SectionModel, p: Seq<usize>)
    ensures
        flat_refs(list, s, p).len() == total_tasks(s),
    decreases s, 0int,
{
    lemma_flat_children_len(list, s.children, p, s.children.len() as int);
    assert(s.children.subrange(0, s.children.len() as int) =~= s.children);
}

proof fn lemma_flat_children_len(list: Seq<SectionModel>, cs: Seq<SectionModel>, p: Seq<usize>, n: int)
    requires
        0 <= n <= cs.len(),
    ensures
        flat_children(list, cs, p, n).len() == forest_tasks(cs.subrange(0, n)),
    decreases cs, n,
{
    if n > 0 {
        lemma_flat_children_len(list, cs, p, n - 1);
        lemma_flat_refs_len(list, cs[n - 1], p.push((n - 1) as usize));
        assert(cs.subrange(0, n).subrange(0, n - 1) =~= cs.subrange(0, n - 1));
        assert(cs.subrange(0, n)[n - 1] == cs[n - 1]);
    } else {
        assert(cs.subrange(0, n) =~= Seq::<SectionModel>::empty());
    }
}

/// The task panel lists, for a top-level section, every task of its subtree:
/// as many rows as the section counts tasks.
pub proof fn lemma_top_level_refs_count(list: Seq<SectionModel>, i: usize)
    requires
        i < list.len(),
    ensures
        task_refs(list, seq![i]).len() == total_tasks(list[i as int]),
{
    let p = seq![i];
    assert(p.drop_first() =~= Seq::<usize>::empty());
    assert(node_at(list, p) == Some(list[i as int]));
    lemma_flat_refs_len(list, list[i as int], p);
}

proof fn lemma_keep_refs_match(list: Seq<SectionModel>, refs: Seq<TaskRefModel>, f: Seq<char>)
    ensures
        forall|j: int|
            0 <= j < keep_refs(list, refs, f).len() ==> ref_matches(
                list,
                #[trigger] keep_refs(list, refs, f)[j],
                f,
            ),
    decreases refs.len(),
{
    if refs.len() > 0 {
        lemma_keep_refs_match(list, refs.drop_last(), f);
        let a = keep_refs(list, refs.drop_last(), f);
        assert forall|j: int| 0 <= j < keep_refs(list, refs, f).len() implies ref_matches(
            list,
            #[trigger] keep_refs(list, refs, f)[j],
            f,
        ) by {
            if j < a.len() {
                assert(keep_refs(list, refs, f)[j] == a[j]);
            }
        }
    }
}

/// Under a filter, every row the task panel lists matches it: by its task's
/// text or due date, or by its breadcrumb.
pub proof fn lemma_filtered_rows_match(list: Seq<SectionModel>, node: Seq<usize>, f: Seq<char>)
    requires
        f.len() > 0,
    ensures
        forall|j: int|
            0 <= j < filtered_refs(list, node, f).len() ==> ref_matches(
                list,
                #[trigger] filtered_refs(list, node, f)[j],
                f,
            ),
{
    lemma_keep_refs_match(list, task_refs(list, node), f);
}

/// The rows a filter keeps are exactly the rows of the list it filters that
/// match it.
proof fn lemma_keep_refs_exact(list: Seq<SectionModel>, refs: Seq<TaskRefModel>, f: Seq<char>)
    ensures
        forall|r: TaskRefModel|
            #[trigger] keep_refs(list, refs, f).contains(r) <==> refs.contains(r) && ref_matches(
                list,
                r,
                f,
            ),
    decreases refs.len(),
{
    if refs.len() > 0 {
        let init = refs.drop_last();
        lemma_keep_refs_exact(list, init, f);
        let a = keep_refs(list, init, f);
        let b = if ref_matches(list, refs.last(), f) {
            seq![refs.last()]
        } else {
            Seq::<TaskRefModel>::empty()
        };
        assert(keep_refs(list, refs, f) == a + b);
        assert forall|r: TaskRefModel| #[trigger] keep_refs(list, refs, f).contains(r) <==> refs.contains(r)
            && ref_matches(list, r, f) by {
            if keep_refs(list, refs, f).contains(r) {
                let j = choose|j: int| 0 <= j < (a + b).len() && (a + b)[j] == r;
                if j < a.len() {
                    assert(a[j] == r);
                    assert(a.contains(r));
                    assert(keep_refs(list, init, f).contains(r));
                    let i = choose|i: int| 0 <= i < init.len() && init[i] == r;
                    assert(refs[i] == r);
                } else {
                    assert(refs[refs.len() - 1] == r);
                }
            }
            if refs.contains(r) && ref_matches(list, r, f) {
                let i = choose|i: int| 0 <= i < refs.len() && refs[i] == r;
                if i < refs.len() - 1 {
                    assert(init[i] == r);
                    assert(init.contains(r));
                    assert(keep_refs(list, init, f).contains(r));
                    assert(a.contains(r));
                    let j = choose|j: int| 0 <= j < a.len() && a[j] == r;
                    assert((a + b)[j] == a[j]);
                    assert((a + b).contains(r));
                } else {
                    assert(b[0] == r);
                    assert((a + b)[a.len() as int] == r);
                    assert((a + b).contains(r));
                }
            }
        }
    } else {
        assert forall|r: TaskRefModel| #[trigger] keep_refs(list, refs, f).contains(r) <==> refs.contains(r)
            && ref_matches(list, r, f) by {
            if refs.contains(r) {
                let i = choose|i: int| 0 <= i < refs.len() && refs[i] == r;
            }
        }
    }
}

/// What the task panel lists under a lower-cased filter `f`: exactly the rows
/// it lists without one whose task's lower-cased text holds `f`, or whose
/// due date written `YYYY-MM-DD` does, or whose breadcrumb does, done or
/// not; with an empty filter, every row.
pub proof fn lemma_filter_keeps_exactly_matches(list: Seq<SectionModel>, node: Seq<usize>, f: Seq<char>)
    ensures
        forall|r: TaskRefModel|
            #[trigger] filtered_refs(list, node, f).contains(r) <==> task_refs(list, node).contains(r)
                && (f.len() == 0 || (task_at(list, r) matches Some(t) && (contains(lower(t.text), f)
                || (t.due matches Some(d) && contains(lower(chrono_format_ymd(d)), f)))) || (
            r.sub_name matches Some(n) && contains(lower(n), f))),
{
    lemma_keep_refs_exact(list, task_refs(list, node), f);
}

}
