//! The todo tree's types and their mathematical models.
use vstd::prelude::*;

use crate::date::Date;

verus! {

/// What a task is, as a mathematical value.
#[verifier::ext_equal]
pub struct TaskModel {
    pub text: Seq<char>,
    pub is_done: bool,
    /// The due date's day number.
    pub due: Option<int>,
}

/// What a section is, as a mathematical value: its name, its tasks and its child sections.
#[verifier::ext_equal]
pub struct SectionModel {
    pub name: Seq<char>,
    pub tasks: Seq<TaskModel>,
    pub children: Seq<SectionModel>,
}

/// A task: its text, whether it is done, and its due date if it has one.
#[derive(Debug, PartialEq)]
pub struct Task {
    pub text: String,
    pub is_done: bool,
    pub due: Option<Date>,
}

/// A heading in the markdown file. Headings can be nested arbitrarily deep:
/// each section owns its direct tasks and a list of child sections.
#[derive(Debug, PartialEq)]
pub struct Section {
    pub name: String,
    pub tasks: Vec<Task>,
    pub children: Vec<Section>,
}

/// The whole todo file: its top-level sections.
#[derive(Debug, PartialEq)]
pub struct TodoList {
    pub sections: Vec<Section>,
}

pub open spec fn due_view(d: Option<Date>) -> Option<int> {
    match d {
        Some(d) => Some(d.day()),
        None => None,
    }
}

impl Task {
    pub open spec fn view(&self) -> TaskModel {
        TaskModel { text: self.text@, is_done: self.is_done, due: due_view(self.due) }
    }
}

/// The models of a sequence of tasks.
pub open spec fn tasks_view(ts: Seq<Task>) -> Seq<TaskModel> {
    Seq::new(ts.len(), |i: int| ts[i].view())
}

impl Section {
    pub open spec fn view(&self) -> SectionModel
        decreases self,
    {
        SectionModel {
            name: self.name@,
            tasks: tasks_view(self.tasks@),
            children: Seq::new(
                self.children@.len(),
                |i: int|
                    if 0 <= i < self.children@.len() {
                        self.children@[i].view()
                    } else {
                        arbitrary()
                    },
            ),
        }
    }
}

/// The models of a sequence of sections.
pub open spec fn sections_view(ss: Seq<Section>) -> Seq<SectionModel> {
    Seq::new(ss.len(), |i: int| ss[i].view())
}

impl TodoList {
    pub open spec fn view(&self) -> Seq<SectionModel> {
        sections_view(self.sections@)
    }
}

pub proof fn lemma_children_view(s: &Section)
    ensures
        s.view().children == sections_view(s.children@),
{
    assert(s.view().children =~= sections_view(s.children@));
}

/// The section reached from `s` by following the child indices in `rest`.
pub open spec fn sec_at(s: SectionModel, rest: Seq<usize>) -> Option<SectionModel>
    decreases rest.len(),
{
    if rest.len() == 0 {
        Some(s)
    } else if rest[0] < s.children.len() {
        sec_at(s.children[rest[0] as int], rest.drop_first())
    } else {
        None
    }
}

/// The section at `path` in the forest `list` (an empty path names no section).
pub open spec fn node_at(list: Seq<SectionModel>, path: Seq<usize>) -> Option<SectionModel> {
    if path.len() == 0 {
        None
    } else if path[0] < list.len() {
        sec_at(list[path[0] as int], path.drop_first())
    } else {
        None
    }
}

/// `s` with the section at `rest` replaced by `new` (unchanged where `rest` leads nowhere).
pub open spec fn sec_set(s: SectionModel, rest: Seq<usize>, new: SectionModel) -> SectionModel
    decreases rest.len(),
{
    if rest.len() == 0 {
        new
    } else if rest[0] < s.children.len() {
        SectionModel {
            children: s.children.update(
                rest[0] as int,
                sec_set(s.children[rest[0] as int], rest.drop_first(), new),
            ),
            ..s
        }
    } else {
        s
    }
}

/// `list` with the section at `path` replaced by `new` (unchanged where `path` leads nowhere).
pub open spec fn node_set(list: Seq<SectionModel>, path: Seq<usize>, new: SectionModel) -> Seq<
    SectionModel,
> {
    if path.len() == 0 {
        list
    } else if path[0] < list.len() {
        list.update(path[0] as int, sec_set(list[path[0] as int], path.drop_first(), new))
    } else {
        list
    }
}

/// The number of tasks in a section and all of its descendants.
pub open spec fn total_tasks(s: SectionModel) -> nat
    decreases s,
{
    s.tasks.len() + forest_tasks(s.children)
}

/// The number of tasks in a forest of sections and their descendants.
pub open spec fn forest_tasks(cs: Seq<SectionModel>) -> nat
    decreases cs,
{
    if cs.len() == 0 {
        0
    } else {
        forest_tasks(cs.subrange(0, cs.len() - 1)) + total_tasks(cs[cs.len() - 1])
    }
}

/// The tasks of a prefix of a forest are at most those of the whole.
pub proof fn lemma_forest_tasks_prefix(cs: Seq<SectionModel>, k: int)
    requires
        0 <= k <= cs.len(),
    ensures
        forest_tasks(cs.subrange(0, k)) <= forest_tasks(cs),
    decreases cs.len() - k,
{
    if k < cs.len() {
        lemma_forest_tasks_prefix(cs, k + 1);
        assert(cs.subrange(0, k + 1).subrange(0, k) =~= cs.subrange(0, k));
        if k + 1 == cs.len() {
            assert(cs.subrange(0, k + 1) =~= cs);
        }
    } else {
        assert(cs.subrange(0, k) =~= cs);
    }
}


pub broadcast proof fn lemma_section_view_children(s: Section)
    ensures
        #[trigger] s.view().children == sections_view(s.children@),
{
    lemma_children_view(&s);
}

pub broadcast proof fn lemma_sections_view_update(v: Seq<Section>, i: int, x: Section)
    requires
        0 <= i < v.len(),
    ensures
        #[trigger] sections_view(v.update(i, x)) == sections_view(v).update(i, x@),
        x@ == v[i]@ ==> sections_view(v.update(i, x)) == sections_view(v),
{
    assert(sections_view(v.update(i, x)) =~= sections_view(v).update(i, x@));
    if x@ == v[i]@ {
        assert(sections_view(v.update(i, x)) =~= sections_view(v));
    }
}




pub broadcast proof fn lemma_sections_view_push(v: Seq<Section>, x: Section)
    ensures
        #[trigger] sections_view(v.push(x)) == sections_view(v).push(x@),
{
    assert(sections_view(v.push(x)) =~= sections_view(v).push(x@));
}

pub broadcast proof fn lemma_tasks_view_push(v: Seq<Task>, x: Task)
    ensures
        #[trigger] tasks_view(v.push(x)) == tasks_view(v).push(x@),
{
    assert(tasks_view(v.push(x)) =~= tasks_view(v).push(x@));
}

pub broadcast proof fn lemma_section_view_tasks(s: Section)
    ensures
        #[trigger] s.view().tasks == tasks_view(s.tasks@),
{
}


pub broadcast proof fn lemma_tasks_view_update(v: Seq<Task>, i: int, x: Task)
    requires
        0 <= i < v.len(),
    ensures
        #[trigger] tasks_view(v.update(i, x)) == tasks_view(v).update(i, x@),
{
    assert(tasks_view(v.update(i, x)) =~= tasks_view(v).update(i, x@));
}

pub broadcast proof fn lemma_tasks_view_insert(v: Seq<Task>, i: int, x: Task)
    requires
        0 <= i <= v.len(),
    ensures
        #[trigger] tasks_view(v.insert(i, x)) == tasks_view(v).insert(i, x@),
{
    assert(tasks_view(v.insert(i, x)) =~= tasks_view(v).insert(i, x@));
}

pub broadcast proof fn lemma_tasks_view_remove(v: Seq<Task>, i: int)
    requires
        0 <= i < v.len(),
    ensures
        #[trigger] tasks_view(v.remove(i)) == tasks_view(v).remove(i),
{
    assert(tasks_view(v.remove(i)) =~= tasks_view(v).remove(i));
}

pub broadcast proof fn lemma_sections_view_insert(v: Seq<Section>, i: int, x: Section)
    requires
        0 <= i <= v.len(),
    ensures
        #[trigger] sections_view(v.insert(i, x)) == sections_view(v).insert(i, x@),
{
    assert(sections_view(v.insert(i, x)) =~= sections_view(v).insert(i, x@));
}

pub broadcast proof fn lemma_sections_view_remove(v: Seq<Section>, i: int)
    requires
        0 <= i < v.len(),
    ensures
        #[trigger] sections_view(v.remove(i)) == sections_view(v).remove(i),
{
    assert(sections_view(v.remove(i)) =~= sections_view(v).remove(i));
}

/// Setting the section at `r` to what is already there changes nothing.
pub proof fn lemma_sec_set_same(s: SectionModel, r: Seq<usize>)
    requires
        sec_at(s, r) is Some,
    ensures
        sec_set(s, r, sec_at(s, r)->0) == s,
    decreases r.len(),
{
    if r.len() > 0 {
        let k = r[0] as int;
        lemma_sec_set_same(s.children[k], r.drop_first());
        assert(sec_set(s, r, sec_at(s, r)->0).children =~= s.children);
    }
}

/// Setting the section at `p` to what is already there changes nothing.
pub proof fn lemma_node_set_same(l: Seq<SectionModel>, p: Seq<usize>)
    requires
        node_at(l, p) is Some,
    ensures
        node_set(l, p, node_at(l, p)->0) == l,
{
    lemma_sec_set_same(l[p[0] as int], p.drop_first());
    assert(node_set(l, p, node_at(l, p)->0) =~= l);
}

/// Whether every count in a section and its descendants fits a machine word,
/// as it does for every section held in memory.
pub open spec fn fits(s: SectionModel) -> bool
    decreases s, 0int,
{
    s.tasks.len() <= usize::MAX && s.children.len() <= usize::MAX && forest_fits(
        s.children,
        s.children.len() as int,
    )
}

/// Whether the first `n` sections of `cs` fit.
pub open spec fn forest_fits(cs: Seq<SectionModel>, n: int) -> bool
    decreases cs, n,
{
    n <= 0 || n > cs.len() || (forest_fits(cs, n - 1) && fits(cs[n - 1]))
}

/// Whether every top-level section of a list fits.
pub open spec fn list_fits(l: Seq<SectionModel>) -> bool {
    l.len() <= usize::MAX && forall|i: int| 0 <= i < l.len() ==> #[trigger] fits(l[i])
}

pub proof fn lemma_forest_fits_at(cs: Seq<SectionModel>, n: int, k: int)
    requires
        n <= cs.len(),
        forest_fits(cs, n),
        0 <= k < n,
    ensures
        fits(cs[k]),
    decreases n,
{
    if k < n - 1 {
        lemma_forest_fits_at(cs, n - 1, k);
    }
}

proof fn lemma_children_fit(s: Section, n: int)
    requires
        0 <= n <= s.children@.len(),
    ensures
        forest_fits(sections_view(s.children@), n),
    decreases s, n,
{
    if n > 0 {
        lemma_children_fit(s, n - 1);
        lemma_section_fits(s.children@[n - 1]);
    }
}

/// A section held in memory fits.
pub proof fn lemma_section_fits(s: Section)
    ensures
        fits(s@),
    decreases s,
{
    lemma_children_view(&s);
    assert(s.tasks.len() == s.tasks@.len());
    assert(s.children.len() == s.children@.len());
    lemma_children_fit(s, s.children@.len() as int);
}

/// A list held in memory fits.
pub proof fn lemma_list_fits(l: TodoList)
    ensures
        list_fits(l@),
{
    assert(l.sections.len() == l.sections@.len());
    assert forall|i: int| 0 <= i < l@.len() implies #[trigger] fits(l@[i]) by {
        lemma_section_fits(l.sections@[i]);
    }
}

/// The sections below a section that fits fit too.
pub proof fn lemma_sec_at_fits(s: SectionModel, r: Seq<usize>)
    requires
        fits(s),
        sec_at(s, r) is Some,
    ensures
        fits(sec_at(s, r)->0),
    decreases r.len(),
{
    if r.len() > 0 {
        lemma_forest_fits_at(s.children, s.children.len() as int, r[0] as int);
        lemma_sec_at_fits(s.children[r[0] as int], r.drop_first());
    }
}

/// The sections of a list that fits fit.
pub proof fn lemma_node_at_fits(l: Seq<SectionModel>, p: Seq<usize>)
    requires
        list_fits(l),
        node_at(l, p) is Some,
    ensures
        fits(node_at(l, p)->0),
{
    lemma_sec_at_fits(l[p[0] as int], p.drop_first());
}

}
