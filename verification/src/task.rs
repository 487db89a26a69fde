//! The todo tree: sections that own tasks and child sections.
use vstd::prelude::*;

pub use crate::model::{
    forest_tasks, lemma_children_view, lemma_forest_tasks_prefix, lemma_section_view_children,
    lemma_section_view_tasks, lemma_sections_view_push, lemma_sections_view_update,
    lemma_tasks_view_push, node_at, node_set, sec_at, sec_set, sections_view, tasks_view,
    total_tasks, Section, SectionModel, Task, TaskModel, TodoList,
};

verus! {

broadcast use {lemma_section_view_children, lemma_sections_view_update};

impl Clone for Task {
    fn clone(&self) -> (r: Task)
        ensures
            r@ == self@,
    {
        Task { text: self.text.clone(), is_done: self.is_done, due: self.due }
    }
}

impl Clone for Section {
    fn clone(&self) -> (r: Section)
        ensures
            r@ == self@,
        decreases self,
    {
        let mut tasks: Vec<Task> = Vec::new();
        let mut i: usize = 0;
        while i < self.tasks.len()
            invariant
                0 <= i <= self.tasks@.len(),
                tasks@.len() == i,
                forall|j: int| 0 <= j < i ==> #[trigger] tasks@[j].view() == self.tasks@[j].view(),
            decreases self.tasks@.len() - i,
        {
            tasks.push(self.tasks[i].clone());
            i = i + 1;
        }
        let mut children: Vec<Section> = Vec::new();
        let mut k: usize = 0;
        while k < self.children.len()
            invariant
                0 <= k <= self.children@.len(),
                children@.len() == k,
                forall|j: int|
                    0 <= j < k ==> #[trigger] children@[j].view() == self.children@[j].view(),
            decreases self.children@.len() - k,
        {
            let c = self.children[k].clone();
            children.push(c);
            k = k + 1;
        }
        let r = Section { name: self.name.clone(), tasks, children };
        proof {
            lemma_children_view(&r);
            lemma_children_view(self);
            assert(sections_view(r.children@) =~= sections_view(self.children@));
            assert(r@.tasks =~= self@.tasks);
        }
        assert(r@ =~= self@);
        r
    }
}

impl Clone for TodoList {
    fn clone(&self) -> (r: TodoList)
        ensures
            r@ == self@,
    {
        let mut sections: Vec<Section> = Vec::new();
        let mut k: usize = 0;
        while k < self.sections.len()
            invariant
                0 <= k <= self.sections@.len(),
                sections@.len() == k,
                forall|j: int|
                    0 <= j < k ==> #[trigger] sections@[j].view() == self.sections@[j].view(),
            decreases self.sections@.len() - k,
        {
            sections.push(self.sections[k].clone());
            k = k + 1;
        }
        let r = TodoList { sections };
        assert(r@ =~= self@);
        r
    }
}

impl Default for TodoList {
    fn default() -> (r: TodoList)
        ensures
            r@ == Seq::<SectionModel>::empty(),
    {
        let r = TodoList { sections: Vec::new() };
        assert(r@ =~= Seq::<SectionModel>::empty());
        r
    }
}

impl Section {
    /// An empty section with the given name.
    pub fn new(name: &str) -> (r: Section)
        ensures
            r@ == (SectionModel {
                name: name@,
                tasks: Seq::empty(),
                children: Seq::empty(),
            }),
    {
        let r = Section { name: name.to_owned(), tasks: Vec::new(), children: Vec::new() };
        assert(r@.tasks =~= Seq::<TaskModel>::empty());
        assert(r@.children =~= Seq::<SectionModel>::empty());
        r
    }

    /// Total number of tasks in this section and all of its descendants.
    pub fn count_tasks(&self) -> (n: usize)
        requires
            total_tasks(self@) <= usize::MAX,
        ensures
            n == total_tasks(self@),
        decreases self,
    {
        proof {
            lemma_children_view(self);
        }
        let mut n = self.tasks.len();
        let mut k: usize = 0;
        while k < self.children.len()
            invariant
                0 <= k <= self.children@.len(),
                self@.children == sections_view(self.children@),
                total_tasks(self@) <= usize::MAX,
                n == self@.tasks.len() + forest_tasks(self@.children.subrange(0, k as int)),
            decreases self.children@.len() - k,
        {
            proof {
                let cs = self@.children;
                assert(cs.subrange(0, k + 1).subrange(0, k as int) =~= cs.subrange(0, k as int));
                lemma_forest_tasks_prefix(cs, k + 1);
                lemma_forest_tasks_prefix(cs, cs.len() as int);
                assert(cs.subrange(0, cs.len() as int) =~= cs);
            }
            let c = self.children[k].count_tasks();
            n = n + c;
            k = k + 1;
        }
        assert(self@.children.subrange(0, k as int) =~= self@.children);
        n
    }
}

/// A path of child indices identifying a section in the tree, e.g. `[2, 0]`
/// means the first child of the third top-level section.
pub type NodePath = Vec<usize>;

/// Immutably borrow the section located at `path`.
pub fn get_node<'a>(list: &'a TodoList, path: &[usize]) -> (r: Option<&'a Section>)
    ensures
        match r {
            Some(s) => node_at(list@, path@) == Some(s@),
            None => node_at(list@, path@) is None,
        },
{
    get_node_slice(&list.sections, path)
}

fn get_node_slice<'a>(children: &'a Vec<Section>, path: &[usize]) -> (r: Option<&'a Section>)
    ensures
        match r {
            Some(s) => node_at(sections_view(children@), path@) == Some(s@),
            None => node_at(sections_view(children@), path@) is None,
        },
{
    if path.len() == 0 {
        return None;
    }
    if path[0] >= children.len() {
        return None;
    }
    let sec = &children[path[0]];
    get_node_slice_impl(sec, path, 1)
}

fn get_node_slice_impl<'a>(sec: &'a Section, path: &[usize], pos: usize) -> (r: Option<
    &'a Section,
>)
    requires
        pos <= path@.len(),
    ensures
        match r {
            Some(s) => sec_at(sec@, path@.skip(pos as int)) == Some(s@),
            None => sec_at(sec@, path@.skip(pos as int)) is None,
        },
    decreases path@.len() - pos,
{
    proof {
        lemma_children_view(sec);
    }
    if pos == path.len() {
        return Some(sec);
    }
    let i = path[pos];
    assert(path@.skip(pos as int).drop_first() =~= path@.skip(pos + 1));
    if i >= sec.children.len() {
        return None;
    }
    get_node_slice_impl(&sec.children[i], path, pos + 1)
}

/// Mutably borrow the section located at `path`. Whatever is written through the
/// borrow lands at `path` and nowhere else.
pub fn get_node_mut<'a>(list: &'a mut TodoList, path: &[usize]) -> (r: Option<&'a mut Section>)
    ensures
        match r {
            Some(s) => node_at(old(list)@, path@) == Some((*s)@) && final(list)@ == node_set(
                old(list)@,
                path@,
                (*final(s))@,
            ),
            None => node_at(old(list)@, path@) is None && final(list)@ == old(list)@,
        },
{
    if path.len() == 0 {
        return None;
    }
    if path[0] >= list.sections.len() {
        return None;
    }
    let sec = &mut list.sections[path[0]];
    get_node_mut_impl(sec, path, 1)
}

#[verifier::spinoff_prover]
fn get_node_mut_impl<'a>(sec: &'a mut Section, path: &[usize], pos: usize) -> (r: Option<
    &'a mut Section,
>)
    requires
        pos <= path@.len(),
    ensures
        match r {
            Some(s) => sec_at(old(sec)@, path@.skip(pos as int)) == Some((*s)@) && final(sec)@
                == sec_set(old(sec)@, path@.skip(pos as int), (*final(s))@),
            None => sec_at(old(sec)@, path@.skip(pos as int)) is None && final(sec)@ == old(
                sec,
            )@,
        },
    decreases path@.len() - pos,
{
    if pos == path.len() {
        return Some(sec);
    }
    let i = path[pos];
    assert(path@.skip(pos as int).drop_first() =~= path@.skip(pos + 1));
    if i >= sec.children.len() {
        return None;
    }
    get_node_mut_impl(&mut sec.children[i], path, pos + 1)
}


}
