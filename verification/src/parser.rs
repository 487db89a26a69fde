//! Reading and writing the todo file's markdown text.
use vstd::prelude::*;

use crate::date::{
    chrono_format_ymd, chrono_parse_ymd, is_date_char, is_relative, cleaned, keyword_offset, resolve_on, resolve_relative_date_on, valid_day,
    weekday_keyword, Date,
};
use crate::task::{
    get_node_mut, lemma_section_view_children, lemma_section_view_tasks, lemma_sections_view_push,
    lemma_sections_view_update, lemma_tasks_view_push, node_at, node_set, Section, SectionModel,
    Task, TaskModel, TodoList,
};
use crate::text::{
    is_whitespace, is_ws, string_of_range, trim, trim_end, trim_range, trim_start,
};

verus! {

broadcast use {
    lemma_section_view_children,
    lemma_sections_view_update,
    lemma_sections_view_push,
    lemma_tasks_view_push,
    lemma_section_view_tasks,
};

/// The number of UTF-8 bytes that encode `c`.
pub open spec fn char_width(c: char) -> nat {
    let u = c as u32;
    if u < 0x80 {
        1
    } else if u < 0x800 {
        2
    } else if u < 0x10000 {
        3
    } else {
        4
    }
}

/// The number of UTF-8 bytes that encode `s`.
pub open spec fn utf8_len(s: Seq<char>) -> nat
    decreases s.len(),
{
    if s.len() == 0 {
        0
    } else {
        utf8_len(s.drop_last()) + char_width(s.last())
    }
}

/// The number of characters of `s` whose encoding takes exactly `b` bytes, if
/// byte `b` falls on a character boundary.
pub open spec fn char_pos_of_byte(s: Seq<char>, b: int) -> Option<int> {
    if exists|q: int| 0 <= q <= s.len() && utf8_len(s.take(q)) == b {
        Some(choose|q: int| 0 <= q <= s.len() && utf8_len(s.take(q)) == b)
    } else {
        None
    }
}

/// The length of the first line of `t` (up to its first newline).
pub open spec fn line_len(t: Seq<char>) -> nat
    decreases t.len(),
{
    if t.len() == 0 || t[0] == '\n' {
        0
    } else {
        1 + line_len(t.drop_first())
    }
}

/// The number of `#` characters that `t` starts with.
pub open spec fn hash_run(t: Seq<char>) -> nat
    decreases t.len(),
{
    if t.len() > 0 && t[0] == '#' {
        1 + hash_run(t.drop_first())
    } else {
        0
    }
}

/// The number of non-whitespace characters that `t` starts with.
pub open spec fn word_len(t: Seq<char>) -> nat
    decreases t.len(),
{
    if t.len() > 0 && !is_ws(t[0]) {
        1 + word_len(t.drop_first())
    } else {
        0
    }
}

/// The first whitespace-separated word of `t` (empty when there is none).
pub open spec fn first_word(t: Seq<char>) -> Seq<char> {
    let u = trim_start(t);
    u.take(word_len(u) as int)
}

/// Whether a trimmed line is a heading: `#`s, a space, and a name that is not blank.
pub open spec fn is_heading(tr: Seq<char>) -> bool {
    let h = hash_run(tr);
    h > 0 && h < tr.len() && tr[h as int] == ' ' && trim(tr.skip(h as int + 1)).len() > 0
}

/// The name of a heading line.
pub open spec fn heading_name(tr: Seq<char>) -> Seq<char> {
    trim(tr.skip(hash_run(tr) as int + 1))
}

/// Whether a trimmed line is a task: it starts with `- [ `, `- [x]` or `- [X]`.
pub open spec fn is_task_line(tr: Seq<char>) -> bool {
    tr.len() >= 4 && tr.take(4) == "- [ "@ || tr.len() >= 5 && (tr.take(5) == "- [x]"@
        || tr.take(5) == "- [X]"@)
}

/// Where the text of a task holds its due marker: the first `due:`, where it
/// opens the text or follows a space.
pub open spec fn due_marker(t: Seq<char>) -> Option<int> {
    match crate::text::find(t, "due:"@) {
        Some(i) => if i == 0 || t[i - 1] == ' ' {
            Some(i)
        } else {
            None
        },
        None => None,
    }
}

/// The date that the word after a due marker names, `today` being today's day number:
/// a `YYYY-MM-DD` date, else a shortcut.
pub open spec fn due_date(word: Seq<char>, today: int) -> Option<int> {
    match chrono_parse_ymd(word) {
        Some(d) => Some(d),
        None => resolve_on(word, today),
    }
}

/// Whether the word after a due marker names a date, on whatever day it is read.
pub open spec fn names_date(word: Seq<char>) -> bool {
    let c = cleaned(word);
    chrono_parse_ymd(word) is Some || c.len() > 0 && (keyword_offset(c) is Some
        || weekday_keyword(c) is Some || chrono_parse_ymd(c) is Some)
}

/// Where, counted in characters, the text after a due date starts: the due
/// marker and the date's word are cut by their byte length from the marker on.
pub open spec fn due_cut(t: Seq<char>, i: int) -> Option<int> {
    char_pos_of_byte(t, (utf8_len(t.take(i + 4)) + utf8_len(first_word(t.skip(i + 4)))) as int)
}

/// A task read from the text after its checkbox (already trimmed).
pub open spec fn read_task_text(t: Seq<char>, is_done: bool, today: int) -> TaskModel {
    match due_marker(t) {
        Some(i) => match due_date(first_word(t.skip(i + 4)), today) {
            Some(d) => {
                let c = due_cut(t, i)->0;
                TaskModel {
                    text: trim(trim_end(t.take(i)) + trim_start(t.skip(c))),
                    is_done,
                    due: Some(d),
                }
            },
            None => TaskModel { text: t, is_done, due: None },
        },
        None => TaskModel { text: t, is_done, due: None },
    }
}

/// A task read from a trimmed task line.
pub open spec fn read_task(tr: Seq<char>, today: int) -> TaskModel {
    read_task_text(trim(tr.skip(5)), tr[3] == 'x' || tr[3] == 'X', today)
}

/// The reader's state between lines: the sections read so far, and the open
/// headings, each with its level and the path of its section.
pub struct ReadState {
    pub list: Seq<SectionModel>,
    pub stack: Seq<(int, Seq<usize>)>,
}

/// The open headings that stay open when a heading of `level` starts: those of a lower level.
pub open spec fn pop_to(stack: Seq<(int, Seq<usize>)>, level: int) -> Seq<(int, Seq<usize>)>
    decreases stack.len(),
{
    if stack.len() > 0 && stack.last().0 >= level {
        pop_to(stack.drop_last(), level)
    } else {
        stack
    }
}

/// `s` with one more child at the end.
pub open spec fn with_child(s: SectionModel, c: SectionModel) -> SectionModel {
    SectionModel { children: s.children.push(c), ..s }
}

/// `s` with one more task at the end.
pub open spec fn with_task(s: SectionModel, t: TaskModel) -> SectionModel {
    SectionModel { tasks: s.tasks.push(t), ..s }
}

/// An empty section with the given name.
pub open spec fn empty_section(name: Seq<char>) -> SectionModel {
    SectionModel { name, tasks: Seq::empty(), children: Seq::empty() }
}

/// The state after reading one line.
pub open spec fn read_line(line: Seq<char>, st: ReadState, today: int) -> ReadState {
    let tr = trim(line);
    if is_heading(tr) {
        let level = hash_run(tr) as int;
        let stack = pop_to(st.stack, level);
        let sec = empty_section(heading_name(tr));
        if stack.len() == 0 || stack.last().1.len() == 0 {
            ReadState {
                list: st.list.push(sec),
                stack: stack.push((level, seq![st.list.len() as usize])),
            }
        } else {
            let parent = stack.last().1;
            match node_at(st.list, parent) {
                Some(p) => ReadState {
                    list: node_set(st.list, parent, with_child(p, sec)),
                    stack: stack.push((level, parent.push(p.children.len() as usize))),
                },
                None => ReadState { list: st.list, stack },
            }
        }
    } else if is_task_line(tr) {
        let task = read_task(tr, today);
        if st.stack.len() > 0 {
            let path = st.stack.last().1;
            match node_at(st.list, path) {
                Some(s) => ReadState { list: node_set(st.list, path, with_task(s, task)), ..st },
                None => st,
            }
        } else if st.list.len() > 0 {
            ReadState {
                list: st.list.update(st.list.len() - 1, with_task(st.list.last(), task)),
                ..st
            }
        } else {
            st
        }
    } else {
        st
    }
}

/// The state after reading every line of `t`, one after another.
pub open spec fn read_lines(t: Seq<char>, st: ReadState, today: int) -> ReadState
    decreases t.len(),
{
    let n = line_len(t);
    let st2 = read_line(t.take(n as int), st, today);
    if n < t.len() {
        read_lines(t.skip(n as int + 1), st2, today)
    } else {
        st2
    }
}

/// The sections that a todo file's text holds, `today` being the day that
/// relative due dates count from.
pub open spec fn read_file(t: Seq<char>, today: int) -> Seq<SectionModel> {
    read_lines(t, ReadState { list: Seq::empty(), stack: Seq::empty() }, today).list
}

/// Whether the word after a due marker is a shortcut whose date counts from
/// today (it is no `YYYY-MM-DD` date).
pub open spec fn counts_from_today(word: Seq<char>) -> bool {
    chrono_parse_ymd(word) is None && is_relative(word)
}

/// Whether the (trimmed) text after a task's checkbox has a due date that
/// counts from today.
pub open spec fn task_counts_from_today(t: Seq<char>) -> bool {
    match due_marker(t) {
        Some(i) => counts_from_today(first_word(t.skip(i + 4))),
        None => false,
    }
}

/// Whether a line is a task line whose due date counts from today.
pub open spec fn line_counts_from_today(line: Seq<char>) -> bool {
    let tr = trim(line);
    !is_heading(tr) && is_task_line(tr) && task_counts_from_today(trim(tr.skip(5)))
}

/// Whether some line of `t` is a task line whose due date counts from today.
pub open spec fn text_counts_from_today(t: Seq<char>) -> bool
    decreases t.len(),
{
    let n = line_len(t);
    line_counts_from_today(t.take(n as int)) || (n < t.len() && text_counts_from_today(
        t.skip(n as int + 1),
    ))
}

/// Whether reading a line stays clear of a byte offset that would cut a
/// character in two (a reader that cuts the text by bytes stops there with a
/// panic).
pub open spec fn line_ok(line: Seq<char>) -> bool {
    let tr = trim(line);
    if is_heading(tr) {
        true
    } else if is_task_line(tr) {
        (tr.take(4) == "- [ "@ ==> (tr[4] as u32) < 0x80) && {
            let t = trim(tr.skip(5));
            match due_marker(t) {
                Some(i) => names_date(first_word(t.skip(i + 4))) ==> due_cut(t, i) is Some,
                None => true,
            }
        }
    } else {
        true
    }
}

/// Whether every line of `t` reads cleanly.
pub open spec fn text_ok(t: Seq<char>) -> bool
    decreases t.len(),
{
    let n = line_len(t);
    line_ok(t.take(n as int)) && (n < t.len() ==> text_ok(t.skip(n as int + 1)))
}


pub proof fn lemma_utf8_len_step(s: Seq<char>, q: int)
    requires
        0 <= q < s.len(),
    ensures
        utf8_len(s.take(q + 1)) == utf8_len(s.take(q)) + char_width(s[q]),
{
    assert(s.take(q + 1).drop_last() =~= s.take(q));
}

proof fn lemma_utf8_len_bound(s: Seq<char>)
    ensures
        utf8_len(s) <= 4 * s.len(),
    decreases s.len(),
{
    if s.len() > 0 {
        lemma_utf8_len_bound(s.drop_last());
    }
}

/// Byte offsets grow strictly with the number of characters.
pub proof fn lemma_utf8_len_strict(s: Seq<char>, q: int, k: int)
    requires
        0 <= q < k <= s.len(),
    ensures
        utf8_len(s.take(q)) < utf8_len(s.take(k)),
    decreases k - q,
{
    lemma_utf8_len_step(s, k - 1);
    if q < k - 1 {
        lemma_utf8_len_strict(s, q, k - 1);
    }
}

pub proof fn lemma_char_pos_unique(s: Seq<char>, b: int, k: int)
    requires
        0 <= k <= s.len(),
        utf8_len(s.take(k)) == b,
    ensures
        char_pos_of_byte(s, b) == Some(k),
{
    let q = choose|q: int| 0 <= q <= s.len() && utf8_len(s.take(q)) == b;
    if q < k {
        lemma_utf8_len_strict(s, q, k);
    } else if q > k {
        lemma_utf8_len_strict(s, k, q);
    }
}

fn char_width_exec(c: char) -> (r: u32)
    ensures
        r == char_width(c),
{
    let u = c as u32;
    if u < 0x80 {
        1
    } else if u < 0x800 {
        2
    } else if u < 0x10000 {
        3
    } else {
        4
    }
}

/// The number of UTF-8 bytes of `v[lo..hi]`.
fn utf8_len_range(v: &Vec<char>, lo: usize, hi: usize) -> (r: u128)
    requires
        lo <= hi <= v@.len(),
    ensures
        r == utf8_len(v@.subrange(lo as int, hi as int)),
{
    let mut acc: u128 = 0;
    let mut k = lo;
    while k < hi
        invariant
            lo <= k <= hi <= v@.len(),
            hi <= usize::MAX,
            acc == utf8_len(v@.subrange(lo as int, k as int)),
        decreases hi - k,
    {
        proof {
            let s = v@.subrange(lo as int, hi as int);
            lemma_utf8_len_step(s, k - lo);
            assert(s.take(k - lo) =~= v@.subrange(lo as int, k as int));
            assert(s.take(k - lo + 1) =~= v@.subrange(lo as int, k + 1));
            lemma_utf8_len_bound(v@.subrange(lo as int, k as int));
        }
        acc = acc + char_width_exec(v[k]) as u128;
        k = k + 1;
    }
    acc
}

/// The end of the line that starts at `pos`.
pub(crate) fn line_end(v: &Vec<char>, pos: usize) -> (e: usize)
    requires
        pos <= v@.len(),
    ensures
        pos <= e <= v@.len(),
        e - pos == line_len(v@.skip(pos as int)),
        e < v@.len() ==> v@[e as int] == '\n',
{
    let mut k = pos;
    while k < v.len() && v[k] != '\n'
        invariant
            pos <= k <= v@.len(),
            line_len(v@.skip(pos as int)) == (k - pos) + line_len(v@.skip(k as int)),
        decreases v@.len() - k,
    {
        assert(v@.skip(k as int).drop_first() =~= v@.skip(k + 1));
        k = k + 1;
    }
    k
}

/// The number of `#` at the start of `v[a..b]`.
pub(crate) fn hash_run_exec(v: &Vec<char>, a: usize, b: usize) -> (h: usize)
    requires
        a <= b <= v@.len(),
    ensures
        h == hash_run(v@.subrange(a as int, b as int)),
        h <= b - a,
{
    let mut k = a;
    while k < b && v[k] == '#'
        invariant
            a <= k <= b <= v@.len(),
            hash_run(v@.subrange(a as int, b as int)) == (k - a) + hash_run(
                v@.subrange(k as int, b as int),
            ),
        decreases b - k,
    {
        assert(v@.subrange(k as int, b as int).drop_first() =~= v@.subrange(k + 1, b as int));
        k = k + 1;
    }
    k - a
}

/// The end of the word that starts at `a` in `v[a..b]`.
fn word_end(v: &Vec<char>, a: usize, b: usize) -> (e: usize)
    requires
        a <= b <= v@.len(),
    ensures
        a <= e <= b,
        e - a == word_len(v@.subrange(a as int, b as int)),
{
    let mut k = a;
    while k < b && !is_whitespace(v[k])
        invariant
            a <= k <= b <= v@.len(),
            word_len(v@.subrange(a as int, b as int)) == (k - a) + word_len(
                v@.subrange(k as int, b as int),
            ),
        decreases b - k,
    {
        assert(v@.subrange(k as int, b as int).drop_first() =~= v@.subrange(k + 1, b as int));
        k = k + 1;
    }
    k
}

/// The characters of `due:`.
pub(crate) fn due_marker_chars() -> (r: Vec<char>)
    ensures
        r@ == "due:"@,
{
    proof {
        reveal_strlit("due:");
    }
    let r = vec!['d', 'u', 'e', ':'];
    assert(r@ =~= "due:"@);
    r
}

/// The bounds of the first word after the due marker at `i`.
pub(crate) fn due_word(t: &Vec<char>, i: usize) -> (r: (usize, usize))
    requires
        i + 4 <= t@.len(),
    ensures
        i + 4 <= r.0 <= r.1 <= t@.len(),
        first_word(t@.skip(i + 4)) == t@.subrange(r.0 as int, r.1 as int),
{
    let len = t.len();
    let (p, _) = trim_range(t, i + 4, len);
    let q = word_end(t, p, len);
    proof {
        assert(t@.skip(i + 4) =~= t@.subrange(i + 4, len as int));
        assert(first_word(t@.skip(i + 4)) =~= t@.subrange(p as int, q as int));
    }
    (p, q)
}

/// The character position where the text after the due date resumes.
fn cut_position(t: &Vec<char>, i: usize, p: usize, q: usize) -> (k: usize)
    requires
        i + 4 <= p <= q <= t@.len(),
        first_word(t@.skip(i + 4)) == t@.subrange(p as int, q as int),
        due_cut(t@, i as int) is Some,
    ensures
        k as int == due_cut(t@, i as int)->0,
        i + 4 <= k <= t@.len(),
{
    let len = t.len();
    let base = utf8_len_range(t, 0, i + 4);
    let wlen = utf8_len_range(t, p, q);
    proof {
        lemma_utf8_len_bound(t@.subrange(0, i + 4));
        lemma_utf8_len_bound(t@.subrange(p as int, q as int));
    }
    let target = base + wlen;
    let ghost c = due_cut(t@, i as int)->0;
    proof {
        assert(t@.subrange(0, i + 4) =~= t@.take(i + 4));
        assert(0 <= c <= t@.len() && utf8_len(t@.take(c)) == target);
        if c < i + 4 {
            lemma_utf8_len_strict(t@, c, i + 4);
        }
    }
    let mut k = i + 4;
    let mut acc = base;
    while acc < target
        invariant
            i + 4 <= k <= c <= len,
            len == t@.len(),
            acc == utf8_len(t@.take(k as int)),
            utf8_len(t@.take(c)) == target,
        decreases len - k,
    {
        proof {
            if c == k {
                assert(false);
            }
            lemma_utf8_len_step(t@, k as int);
            lemma_utf8_len_bound(t@.take(k as int));
        }
        acc = acc + char_width_exec(t[k]) as u128;
        k = k + 1;
        proof {
            if c < k {
                lemma_utf8_len_strict(t@, c, k as int);
            }
        }
    }
    proof {
        if c > k {
            lemma_utf8_len_strict(t@, k as int, c);
        }
    }
    k
}

/// The text around a due date: what precedes the marker and what follows the
/// cut, joined and trimmed.
fn join_around(t: &Vec<char>, i: usize, k: usize) -> (r: String)
    requires
        i <= k <= t@.len(),
    ensures
        r@ == trim(trim_end(t@.take(i as int)) + trim_start(t@.skip(k as int))),
{
    let len = t.len();
    let e1 = crate::text::trim_end_range(t, 0, i);
    let (s2, _) = trim_range(t, k, len);
    let mut joined = crate::text::vec_of_range(t, 0, e1);
    let mut tail = crate::text::vec_of_range(t, s2, len);
    joined.append(&mut tail);
    let jl = joined.len();
    let (ja, jb) = trim_range(&joined, 0, jl);
    proof {
        assert(t@.subrange(0, i as int) =~= t@.take(i as int));
        assert(t@.subrange(k as int, len as int) =~= t@.skip(k as int));
        assert(joined@.subrange(0, jl as int) =~= joined@);
    }
    string_of_range(&joined, ja, jb)
}

/// The date the word after a due marker names.
fn due_date_exec(word: &str, today: Date) -> (r: Option<Date>)
    requires
        counts_from_today(word@) ==> valid_day(today.day() + 7),
    ensures
        match r {
            Some(d) => due_date(word@, today.day()) == Some(d.day()),
            None => due_date(word@, today.day()) is None,
        },
        r is Some <==> names_date(word@),
{
    proof {
        crate::date::lemma_resolve_names_date(word@, today.day());
    }
    match Date::parse_ymd(word) {
        Some(d) => Some(d),
        None => resolve_relative_date_on(word, today),
    }
}

/// A task read from the (trimmed) text after its checkbox: a `due:` marker at
/// the start or after a space, followed by a date or a date shortcut, becomes
/// the task's due date and leaves the text.
fn read_task_text_exec(t: &Vec<char>, is_done: bool, today: Date) -> (r: Task)
    requires
        task_counts_from_today(t@) ==> valid_day(today.day() + 7),
        match due_marker(t@) {
            Some(i) => names_date(first_word(t@.skip(i + 4))) ==> due_cut(t@, i) is Some,
            None => true,
        },
    ensures
        r@ == read_task_text(t@, is_done, today.day()),
{
    let marker = due_marker_chars();
    let found = crate::text::find_exec(t, &marker);
    match found {
        None => Task { text: crate::text::string_of(t), is_done, due: None },
        Some(i) => {
            if !(i == 0 || t[i - 1] == ' ') {
                return Task { text: crate::text::string_of(t), is_done, due: None };
            }
            proof {
                reveal_strlit("due:");
            }
            let (p, q) = due_word(t, i);
            let word = string_of_range(t, p, q);
            match due_date_exec(word.as_str(), today) {
                None => Task { text: crate::text::string_of(t), is_done, due: None },
                Some(d) => {
                    let k = cut_position(t, i, p, q);
                    Task { text: join_around(t, i, k), is_done, due: Some(d) }
                },
            }
        },
    }
}


/// The open headings as levels and paths.
pub open spec fn stack_view(s: Seq<(usize, Vec<usize>)>) -> Seq<(int, Seq<usize>)> {
    Seq::new(s.len(), |i: int| (s[i].0 as int, s[i].1@))
}

proof fn lemma_stack_view_push(s: Seq<(usize, Vec<usize>)>, x: (usize, Vec<usize>))
    ensures
        stack_view(s.push(x)) == stack_view(s).push((x.0 as int, x.1@)),
{
    assert(stack_view(s.push(x)) =~= stack_view(s).push((x.0 as int, x.1@)));
}

proof fn lemma_stack_view_drop_last(s: Seq<(usize, Vec<usize>)>)
    requires
        s.len() > 0,
    ensures
        stack_view(s.drop_last()) == stack_view(s).drop_last(),
{
    assert(stack_view(s.drop_last()) =~= stack_view(s).drop_last());
}

/// A copy of a path.
pub fn clone_path(p: &Vec<usize>) -> (r: Vec<usize>)
    ensures
        r@ == p@,
{
    let mut r: Vec<usize> = Vec::new();
    let mut i: usize = 0;
    while i < p.len()
        invariant
            0 <= i <= p@.len(),
            r@ == p@.take(i as int),
        decreases p@.len() - i,
    {
        r.push(p[i]);
        assert(p@.take(i as int).push(p@[i as int]) =~= p@.take(i + 1));
        i = i + 1;
    }
    assert(p@.take(i as int) =~= p@);
    r
}

/// Opens a heading of `level` named `name`: it closes the open headings of the
/// same or a deeper level, and its section becomes the last child of the
/// heading still open, or a new top-level section.
fn add_heading(
    list: &mut TodoList,
    stack: &mut Vec<(usize, Vec<usize>)>,
    level: usize,
    name: String,
)
    ensures
        ({
            let st = pop_to(stack_view(old(stack)@), level as int);
            let sec = empty_section(name@);
            if st.len() == 0 || st.last().1.len() == 0 {
                final(list)@ == old(list)@.push(sec) && stack_view(final(stack)@) == st.push(
                    (level as int, seq![old(list)@.len() as usize]),
                )
            } else {
                let parent = st.last().1;
                match node_at(old(list)@, parent) {
                    Some(p) => final(list)@ == node_set(old(list)@, parent, with_child(p, sec))
                        && stack_view(final(stack)@) == st.push(
                        (level as int, parent.push(p.children.len() as usize)),
                    ),
                    None => final(list)@ == old(list)@ && stack_view(final(stack)@) == st,
                }
            }
        }),
{
    while stack.len() > 0 && stack[stack.len() - 1].0 >= level
        invariant
            pop_to(stack_view(old(stack)@), level as int) == pop_to(
                stack_view(stack@),
                level as int,
            ),
            list == old(list),
        decreases stack@.len(),
    {
        proof {
            lemma_stack_view_drop_last(stack@);
        }
        stack.pop();
    }
    proof {
        let sv = stack_view(stack@);
        if sv.len() > 0 {
            assert(sv.last().0 == stack@.last().0 as int);
        }
        assert(pop_to(sv, level as int) == sv);
    }
    let sec = Section { name, tasks: Vec::new(), children: Vec::new() };
    assert(sec@.tasks =~= Seq::<TaskModel>::empty());
    assert(sec@.children =~= Seq::<SectionModel>::empty());
    assert(sec@ =~= empty_section(sec.name@));
    let n = stack.len();
    if n == 0 || stack[n - 1].1.len() == 0 {
        list.sections.push(sec);
        let idx = list.sections.len() - 1;
        let entry = (level, vec![idx]);
        proof {
            lemma_stack_view_push(stack@, entry);
            assert(entry.1@ =~= seq![old(list)@.len() as usize]);
        }
        stack.push(entry);
    } else {
        let parent = clone_path(&stack[n - 1].1);
        match get_node_mut(list, parent.as_slice()) {
            Some(p) => {
                let idx = p.children.len();
                let ghost before = p@;
                let ghost sv = sec@;
                p.children.push(sec);
                assert(p@ =~= with_child(before, sv));
                let mut np = parent;
                np.push(idx);
                let entry = (level, np);
                proof {
                    lemma_stack_view_push(stack@, entry);
                }
                stack.push(entry);
            },
            None => {},
        }
    }
}

/// Adds a task to the open heading's section (or, before any heading, to the
/// last section, which then does not exist).
fn add_task(list: &mut TodoList, stack: &Vec<(usize, Vec<usize>)>, task: Task)
    ensures
        ({
            let st = ReadState { list: old(list)@, stack: stack_view(stack@) };
            let t = task@;
            final(list)@ == if st.stack.len() > 0 {
                let path = st.stack.last().1;
                match node_at(st.list, path) {
                    Some(s) => node_set(st.list, path, with_task(s, t)),
                    None => st.list,
                }
            } else if st.list.len() > 0 {
                st.list.update(st.list.len() - 1, with_task(st.list.last(), t))
            } else {
                st.list
            }
        }),
{
    let n = stack.len();
    if n > 0 {
        let path = clone_path(&stack[n - 1].1);
        match get_node_mut(list, path.as_slice()) {
            Some(s) => {
                let ghost before = s@;
                let ghost tv = task@;
                s.tasks.push(task);
                assert(s@ =~= with_task(before, tv));
            },
            None => {},
        }
    } else if list.sections.len() > 0 {
        let m = list.sections.len();
        let ghost before = list.sections@[m - 1]@;
        let ghost tv = task@;
        list.sections[m - 1].tasks.push(task);
        assert(list.sections@[m - 1]@ =~= with_task(before, tv));
    }
}


/// Whether `v[a..b]` is a task line.
pub(crate) fn is_task_line_exec(v: &Vec<char>, a: usize, b: usize) -> (r: bool)
    requires
        a <= b <= v@.len(),
    ensures
        r == is_task_line(v@.subrange(a as int, b as int)),
{
    proof {
        reveal_strlit("- [ ");
        reveal_strlit("- [x]");
        reveal_strlit("- [X]");
    }
    let ghost tr = v@.subrange(a as int, b as int);
    let n = b - a;
    let open = n >= 4 && v[a] == '-' && v[a + 1] == ' ' && v[a + 2] == '[';
    let r1 = open && v[a + 3] == ' ';
    let r2 = n >= 5 && open && (v[a + 3] == 'x' || v[a + 3] == 'X') && v[a + 4] == ']';
    proof {
        if n >= 4 {
            if r1 {
                assert(tr.take(4) =~= "- [ "@);
            } else if tr.take(4) == "- [ "@ {
                assert(tr.take(4)[0] == '-' && tr.take(4)[1] == ' ' && tr.take(4)[2] == '['
                    && tr.take(4)[3] == ' ');
            }
        }
        if n >= 5 {
            if r2 && v[a + 3] == 'x' {
                assert(tr.take(5) =~= "- [x]"@);
            } else if r2 {
                assert(tr.take(5) =~= "- [X]"@);
            }
            if tr.take(5) == "- [x]"@ || tr.take(5) == "- [X]"@ {
                assert(tr.take(5)[0] == '-' && tr.take(5)[1] == ' ' && tr.take(5)[2] == '['
                    && tr.take(5)[4] == ']');
                assert(tr.take(5)[3] == 'x' || tr.take(5)[3] == 'X');
            }
        }
    }
    r1 || r2
}

/// Reads one line `v[lo..hi]` into the sections and the open headings.
fn read_line_exec(
    v: &Vec<char>,
    lo: usize,
    hi: usize,
    list: &mut TodoList,
    stack: &mut Vec<(usize, Vec<usize>)>,
    today: Date,
)
    requires
        lo <= hi <= v@.len(),
        line_ok(v@.subrange(lo as int, hi as int)),
        line_counts_from_today(v@.subrange(lo as int, hi as int)) ==> valid_day(today.day() + 7),
    ensures
        (ReadState { list: final(list)@, stack: stack_view(final(stack)@) }) == read_line(
            v@.subrange(lo as int, hi as int),
            ReadState { list: old(list)@, stack: stack_view(old(stack)@) },
            today.day(),
        ),
{
    let ghost line = v@.subrange(lo as int, hi as int);
    let (a, b) = trim_range(v, lo, hi);
    let ghost tr = v@.subrange(a as int, b as int);
    assert(tr == trim(line));
    let h = hash_run_exec(v, a, b);
    if h > 0 && h < b - a && v[a + h] == ' ' {
        let (na, nb) = trim_range(v, a + h + 1, b);
        assert(tr.skip(h + 1) =~= v@.subrange(a + h + 1, b as int));
        if nb > na {
            let name = string_of_range(v, na, nb);
            add_heading(list, stack, h, name);
            return;
        }
    }
    assert(!is_heading(tr));
    if is_task_line_exec(v, a, b) {
        proof {
            crate::text::lemma_trim_end_last(trim_start(line));
            reveal_strlit("- [ ");
            if tr.take(4) == "- [ "@ {
                assert(tr.take(4)[3] == ' ');
                assert(tr[3] == ' ');
                if tr.len() == 4 {
                    assert(tr.last() == tr[3]);
                }
            }
        }
        assert(a + 5 <= b);
        let (ta, tb) = trim_range(v, a + 5, b);
        assert(tr.skip(5) =~= v@.subrange(a + 5, b as int));
        let t = crate::text::vec_of_range(v, ta, tb);
        let is_done = v[a + 3] == 'x' || v[a + 3] == 'X';
        let task = read_task_text_exec(&t, is_done, today);
        add_task(list, stack, task);
    }
}

/// The sections that a todo file's text holds, relative due dates counting
/// from `today`.
pub fn parse_file_on(content: &str, today: Date) -> (r: TodoList)
    requires
        text_ok(content@),
        text_counts_from_today(content@) ==> valid_day(today.day() + 7),
    ensures
        r@ == read_file(content@, today.day()),
{
    let v = crate::text::chars_of(content);
    let mut list = TodoList { sections: Vec::new() };
    let mut stack: Vec<(usize, Vec<usize>)> = Vec::new();
    let ghost init = ReadState { list: Seq::empty(), stack: Seq::empty() };
    assert(list@ =~= Seq::<SectionModel>::empty());
    assert(stack_view(stack@) =~= Seq::<(int, Seq<usize>)>::empty());
    assert(v@.skip(0) =~= v@);
    let mut pos: usize = 0;
    loop
        invariant_except_break
            read_lines(v@, init, today.day()) == read_lines(
                v@.skip(pos as int),
                ReadState { list: list@, stack: stack_view(stack@) },
                today.day(),
            ),
            text_ok(v@.skip(pos as int)),
            text_counts_from_today(v@.skip(pos as int)) ==> valid_day(today.day() + 7),
        invariant
            pos <= v@.len(),
        ensures
            read_lines(v@, init, today.day()).list == list@,
        decreases v@.len() - pos,
    {
        let e = line_end(&v, pos);
        let ghost rest = v@.skip(pos as int);
        assert(rest.take(e - pos) =~= v@.subrange(pos as int, e as int));
        read_line_exec(&v, pos, e, &mut list, &mut stack, today);
        if e == v.len() {
            break;
        }
        assert(rest.skip(e - pos + 1) =~= v@.skip(e + 1));
        pos = e + 1;
    }
    list
}


/// Whether the word after a due marker names a date, on any day.
fn names_date_exec(word: &str) -> (r: bool)
    ensures
        r == names_date(word@),
{
    if Date::parse_ymd(word).is_some() {
        return true;
    }
    let c = crate::date::cleaned_exec(word);
    !c.as_str().is_empty() && (crate::date::keyword_offset_exec(c.as_str()).is_some()
        || crate::date::weekday_keyword_exec(c.as_str()).is_some() || Date::parse_ymd(
        c.as_str(),
    ).is_some())
}

/// Whether the cut after the due marker at `i` falls on a character boundary.
fn cut_exists(t: &Vec<char>, i: usize, p: usize, q: usize) -> (r: bool)
    requires
        i + 4 <= p <= q <= t@.len(),
        first_word(t@.skip(i + 4)) == t@.subrange(p as int, q as int),
    ensures
        r == (due_cut(t@, i as int) is Some),
{
    let len = t.len();
    let base = utf8_len_range(t, 0, i + 4);
    let wlen = utf8_len_range(t, p, q);
    proof {
        lemma_utf8_len_bound(t@.subrange(0, i + 4));
        lemma_utf8_len_bound(t@.subrange(p as int, q as int));
        assert(t@.subrange(0, i + 4) =~= t@.take(i + 4));
    }
    let target = base + wlen;
    assert forall|j: int| 0 <= j < i + 4 implies utf8_len(#[trigger] t@.take(j)) < target by {
        lemma_utf8_len_strict(t@, j, i + 4);
    }
    let mut k = i + 4;
    let mut acc = base;
    while acc < target && k < len
        invariant
            i + 4 <= k <= len,
            len == t@.len(),
            acc == utf8_len(t@.take(k as int)),
            forall|j: int| 0 <= j < k ==> utf8_len(#[trigger] t@.take(j)) < target,
        decreases len - k,
    {
        proof {
            lemma_utf8_len_step(t@, k as int);
            lemma_utf8_len_bound(t@.take(k as int));
            assert forall|j: int| 0 <= j < k + 1 implies utf8_len(#[trigger] t@.take(j))
                < target by {
                if j == k {
                } else {
                }
            }
        }
        acc = acc + char_width_exec(t[k]) as u128;
        k = k + 1;
    }
    proof {
        let ghost b = target as int;
        if acc == target {
            lemma_char_pos_unique(t@, b, k as int);
        } else {
            assert forall|j: int| 0 <= j <= t@.len() implies utf8_len(#[trigger] t@.take(j))
                != b by {
                if j < k {
                } else if j > k {
                    lemma_utf8_len_strict(t@, k as int, j);
                }
            }
            if acc < target {
                assert(k == len);
                assert forall|j: int| 0 <= j <= t@.len() implies utf8_len(#[trigger] t@.take(j))
                    != b by {
                    if j < k {
                    }
                }
            }
        }
    }
    acc == target
}

/// Whether a line reads cleanly.
fn line_ok_exec(v: &Vec<char>, lo: usize, hi: usize) -> (r: bool)
    requires
        lo <= hi <= v@.len(),
    ensures
        r == line_ok(v@.subrange(lo as int, hi as int)),
{
    let ghost line = v@.subrange(lo as int, hi as int);
    let (a, b) = trim_range(v, lo, hi);
    let ghost tr = v@.subrange(a as int, b as int);
    let h = hash_run_exec(v, a, b);
    if h > 0 && h < b - a && v[a + h] == ' ' {
        let (na, nb) = trim_range(v, a + h + 1, b);
        assert(tr.skip(h + 1) =~= v@.subrange(a + h + 1, b as int));
        if nb > na {
            return true;
        }
    }
    if !is_task_line_exec(v, a, b) {
        return true;
    }
    proof {
        crate::text::lemma_trim_end_last(trim_start(line));
        reveal_strlit("- [ ");
        if tr.take(4) == "- [ "@ {
            assert(tr.take(4)[3] == ' ');
            assert(tr[3] == ' ');
            if tr.len() == 4 {
                assert(tr.last() == tr[3]);
            }
        }
    }
    let open_box = v[a + 3] == ' ';
    proof {
        reveal_strlit("- [x]");
        reveal_strlit("- [X]");
        if tr.take(4) == "- [ "@ {
            assert(tr.take(4)[3] == ' ');
        }
        if open_box {
            if tr.take(5) == "- [x]"@ {
                assert(tr.take(5)[3] == 'x');
            }
            if tr.take(5) == "- [X]"@ {
                assert(tr.take(5)[3] == 'X');
            }
            assert(tr.take(4) == "- [ "@);
        }
    }
    if open_box && (v[a + 4] as u32) >= 0x80u32 {
        return false;
    }
    let (ta, tb) = trim_range(v, a + 5, b);
    assert(tr.skip(5) =~= v@.subrange(a + 5, b as int));
    let t = crate::text::vec_of_range(v, ta, tb);
    let marker = due_marker_chars();
    match crate::text::find_exec(&t, &marker) {
        None => true,
        Some(i) => {
            if !(i == 0 || t[i - 1] == ' ') {
                return true;
            }
            proof {
                reveal_strlit("due:");
            }
            let (p, q) = due_word(&t, i);
            let word = string_of_range(&t, p, q);
            if !names_date_exec(word.as_str()) {
                return true;
            }
            cut_exists(&t, i, p, q)
        },
    }
}

/// Whether every line of a todo file's text reads cleanly: no task line cuts a
/// character in two.
pub fn is_parsable(content: &str) -> (r: bool)
    ensures
        r == text_ok(content@),
{
    let v = crate::text::chars_of(content);
    assert(v@.skip(0) =~= v@);
    let mut pos: usize = 0;
    loop
        invariant
            pos <= v@.len(),
            v@ == content@,
            text_ok(v@) == text_ok(v@.skip(pos as int)),
        decreases v@.len() - pos,
    {
        let e = line_end(&v, pos);
        let ghost rest = v@.skip(pos as int);
        assert(rest.take(e - pos) =~= v@.subrange(pos as int, e as int));
        assert(text_ok(rest) == (line_ok(rest.take(line_len(rest) as int)) && (line_len(rest)
            < rest.len() ==> text_ok(rest.skip(line_len(rest) as int + 1)))));
        if !line_ok_exec(&v, pos, e) {
            return false;
        }
        if e == v.len() {
            return true;
        }
        assert(rest.skip(e - pos + 1) =~= v@.skip(e + 1));
        pos = e + 1;
    }
}

/// The sections that a todo file's text holds, relative due dates counting from
/// today's local date. A text without such a date is always read; one with
/// such a date gives nothing when the clock reads a date within a week of the
/// last date `chrono` holds.
pub fn parse_file(content: &str) -> (r: Option<TodoList>)
    requires
        text_ok(content@),
    ensures
        r matches Some(l) ==> exists|t: int|
            valid_day(t) && (text_counts_from_today(content@) ==> valid_day(t + 7)) && l@
                == read_file(content@, t),
        !text_counts_from_today(content@) ==> r is Some,
{
    let today = crate::date::today();
    let d = today.days();
    if d > crate::date::MAX_DAY - 7 && crate::shortcut::text_counts_from_today_exec(content) {
        return None;
    }
    let l = parse_file_on(content, today);
    assert(valid_day(today.day()));
    Some(l)
}


/// Whether `chrono` writes day `d` as date characters that it reads back as `d`.
pub open spec fn date_reads_back(d: int) -> bool {
    &&& chrono_parse_ymd(chrono_format_ymd(d)) == Some(d)
    &&& chrono_format_ymd(d).len() > 0
    &&& forall|i: int|
        0 <= i < chrono_format_ymd(d).len() ==> is_date_char(#[trigger] chrono_format_ymd(d)[i])
}

/// Whether every due date of the tasks reads back.
pub open spec fn tasks_dates_ok(ts: Seq<TaskModel>) -> bool {
    forall|i: int| 0 <= i < ts.len() ==> ((#[trigger] ts[i]).due matches Some(d) ==> date_reads_back(d))
}

/// Whether every due date in the section and below reads back.
pub open spec fn section_dates_ok(s: SectionModel) -> bool
    decreases s,
{
    tasks_dates_ok(s.tasks) && forest_dates_ok(s.children)
}

/// Whether every due date in the forest reads back.
pub open spec fn forest_dates_ok(cs: Seq<SectionModel>) -> bool
    decreases cs,
{
    if cs.len() == 0 {
        true
    } else {
        forest_dates_ok(cs.subrange(0, cs.len() - 1)) && section_dates_ok(cs[cs.len() - 1])
    }
}

/// `n` hash characters.
pub open spec fn hashes(n: nat) -> Seq<char> {
    Seq::new(n, |i: int| '#')
}

/// The line a task is written as.
pub open spec fn task_line(t: TaskModel) -> Seq<char> {
    let bx = if t.is_done {
        "[x]"@
    } else {
        "[ ]"@
    };
    match t.due {
        Some(d) => "- "@ + bx + " "@ + t.text + " due:"@ + chrono_format_ymd(d) + "\n"@,
        None => "- "@ + bx + " "@ + t.text + "\n"@,
    }
}

/// The lines of a list of tasks.
pub open spec fn tasks_text(ts: Seq<TaskModel>) -> Seq<char>
    decreases ts.len(),
{
    if ts.len() == 0 {
        Seq::empty()
    } else {
        tasks_text(ts.drop_last()) + task_line(ts.last())
    }
}

/// Whether the last section written for `s` (itself or its last descendant) has tasks.
pub open spec fn ends_with_tasks(s: SectionModel) -> bool
    decreases s,
{
    if s.children.len() == 0 {
        s.tasks.len() > 0
    } else {
        ends_with_tasks(s.children[s.children.len() - 1])
    }
}

/// Whether a blank line goes before the section that follows the forest `cs`,
/// `gap` being the answer before it.
pub open spec fn gap_after(cs: Seq<SectionModel>, gap: bool) -> bool {
    if cs.len() == 0 {
        gap
    } else {
        ends_with_tasks(cs[cs.len() - 1])
    }
}

/// The text of a section at heading `level`: a blank line first when `gap`,
/// its heading, then (after a blank line) its tasks, then its children one
/// level deeper.
pub open spec fn section_text(s: SectionModel, level: nat, gap: bool) -> Seq<char>
    decreases s,
{
    (if gap {
        "\n"@
    } else {
        Seq::empty()
    }) + hashes(level) + " "@ + s.name + "\n"@ + (if s.tasks.len() > 0 {
        "\n"@ + tasks_text(s.tasks)
    } else {
        Seq::empty()
    }) + forest_text(s.children, level + 1, s.tasks.len() > 0)
}

/// The text of a forest of sections at heading `level`.
pub open spec fn forest_text(cs: Seq<SectionModel>, level: nat, gap: bool) -> Seq<char>
    decreases cs,
{
    if cs.len() == 0 {
        Seq::empty()
    } else {
        let init = cs.subrange(0, cs.len() - 1);
        forest_text(init, level, gap) + section_text(
            cs[cs.len() - 1],
            level,
            gap_after(init, gap),
        )
    }
}

/// The text of the todo file for a list of top-level sections.
pub open spec fn file_text(list: Seq<SectionModel>) -> Seq<char> {
    forest_text(list, 1, false)
}

/// How many levels of sections lie below `s`.
pub open spec fn depth_below(s: SectionModel) -> nat
    decreases s,
{
    if s.children.len() == 0 {
        0
    } else {
        1 + forest_depth(s.children)
    }
}

/// The deepest `depth_below` in a forest.
pub open spec fn forest_depth(cs: Seq<SectionModel>) -> nat
    decreases cs,
{
    if cs.len() == 0 {
        0
    } else {
        let a = forest_depth(cs.subrange(0, cs.len() - 1));
        let b = depth_below(cs[cs.len() - 1]);
        if a >= b {
            a
        } else {
            b
        }
    }
}

proof fn lemma_forest_depth(cs: Seq<SectionModel>, k: int)
    requires
        0 <= k < cs.len(),
    ensures
        depth_below(cs[k]) <= forest_depth(cs),
    decreases cs.len(),
{
    if k < cs.len() - 1 {
        let init = cs.subrange(0, cs.len() - 1);
        lemma_forest_depth(init, k);
        assert(init[k] == cs[k]);
    }
}

/// Whether no section of `s` lies more than `budget` levels below it.
fn depth_within(s: &Section, budget: usize) -> (r: bool)
    ensures
        r == (depth_below(s@) <= budget),
    decreases s,
{
    if s.children.len() == 0 {
        return true;
    }
    if budget == 0 {
        return false;
    }
    let mut k: usize = 0;
    while k < s.children.len()
        invariant
            0 <= k <= s.children@.len(),
            budget >= 1,
            s@.children == crate::task::sections_view(s.children@),
            forest_depth(s@.children.subrange(0, k as int)) <= budget - 1,
        decreases s.children@.len() - k,
    {
        let ok = depth_within(&s.children[k], budget - 1);
        let ghost cs = s@.children;
        assert(cs.subrange(0, k + 1).subrange(0, k as int) =~= cs.subrange(0, k as int));
        if !ok {
            proof {
                lemma_forest_depth(cs, k as int);
            }
            return false;
        }
        k = k + 1;
    }
    assert(s@.children.subrange(0, k as int) =~= s@.children);
    true
}

/// Whether the tree is shallow enough for its heading levels to be counted in a
/// `usize` (the writer counts them so).
pub fn depth_fits(list: &TodoList) -> (r: bool)
    ensures
        r == (forest_depth(list@) < usize::MAX),
{
    let mut k: usize = 0;
    while k < list.sections.len()
        invariant
            0 <= k <= list.sections@.len(),
            forest_depth(list@.subrange(0, k as int)) < usize::MAX,
        decreases list.sections@.len() - k,
    {
        let ok = depth_within(&list.sections[k], usize::MAX - 1);
        let ghost cs = list@;
        assert(cs.subrange(0, k + 1).subrange(0, k as int) =~= cs.subrange(0, k as int));
        if !ok {
            proof {
                lemma_forest_depth(cs, k as int);
            }
            return false;
        }
        k = k + 1;
    }
    assert(list@.subrange(0, k as int) =~= list@);
    true
}

/// Writes one task line.
fn write_task_line(out: &mut String, task: &Task)
    ensures
        final(out)@ == old(out)@ + task_line(task@),
        task@.due matches Some(d) ==> date_reads_back(d),
{
    let box_str = if task.is_done {
        "[x]"
    } else {
        "[ ]"
    };
    out.append("- ");
    out.append(box_str);
    out.append(" ");
    out.append(task.text.as_str());
    match task.due {
        Some(date) => {
            let formatted = date.format_ymd();
            out.append(" due:");
            out.append(formatted.as_str());
            out.append("\n");
        },
        None => {
            out.append("\n");
        },
    }
    assert(out@ =~= old(out)@ + task_line(task@));
}

/// Writes a section, its tasks and its children. `first` is whether nothing
/// has been written yet, `last_wrote_tasks` whether the section written last
/// had tasks; a blank line separates a heading from tasks above it.
fn write_section(
    out: &mut String,
    sec: &Section,
    level: usize,
    first: &mut bool,
    last_wrote_tasks: &mut bool,
)
    requires
        level + depth_below(sec@) <= usize::MAX,
    ensures
        final(out)@ == old(out)@ + section_text(sec@, level as nat, !*old(first) && *old(last_wrote_tasks)),
        section_dates_ok(sec@),
        !*final(first),
        *final(last_wrote_tasks) == ends_with_tasks(sec@),
    decreases sec,
{
    let ghost gap = !*first && *last_wrote_tasks;
    if !*first && *last_wrote_tasks {
        out.append("\n");
    }
    let ghost pre = out@;
    let mut h: usize = 0;
    while h < level
        invariant
            0 <= h <= level,
            out@ == pre + hashes(h as nat),
        decreases level - h,
    {
        crate::text::push_char(out, '#');
        assert(pre + hashes(h as nat + 1) =~= (pre + hashes(h as nat)).push('#'));
        h = h + 1;
    }
    out.append(" ");
    out.append(sec.name.as_str());
    out.append("\n");
    *first = false;
    let ghost after_heading = out@;
    let ghost ts = sec@.tasks;
    if sec.tasks.len() == 0 {
        *last_wrote_tasks = false;
    } else {
        out.append("\n");
        let ghost t0 = out@;
        let mut i: usize = 0;
        while i < sec.tasks.len()
            invariant
                0 <= i <= sec.tasks@.len(),
                ts == crate::task::tasks_view(sec.tasks@),
                out@ == t0 + tasks_text(ts.take(i as int)),
                tasks_dates_ok(ts.take(i as int)),
            decreases sec.tasks@.len() - i,
        {
            write_task_line(out, &sec.tasks[i]);
            assert(ts.take(i + 1).drop_last() =~= ts.take(i as int));
            assert(ts.take(i + 1)[i as int] == ts[i as int]);
            i = i + 1;
        }
        assert(ts.take(i as int) =~= ts);
        *last_wrote_tasks = true;
    }
    assert(sec.tasks.len() == 0 ==> ts =~= Seq::<TaskModel>::empty());
    assert(tasks_dates_ok(ts));
    let ghost before_children = out@;
    let ghost g0 = ts.len() > 0;
    let ghost cs = sec@.children;
    assert(cs.take(0) =~= Seq::<SectionModel>::empty());
    let mut k: usize = 0;
    while k < sec.children.len()
        invariant
            0 <= k <= sec.children@.len(),
            cs == crate::task::sections_view(sec.children@),
            level + depth_below(sec@) <= usize::MAX,
            cs == sec@.children,
            out@ == before_children + forest_text(cs.take(k as int), level as nat + 1, g0),
            *last_wrote_tasks == gap_after(cs.take(k as int), g0),
            !*first,
            forest_dates_ok(cs.take(k as int)),
        decreases sec.children@.len() - k,
    {
        proof {
            lemma_forest_depth(cs, k as int);
            assert(cs.take(k + 1).subrange(0, k as int) =~= cs.take(k as int));
            assert(cs.take(k + 1)[k as int] == cs[k as int]);
        }
        write_section(out, &sec.children[k], level + 1, first, last_wrote_tasks);
        k = k + 1;
    }
    assert(cs.take(k as int) =~= cs);
    assert(out@ =~= old(out)@ + section_text(sec@, level as nat, gap));
    assert(section_dates_ok(sec@));
}

/// The markdown text of the todo list: each section as a heading (one `#` per
/// level), followed by its tasks as `- [ ]` / `- [x]` lines with an optional
/// `due:YYYY-MM-DD`, then its children.
pub fn write_file(todo_list: &TodoList) -> (r: String)
    requires
        forest_depth(todo_list@) < usize::MAX,
    ensures
        r@ == file_text(todo_list@),
        forest_dates_ok(todo_list@),
{
    let mut out = String::new();
    let mut first = true;
    let mut last_wrote_tasks = false;
    let ghost cs = todo_list@;
    assert(cs.take(0) =~= Seq::<SectionModel>::empty());
    let mut k: usize = 0;
    while k < todo_list.sections.len()
        invariant
            0 <= k <= todo_list.sections@.len(),
            cs == todo_list@,
            forest_depth(cs) < usize::MAX,
            out@ == forest_text(cs.take(k as int), 1, false),
            last_wrote_tasks == gap_after(cs.take(k as int), false),
            first == (k == 0),
            forest_dates_ok(cs.take(k as int)),
        decreases todo_list.sections@.len() - k,
    {
        proof {
            lemma_forest_depth(cs, k as int);
            assert(cs.take(k + 1).subrange(0, k as int) =~= cs.take(k as int));
            assert(cs.take(k + 1)[k as int] == cs[k as int]);
        }
        write_section(&mut out, &todo_list.sections[k], 1, &mut first, &mut last_wrote_tasks);
        k = k + 1;
    }
    assert(cs.take(k as int) =~= cs);
    out
}

}
