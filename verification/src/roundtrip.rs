//! What reading gives back of what the writer wrote.
use vstd::prelude::*;

use crate::date::{chrono_format_ymd, chrono_parse_ymd, is_date_char};
use crate::parser::{
    lemma_char_pos_unique, line_ok, text_ok,
    date_reads_back, due_cut, due_date, due_marker, file_text, first_word,
    forest_text, hash_run, hashes, heading_name, is_heading, is_task_line, line_len, read_file,
    read_line, read_lines, read_task, read_task_text, section_text, task_line, tasks_text,
    utf8_len, with_child, with_task, empty_section, pop_to, word_len, ReadState, gap_after,
    tasks_dates_ok, section_dates_ok, forest_dates_ok, line_counts_from_today,
    task_counts_from_today, text_counts_from_today,
};
use crate::task::{node_at, node_set, sec_at, sec_set, SectionModel, TaskModel};
use crate::text::{contains, find, find_from, is_ws, occurs_at, trim, trim_end, trim_start};

verus! {

/// Whether `s` holds no newline.
pub open spec fn no_newline(s: Seq<char>) -> bool {
    forall|i: int| 0 <= i < s.len() ==> s[i] != '\n'
}

/// Whether `a` is made of whole lines: empty, or ending in a newline.
pub open spec fn whole_lines(a: Seq<char>) -> bool {
    a.len() == 0 || a.last() == '\n'
}

proof fn lemma_line_len_props(t: Seq<char>)
    ensures
        line_len(t) <= t.len(),
        forall|i: int| 0 <= i < line_len(t) ==> t[i] != '\n',
        line_len(t) < t.len() ==> t[line_len(t) as int] == '\n',
    decreases t.len(),
{
    if t.len() > 0 && t[0] != '\n' {
        lemma_line_len_props(t.drop_first());
        assert forall|i: int| 0 <= i < line_len(t) implies t[i] != '\n' by {
            if i > 0 {
                assert(t[i] == t.drop_first()[i - 1]);
            }
        }
    }
}

proof fn lemma_read_one_line(line: Seq<char>, rest: Seq<char>, st: ReadState, today: int)
    requires
        no_newline(line),
    ensures
        read_lines(line + seq!['\n'] + rest, st, today) == read_lines(
            rest,
            read_line(line, st, today),
            today,
        ),
{
    let t = line + seq!['\n'] + rest;
    lemma_line_len_props(t);
    let n = line_len(t);
    if n < line.len() {
        assert(t[n as int] == line[n as int]);
    }
    if n > line.len() {
        assert(t[line.len() as int] == '\n');
    }
    assert(n == line.len());
    assert(t.take(n as int) =~= line);
    assert(t.skip(n as int + 1) =~= rest);
}

proof fn lemma_read_empty(st: ReadState, today: int)
    ensures
        read_lines(Seq::empty(), st, today) == st,
{
    let e = Seq::<char>::empty();
    assert(e.take(0) =~= e);
    assert(trim_start(e) == e);
    assert(trim(e) == e);
    assert(hash_run(e) == 0);
}

/// Reading whole lines and then more text is reading the two one after the other.
pub proof fn lemma_read_append(a: Seq<char>, b: Seq<char>, st: ReadState, today: int)
    requires
        whole_lines(a),
    ensures
        read_lines(a + b, st, today) == read_lines(b, read_lines(a, st, today), today),
    decreases a.len(),
{
    if a.len() == 0 {
        assert(a + b =~= b);
        lemma_read_empty(st, today);
    } else {
        lemma_line_len_props(a);
        let n = line_len(a);
        if n == a.len() {
            assert(a[a.len() - 1] != '\n');
        }
        let line = a.take(n as int);
        let rest = a.skip(n as int + 1);
        assert(no_newline(line));
        assert(a =~= line + seq!['\n'] + rest);
        assert(a + b =~= line + seq!['\n'] + (rest + b));
        lemma_read_one_line(line, rest + b, st, today);
        lemma_read_one_line(line, rest, st, today);
        if rest.len() > 0 {
            assert(rest.last() == a.last());
        }
        lemma_read_append(rest, b, read_line(line, st, today), today);
    }
}

/// Reading a line that ends in a newline.
pub proof fn lemma_read_line_text(line: Seq<char>, st: ReadState, today: int)
    requires
        no_newline(line),
    ensures
        read_lines(line + seq!['\n'], st, today) == read_line(line, st, today),
{
    lemma_read_one_line(line, Seq::empty(), st, today);
    assert(line + seq!['\n'] + Seq::<char>::empty() =~= line + seq!['\n']);
    lemma_read_empty(read_line(line, st, today), today);
}

proof fn lemma_trim_start_shrinks(x: Seq<char>)
    ensures
        trim_start(x).len() <= x.len(),
        x.len() > 0 && is_ws(x[0]) ==> trim_start(x).len() < x.len(),
    decreases x.len(),
{
    if x.len() > 0 && is_ws(x[0]) {
        lemma_trim_start_shrinks(x.drop_first());
    }
}

/// Trimmed text is its own start- and end-trim.
pub proof fn lemma_trimmed(x: Seq<char>)
    requires
        trim(x) == x,
    ensures
        trim_start(x) == x,
        trim_end(x) == x,
        x.len() > 0 ==> !is_ws(x[0]) && !is_ws(x.last()),
{
    lemma_trim_start_shrinks(x);
    crate::text::lemma_trim_end_last(trim_start(x));
    if x.len() > 0 && is_ws(x[0]) {
        assert(trim(x).len() < x.len());
    }
}

/// Text that starts and ends with something other than whitespace is trimmed.
pub proof fn lemma_trim_fixed(x: Seq<char>)
    requires
        x.len() > 0,
        !is_ws(x[0]),
        !is_ws(x.last()),
    ensures
        trim(x) == x,
        trim_start(x) == x,
        trim_end(x) == x,
{
}

proof fn lemma_trim_start_ws_head(c: char, x: Seq<char>)
    requires
        is_ws(c),
    ensures
        trim_start(seq![c] + x) == trim_start(x),
{
    assert((seq![c] + x).drop_first() =~= x);
}

proof fn lemma_trim_end_ws_tail(x: Seq<char>, c: char)
    requires
        is_ws(c),
    ensures
        trim_end(x.push(c)) == trim_end(x),
{
    assert(x.push(c).drop_last() =~= x);
}

/// A section name the file can hold: not blank, trimmed, on one line.
pub open spec fn storable_name(n: Seq<char>) -> bool {
    n.len() > 0 && trim(n) == n && no_newline(n)
}

/// A task text the file can hold: trimmed, on one line, without `due:`.
pub open spec fn storable_text(t: Seq<char>) -> bool {
    trim(t) == t && no_newline(t) && !contains(t, "due:"@)
}

/// The heading line of a section named `name` at `level`.
pub open spec fn heading_line(name: Seq<char>, level: nat) -> Seq<char> {
    hashes(level) + " "@ + name
}

proof fn lemma_hash_run(lv: nat, rest: Seq<char>)
    requires
        rest.len() > 0,
        rest[0] != '#',
    ensures
        hash_run(hashes(lv) + rest) == lv,
    decreases lv,
{
    if lv > 0 {
        assert((hashes(lv) + rest).drop_first() =~= hashes((lv - 1) as nat) + rest);
        lemma_hash_run((lv - 1) as nat, rest);
        assert((hashes(lv) + rest)[0] == '#');
    } else {
        assert(hashes(0) + rest =~= rest);
    }
}

/// A heading line reads as a heading of its level and name.
pub proof fn lemma_heading_line(name: Seq<char>, lv: nat)
    requires
        storable_name(name),
        lv >= 1,
    ensures
        ({
            let h = heading_line(name, lv);
            &&& no_newline(h)
            &&& trim(h) == h
            &&& is_heading(h)
            &&& hash_run(h) == lv
            &&& heading_name(h) == name
        }),
{
    reveal_strlit(" ");
    let h = heading_line(name, lv);
    lemma_trimmed(name);
    assert(h[0] == '#');
    assert(h.last() == name.last());
    lemma_trim_fixed(h);
    assert(hashes(lv) + " "@ + name =~= hashes(lv) + (" "@ + name));
    lemma_hash_run(lv, " "@ + name);
    assert(h[lv as int] == ' ');
    assert(h.skip(lv as int + 1) =~= name);
    assert forall|i: int| 0 <= i < h.len() implies h[i] != '\n' by {
        if i > lv {
            assert(h[i] == name[i - lv - 1]);
        }
    }
}


/// A task's line without its newline.
pub open spec fn task_body(t: TaskModel) -> Seq<char> {
    let bx = if t.is_done {
        "[x]"@
    } else {
        "[ ]"@
    };
    match t.due {
        Some(d) => "- "@ + bx + " "@ + t.text + " due:"@ + chrono_format_ymd(d),
        None => "- "@ + bx + " "@ + t.text,
    }
}

pub proof fn lemma_task_line_body(t: TaskModel)
    ensures
        task_line(t) == task_body(t) + seq!['\n'],
{
    reveal_strlit("\n");
    assert(task_line(t) =~= task_body(t) + seq!['\n']);
}

proof fn lemma_utf8_len_concat(a: Seq<char>, b: Seq<char>)
    ensures
        utf8_len(a + b) == utf8_len(a) + utf8_len(b),
    decreases b.len(),
{
    if b.len() > 0 {
        assert((a + b).drop_last() =~= a + b.drop_last());
        lemma_utf8_len_concat(a, b.drop_last());
    } else {
        assert(a + b =~= a);
    }
}

proof fn lemma_find_from_at(h: Seq<char>, n: Seq<char>, start: int, i: int)
    requires
        0 <= start <= i,
        occurs_at(h, n, i),
        forall|j: int| start <= j < i ==> !occurs_at(h, n, j),
    ensures
        find_from(h, n, start) == Some(i),
    decreases i - start,
{
    if start < i {
        lemma_find_from_at(h, n, start + 1, i);
    }
}

proof fn lemma_find_none(h: Seq<char>, n: Seq<char>)
    requires
        !contains(h, n),
    ensures
        find(h, n) is None,
{
    crate::text::lemma_find_from(h, n, 0);
}

/// A word of date characters is its own first word.
proof fn lemma_first_word_date(d: Seq<char>)
    requires
        d.len() > 0,
        forall|i: int| 0 <= i < d.len() ==> is_date_char(#[trigger] d[i]),
    ensures
        first_word(d) == d,
        no_newline(d),
        !is_ws(d[0]),
        !is_ws(d.last()),
{
    assert(!is_ws(d[0]));
    assert(trim_start(d) == d);
    lemma_word_len_all(d);
    assert(d.take(d.len() as int) =~= d);
    assert(is_date_char(d[d.len() - 1]));
}

proof fn lemma_word_len_all(d: Seq<char>)
    requires
        forall|i: int| 0 <= i < d.len() ==> is_date_char(#[trigger] d[i]),
    ensures
        word_len(d) == d.len(),
    decreases d.len(),
{
    if d.len() > 0 {
        assert(is_date_char(d[0]));
        assert forall|i: int| 0 <= i < d.drop_first().len() implies is_date_char(
            #[trigger] d.drop_first()[i],
        ) by {
            assert(d.drop_first()[i] == d[i + 1]);
        }
        lemma_word_len_all(d.drop_first());
    }
}

/// Reading the due part `t0` (the text, `due:` and the date) gives back the
/// text and the date.
proof fn lemma_read_due_part(text: Seq<char>, dt: Seq<char>, d: int, is_done: bool, today: int)
    requires
        storable_text(text),
        dt.len() > 0,
        forall|i: int| 0 <= i < dt.len() ==> is_date_char(#[trigger] dt[i]),
        chrono_parse_ymd(dt) == Some(d),
    ensures
        ({
            let t0 = if text.len() == 0 {
                "due:"@ + dt
            } else {
                text + " due:"@ + dt
            };
            &&& read_task_text(t0, is_done, today) == TaskModel { text, is_done, due: Some(d) }
            &&& (due_marker(t0) matches Some(j) ==> due_cut(t0, j) is Some)
            &&& !task_counts_from_today(t0)
        }),
{
    reveal_strlit("due:");
    reveal_strlit(" due:");
    let m = "due:"@;
    lemma_first_word_date(dt);
    let i: int = if text.len() == 0 {
        0
    } else {
        text.len() as int + 1
    };
    let t0 = if text.len() == 0 {
        m + dt
    } else {
        text + " due:"@ + dt
    };
    assert(t0.take(i + 4) + dt =~= t0);
    assert(t0.skip(i + 4) =~= dt);
    assert(occurs_at(t0, m, i)) by {
        assert(t0.subrange(i, i + 4) =~= m);
    }
    assert forall|j: int| 0 <= j < i implies !occurs_at(t0, m, j) by {
        if occurs_at(t0, m, j) {
            if j + 4 <= text.len() {
                assert(text.subrange(j, j + 4) =~= t0.subrange(j, j + 4));
                assert(occurs_at(text, m, j));
            } else {
                let k = text.len() - j;
                assert(0 <= k < 4);
                assert(t0.subrange(j, j + 4)[k] == t0[text.len() as int]);
                assert(t0[text.len() as int] == ' ');
                assert(m[k] != ' ');
            }
        }
    }
    lemma_find_from_at(t0, m, 0, i);
    assert(due_marker(t0) == Some(i)) by {
        if i > 0 {
            assert(t0[i - 1] == ' ');
        }
    }
    assert(due_date(dt, today) == Some(d));
    lemma_utf8_len_concat(t0.take(i + 4), dt);
    assert(t0.take(t0.len() as int) =~= t0);
    lemma_char_pos_unique(t0, utf8_len(t0) as int, t0.len() as int);
    assert(due_cut(t0, i) == Some(t0.len() as int));
    assert(t0.skip(t0.len() as int) =~= Seq::<char>::empty());
    assert(trim_start(Seq::<char>::empty()) == Seq::<char>::empty());
    lemma_trimmed(text);
    if text.len() == 0 {
        assert(t0.take(0) =~= Seq::<char>::empty());
        assert(trim_end(Seq::<char>::empty()) == Seq::<char>::empty());
        assert(Seq::<char>::empty() + Seq::<char>::empty() =~= Seq::<char>::empty());
        assert(trim(Seq::<char>::empty()) == Seq::<char>::empty());
    } else {
        assert(t0.take(i) =~= text.push(' '));
        lemma_trim_end_ws_tail(text, ' ');
        assert(text + Seq::<char>::empty() =~= text);
    }
}


/// A word with no whitespace, followed by whitespace or nothing, is the first
/// word of the text it starts.
proof fn lemma_word_then_space(w: Seq<char>, post: Seq<char>)
    requires
        forall|k: int| 0 <= k < w.len() ==> !is_ws(#[trigger] w[k]),
        post.len() == 0 || is_ws(post[0]),
    ensures
        word_len(w + post) == w.len(),
    decreases w.len(),
{
    if w.len() == 0 {
        assert(w + post =~= post);
    } else {
        assert((w + post).drop_first() =~= w.drop_first() + post);
        assert(!is_ws(w[0]));
        assert forall|k: int| 0 <= k < w.drop_first().len() implies !is_ws(#[trigger] w.drop_first()[k]) by {
            assert(w.drop_first()[k] == w[k + 1]);
        }
        lemma_word_then_space(w.drop_first(), post);
    }
}

/// Reading a task's text takes the due date out of the middle of it: for a
/// text `pre`, the marker `due:` (at the start or after a space, and the first
/// one), a date word `w` and the rest `post`, the task keeps the text before
/// the marker joined with the text after the word, and the word's date as its
/// due date. So `due:2025-01-15 Submit report` reads as the text
/// `Submit report` due on that day.
pub proof fn lemma_due_word_leaves_text(
    pre: Seq<char>,
    w: Seq<char>,
    post: Seq<char>,
    is_done: bool,
    today: int,
    d: int,
)
    requires
        pre.len() == 0 || pre.last() == ' ',
        !contains(pre, "due:"@),
        w.len() > 0,
        forall|k: int| 0 <= k < w.len() ==> !is_ws(#[trigger] w[k]),
        due_date(w, today) == Some(d),
        post.len() == 0 || is_ws(post[0]),
    ensures
        read_task_text(pre + "due:"@ + w + post, is_done, today) == (TaskModel {
            text: trim(trim_end(pre) + trim_start(post)),
            is_done,
            due: Some(d),
        }),
{
    reveal_strlit("due:");
    let t = pre + "due:"@ + w + post;
    let i = pre.len() as int;
    lemma_marker_after(pre, w + post);
    assert(t =~= pre + "due:"@ + (w + post));
    let c = i + 4 + w.len();
    assert(t.skip(i + 4) =~= w + post);
    lemma_cut_after_word(t, i, w, post);
    assert(t.take(i) =~= pre);
    assert(t.skip(c) =~= post);
}

/// The first `due:` after a text that holds none and ends in a space (or is
/// empty) is the due marker.
proof fn lemma_marker_after(pre: Seq<char>, rest: Seq<char>)
    requires
        pre.len() == 0 || pre.last() == ' ',
        !contains(pre, "due:"@),
    ensures
        due_marker(pre + "due:"@ + rest) == Some(pre.len() as int),
{
    reveal_strlit("due:");
    let m = "due:"@;
    let t = pre + m + rest;
    let i = pre.len() as int;
    assert(occurs_at(t, m, i)) by {
        assert(t.subrange(i, i + 4) =~= m);
    }
    assert forall|j: int| 0 <= j < i implies !occurs_at(t, m, j) by {
        if occurs_at(t, m, j) {
            if j + 4 <= pre.len() {
                assert(pre.subrange(j, j + 4) =~= t.subrange(j, j + 4));
                assert(occurs_at(pre, m, j));
            } else {
                let k = pre.len() - 1 - j;
                assert(0 <= k < 4);
                assert(t.subrange(j, j + 4)[k] == t[pre.len() - 1]);
                assert(t[pre.len() - 1] == pre.last());
                assert(m[k] != ' ');
            }
        }
    }
    lemma_find_from_at(t, m, 0, i);
    if i > 0 {
        assert(t[i - 1] == pre.last());
    }
}

/// Where the marker at `i` is followed by the word `w` and then whitespace
/// or nothing, the text after the date starts right after the word.
proof fn lemma_cut_after_word(t: Seq<char>, i: int, w: Seq<char>, post: Seq<char>)
    requires
        0 <= i,
        i + 4 <= t.len(),
        t.skip(i + 4) == w + post,
        forall|k: int| 0 <= k < w.len() ==> !is_ws(#[trigger] w[k]),
        w.len() > 0,
        post.len() == 0 || is_ws(post[0]),
    ensures
        first_word(t.skip(i + 4)) == w,
        due_cut(t, i) == Some(i + 4 + w.len()),
{
    let rest = t.skip(i + 4);
    lemma_word_then_space(w, post);
    assert(!is_ws(rest[0]));
    assert(trim_start(rest) == rest);
    assert(first_word(rest) =~= w);
    let c = i + 4 + w.len();
    assert(t.take(c) =~= t.take(i + 4) + w);
    lemma_utf8_len_concat(t.take(i + 4), w);
    lemma_char_pos_unique(t, utf8_len(t.take(c)) as int, c);
}

/// A task line reads back as the task.
pub proof fn lemma_task_line(t: TaskModel, today: int)
    requires
        storable_text(t.text),
        t.due matches Some(d) ==> date_reads_back(d),
    ensures
        no_newline(task_body(t)),
        !is_heading(trim(task_body(t))),
        is_task_line(trim(task_body(t))),
        read_task(trim(task_body(t)), today) == t,
        line_ok(task_body(t)),
        !line_counts_from_today(task_body(t)),
{
    reveal_strlit("- ");
    reveal_strlit("[x]");
    reveal_strlit("[ ]");
    reveal_strlit(" ");
    reveal_strlit(" due:");
    reveal_strlit("due:");
    reveal_strlit("- [ ");
    reveal_strlit("- [x]");
    let m = if t.is_done {
        'x'
    } else {
        ' '
    };
    let bx = if t.is_done {
        "[x]"@
    } else {
        "[ ]"@
    };
    let p6 = seq!['-', ' ', '[', m, ']', ' '];
    assert("- "@ + bx + " "@ =~= p6);
    let text = t.text;
    lemma_trimmed(text);
    let body = task_body(t);
    match t.due {
        None => {
            assert(body =~= p6 + text);
            if text.len() == 0 {
                let tr = p6.take(5);
                assert(body =~= tr.push(' '));
                assert(trim_start(body) == body);
                lemma_trim_end_ws_tail(tr, ' ');
                assert(trim_end(tr) == tr);
                assert(trim(body) == tr);
                assert(hash_run(tr) == 0);
                if t.is_done {
                    assert(tr.take(5) =~= "- [x]"@);
                } else {
                    assert(tr.take(4) =~= "- [ "@);
                }
                assert(tr.skip(5) =~= Seq::<char>::empty());
                assert(trim_start(Seq::<char>::empty()) == Seq::<char>::empty());
                assert(trim(Seq::<char>::empty()) == Seq::<char>::empty());
                assert(text =~= Seq::<char>::empty());
                lemma_find_none(text, "due:"@);
                assert(read_task(tr, today) =~= t);
                assert(tr[4] == ']');
                assert(due_marker(trim(tr.skip(5))) is None);
                assert(line_ok(body));
            } else {
                assert(body.last() == text.last());
                lemma_trim_fixed(body);
                assert(hash_run(body) == 0);
                if t.is_done {
                    assert(body.take(5) =~= "- [x]"@);
                } else {
                    assert(body.take(4) =~= "- [ "@);
                }
                assert(body.skip(5) =~= seq![' '] + text);
                lemma_trim_start_ws_head(' ', text);
                assert(trim(body.skip(5)) == text);
                lemma_find_none(text, "due:"@);
                assert(read_task(body, today) =~= t);
                assert(body[4] == ']');
                assert(due_marker(trim(body.skip(5))) is None);
                assert(line_ok(body));
            }
            assert forall|i: int| 0 <= i < body.len() implies body[i] != '\n' by {
                if i >= 6 {
                    assert(body[i] == text[i - 6]);
                }
            }
        },
        Some(d) => {
            let dt = chrono_format_ymd(d);
            lemma_first_word_date(dt);
            let t0 = if text.len() == 0 {
                "due:"@ + dt
            } else {
                text + " due:"@ + dt
            };
            assert(body.last() == dt.last());
            assert(body[0] == '-');
            lemma_trim_fixed(body);
            assert(hash_run(body) == 0);
            if t.is_done {
                assert(body.take(5) =~= "- [x]"@);
            } else {
                assert(body.take(4) =~= "- [ "@);
            }
            if text.len() == 0 {
                assert(body.skip(5) =~= seq![' '] + (seq![' '] + t0));
                assert(t0[0] == 'd');
                lemma_trim_start_ws_head(' ', seq![' '] + t0);
            } else {
                assert(body.skip(5) =~= seq![' '] + t0);
                assert(t0[0] == text[0]);
            }
            lemma_trim_start_ws_head(' ', t0);
            assert(t0.last() == dt.last());
            lemma_trim_fixed(t0);
            assert(trim(body.skip(5)) == t0);
            lemma_read_due_part(text, dt, d, t.is_done, today);
            assert(read_task(body, today) =~= t);
            assert(body[4] == ']');
            assert(line_ok(body));
            assert forall|i: int| 0 <= i < body.len() implies body[i] != '\n' by {
                if 6 <= i < 6 + text.len() {
                    assert(body[i] == text[i - 6]);
                } else if i >= 6 + text.len() + 5 {
                    assert(body[i] == dt[i - 6 - text.len() - 5]);
                    assert(is_date_char(dt[i - 6 - text.len() - 5]));
                }
            }
        },
    }
}


pub proof fn lemma_sec_set_at(s: SectionModel, r: Seq<usize>, n: SectionModel)
    requires
        sec_at(s, r) is Some,
    ensures
        sec_at(sec_set(s, r, n), r) == Some(n),
    decreases r.len(),
{
    if r.len() > 0 {
        let k = r[0] as int;
        lemma_sec_set_at(s.children[k], r.drop_first(), n);
    }
}

pub proof fn lemma_sec_set_twice(s: SectionModel, r: Seq<usize>, a: SectionModel, b: SectionModel)
    requires
        sec_at(s, r) is Some,
    ensures
        sec_set(sec_set(s, r, a), r, b) == sec_set(s, r, b),
    decreases r.len(),
{
    if r.len() > 0 {
        let k = r[0] as int;
        lemma_sec_set_twice(s.children[k], r.drop_first(), a, b);
        let s1 = sec_set(s, r, a);
        assert(s1.children[k] == sec_set(s.children[k], r.drop_first(), a));
        assert(sec_set(s1, r, b).children =~= sec_set(s, r, b).children);
    }
}

pub proof fn lemma_sec_child(s: SectionModel, r: Seq<usize>, k: usize, n: SectionModel)
    requires
        sec_at(s, r) is Some,
        k < sec_at(s, r)->0.children.len(),
    ensures
        sec_at(s, r.push(k)) == Some(sec_at(s, r)->0.children[k as int]),
        sec_set(s, r.push(k), n) == sec_set(
            s,
            r,
            SectionModel {
                children: sec_at(s, r)->0.children.update(k as int, n),
                ..sec_at(s, r)->0
            },
        ),
    decreases r.len(),
{
    if r.len() == 0 {
        let e = Seq::<usize>::empty();
        assert(r.push(k) =~= seq![k]);
        assert(seq![k].drop_first() =~= e);
        assert(seq![k][0] == k);
        assert(sec_at(s.children[k as int], e) == Some(s.children[k as int]));
        assert(sec_set(s.children[k as int], e, n) == n);
        assert(sec_at(s, r) == Some(s));
        assert(sec_set(s, seq![k], n) == SectionModel { children: s.children.update(k as int, n), ..s });
    } else {
        let j = r[0] as int;
        assert(r.push(k).drop_first() =~= r.drop_first().push(k));
        assert(r.push(k)[0] == r[0]);
        lemma_sec_child(s.children[j], r.drop_first(), k, n);
    }
}

pub proof fn lemma_node_set_at(l: Seq<SectionModel>, p: Seq<usize>, n: SectionModel)
    requires
        node_at(l, p) is Some,
    ensures
        node_at(node_set(l, p, n), p) == Some(n),
{
    lemma_sec_set_at(l[p[0] as int], p.drop_first(), n);
}

pub proof fn lemma_node_set_twice(l: Seq<SectionModel>, p: Seq<usize>, a: SectionModel, b: SectionModel)
    requires
        node_at(l, p) is Some,
    ensures
        node_set(node_set(l, p, a), p, b) == node_set(l, p, b),
{
    lemma_sec_set_twice(l[p[0] as int], p.drop_first(), a, b);
    assert(node_set(node_set(l, p, a), p, b) =~= node_set(l, p, b));
}

pub proof fn lemma_node_child(l: Seq<SectionModel>, p: Seq<usize>, k: usize, n: SectionModel)
    requires
        node_at(l, p) is Some,
        k < node_at(l, p)->0.children.len(),
    ensures
        node_at(l, p.push(k)) == Some(node_at(l, p)->0.children[k as int]),
        node_set(l, p.push(k), n) == node_set(
            l,
            p,
            SectionModel {
                children: node_at(l, p)->0.children.update(k as int, n),
                ..node_at(l, p)->0
            },
        ),
{
    assert(p.push(k).drop_first() =~= p.drop_first().push(k));
    assert(p.push(k)[0] == p[0]);
    lemma_sec_child(l[p[0] as int], p.drop_first(), k, n);
}

/// `list` with `s` added as the last child of the section at `pp`, or as a
/// last top-level section when `pp` is empty.
pub open spec fn add_under(list: Seq<SectionModel>, pp: Seq<usize>, s: SectionModel) -> Seq<
    SectionModel,
> {
    if pp.len() == 0 {
        list.push(s)
    } else {
        match node_at(list, pp) {
            Some(p) => node_set(list, pp, with_child(p, s)),
            None => list,
        }
    }
}

/// `list` with the sections of `f` added in order under `pp`.
pub open spec fn add_all_under(list: Seq<SectionModel>, pp: Seq<usize>, f: Seq<SectionModel>) -> Seq<
    SectionModel,
>
    decreases f.len(),
{
    if f.len() == 0 {
        list
    } else {
        add_under(add_all_under(list, pp, f.drop_last()), pp, f.last())
    }
}

/// The number of sections under `pp` (top-level ones when `pp` is empty).
pub open spec fn count_under(list: Seq<SectionModel>, pp: Seq<usize>) -> int {
    if pp.len() == 0 {
        list.len() as int
    } else {
        node_at(list, pp)->0.children.len() as int
    }
}

/// The path of the child that `add_under` adds.
pub open spec fn new_child_path(list: Seq<SectionModel>, pp: Seq<usize>) -> Seq<usize> {
    pp.push(count_under(list, pp) as usize)
}

/// Where the section at `pp` exists (or `pp` is the top level).
pub open spec fn anchor_exists(list: Seq<SectionModel>, pp: Seq<usize>) -> bool {
    pp.len() == 0 || node_at(list, pp) is Some
}

/// The freshly added child sits at its new path, and replacing it there is
/// adding the replacement instead.
proof fn lemma_add_under_child(
    l: Seq<SectionModel>,
    pp: Seq<usize>,
    x: SectionModel,
    y: SectionModel,
)
    requires
        anchor_exists(l, pp),
        count_under(l, pp) < usize::MAX,
    ensures
        node_at(add_under(l, pp, x), new_child_path(l, pp)) == Some(x),
        node_set(add_under(l, pp, x), new_child_path(l, pp), y) == add_under(l, pp, y),
        anchor_exists(add_under(l, pp, x), pp),
        count_under(add_under(l, pp, x), pp) == count_under(l, pp) + 1,
{
    let k = count_under(l, pp) as usize;
    if pp.len() == 0 {
        let l1 = l.push(x);
        assert(new_child_path(l, pp) =~= seq![k]);
        assert(seq![k].drop_first() =~= Seq::<usize>::empty());
        assert(node_set(l1, seq![k], y) =~= l.push(y));
    } else {
        let p = node_at(l, pp)->0;
        let l1 = add_under(l, pp, x);
        lemma_node_set_at(l, pp, with_child(p, x));
        lemma_node_child(l1, pp, k, y);
        assert(with_child(p, x).children.update(k as int, y) =~= p.children.push(y));
        lemma_node_set_twice(l, pp, with_child(p, x), with_child(p, y));
        assert(SectionModel {
            children: with_child(p, x).children.update(k as int, y),
            ..with_child(p, x)
        } == with_child(p, y));
    }
}

/// Adding a forest under a freshly added child is adding the child with the
/// forest as its further children.
proof fn lemma_add_all_under_child(
    l: Seq<SectionModel>,
    pp: Seq<usize>,
    x: SectionModel,
    f: Seq<SectionModel>,
)
    requires
        anchor_exists(l, pp),
        count_under(l, pp) < usize::MAX,
        x.children.len() + f.len() <= usize::MAX,
    ensures
        add_all_under(add_under(l, pp, x), new_child_path(l, pp), f) == add_under(
            l,
            pp,
            SectionModel { children: x.children + f, ..x },
        ),
    decreases f.len(),
{
    let q = new_child_path(l, pp);
    if f.len() == 0 {
        assert(x.children + f =~= x.children);
        assert(SectionModel { children: x.children + f, ..x } == x);
    } else {
        let init = f.drop_last();
        lemma_add_all_under_child(l, pp, x, init);
        let x1 = SectionModel { children: x.children + init, ..x };
        lemma_add_under_child(l, pp, x1, with_child(x1, f.last()));
        assert(with_child(x1, f.last()) =~= SectionModel { children: x.children + f, ..x }) by {
            assert(x1.children.push(f.last()) =~= x.children + f);
        }
    }
}


/// Whether the file can hold a section: its name and task texts fit on their
/// lines and read back, and so do its children's.
pub open spec fn storable_section(s: SectionModel) -> bool
    decreases s,
{
    &&& storable_name(s.name)
    &&& forall|i: int| 0 <= i < s.tasks.len() ==> storable_text(#[trigger] s.tasks[i].text)
    &&& s.children.len() <= usize::MAX
    &&& storable_forest(s.children)
}

/// Whether the file can hold each section of a forest.
pub open spec fn storable_forest(cs: Seq<SectionModel>) -> bool
    decreases cs,
{
    if cs.len() == 0 {
        true
    } else {
        storable_forest(cs.subrange(0, cs.len() - 1)) && storable_section(cs[cs.len() - 1])
    }
}

proof fn lemma_whole_concat(a: Seq<char>, b: Seq<char>)
    requires
        whole_lines(a),
        whole_lines(b),
    ensures
        whole_lines(a + b),
{
    if b.len() > 0 {
        assert((a + b).last() == b.last());
    } else {
        assert(a + b =~= a);
    }
}

proof fn lemma_tasks_text_whole(ts: Seq<TaskModel>)
    ensures
        whole_lines(tasks_text(ts)),
        ts.len() > 0 ==> tasks_text(ts).len() > 0,
    decreases ts.len(),
{
    if ts.len() > 0 {
        lemma_task_line_body(ts.last());
        lemma_tasks_text_whole(ts.drop_last());
        assert(tasks_text(ts).last() == task_line(ts.last()).last());
    }
}

proof fn lemma_section_text_whole(s: SectionModel, lv: nat, gap: bool)
    ensures
        section_text(s, lv, gap).len() > 0,
        whole_lines(section_text(s, lv, gap)),
    decreases s,
{
    reveal_strlit("\n");
    lemma_forest_text_whole(s.children, lv + 1, s.tasks.len() > 0);
    lemma_tasks_text_whole(s.tasks);
    let g: Seq<char> = if gap {
        "\n"@
    } else {
        Seq::empty()
    };
    let hpart = g + hashes(lv) + " "@ + s.name + "\n"@;
    let tpart: Seq<char> = if s.tasks.len() > 0 {
        "\n"@ + tasks_text(s.tasks)
    } else {
        Seq::empty()
    };
    let cpart = forest_text(s.children, lv + 1, s.tasks.len() > 0);
    assert(whole_lines(hpart));
    if s.tasks.len() > 0 {
        assert(tpart.last() == tasks_text(s.tasks).last());
    }
    lemma_whole_concat(hpart, tpart);
    lemma_whole_concat(hpart + tpart, cpart);
    assert(section_text(s, lv, gap) == hpart + tpart + cpart);
}

proof fn lemma_forest_text_whole(cs: Seq<SectionModel>, lv: nat, gap: bool)
    ensures
        whole_lines(forest_text(cs, lv, gap)),
    decreases cs,
{
    if cs.len() > 0 {
        let init = cs.subrange(0, cs.len() - 1);
        lemma_forest_text_whole(init, lv, gap);
        lemma_section_text_whole(cs[cs.len() - 1], lv, gap_after(init, gap));
        lemma_whole_concat(
            forest_text(init, lv, gap),
            section_text(cs[cs.len() - 1], lv, gap_after(init, gap)),
        );
    }
}

/// Whether `s2` is `s1` followed by open headings of `lv` or deeper.
pub open spec fn extends_with(s2: Seq<(int, Seq<usize>)>, s1: Seq<(int, Seq<usize>)>, lv: int) -> bool {
    &&& s2.len() >= s1.len()
    &&& s2.take(s1.len() as int) == s1
    &&& forall|j: int| s1.len() <= j < s2.len() ==> s2[j].0 >= lv
}

/// Whether the open headings end at the heading of the section at `pp`, of a
/// level below `lv` (none open at the top level).
pub open spec fn stack_anchor(stack: Seq<(int, Seq<usize>)>, pp: Seq<usize>, lv: int) -> bool {
    if pp.len() == 0 {
        stack.len() == 0
    } else {
        stack.len() > 0 && stack.last().1 == pp && stack.last().0 < lv
    }
}

proof fn lemma_pop_to(s2: Seq<(int, Seq<usize>)>, s1: Seq<(int, Seq<usize>)>, lv: int)
    requires
        extends_with(s2, s1, lv),
        s1.len() == 0 || s1.last().0 < lv,
    ensures
        pop_to(s2, lv) == s1,
    decreases s2.len(),
{
    if s2.len() > s1.len() {
        assert(s2.last().0 >= lv);
        let s3 = s2.drop_last();
        assert(s3.take(s1.len() as int) =~= s2.take(s1.len() as int));
        lemma_pop_to(s3, s1, lv);
    } else {
        assert(s2 =~= s1);
        if s2.len() > 0 {
            assert(s2.last() == s1.last());
        }
    }
}

proof fn lemma_extends_trans(
    s3: Seq<(int, Seq<usize>)>,
    s2: Seq<(int, Seq<usize>)>,
    s1: Seq<(int, Seq<usize>)>,
    lv: int,
)
    requires
        extends_with(s3, s2, lv),
        extends_with(s2, s1, lv),
    ensures
        extends_with(s3, s1, lv),
{
    assert(s3.take(s1.len() as int) =~= s3.take(s2.len() as int).take(s1.len() as int));
    assert forall|j: int| s1.len() <= j < s3.len() implies s3[j].0 >= lv by {
        if j < s2.len() {
            assert(s3[j] == s3.take(s2.len() as int)[j]);
        }
    }
}

/// Reading task lines adds the tasks to the freshly added section.
proof fn lemma_read_tasks(
    ts: Seq<TaskModel>,
    st: ReadState,
    l0: Seq<SectionModel>,
    pp: Seq<usize>,
    x: SectionModel,
    today: int,
)
    requires
        anchor_exists(l0, pp),
        count_under(l0, pp) < usize::MAX,
        st.list == add_under(l0, pp, x),
        st.stack.len() > 0,
        st.stack.last().1 == new_child_path(l0, pp),
        forall|i: int| 0 <= i < ts.len() ==> storable_text(#[trigger] ts[i].text),
        tasks_dates_ok(ts),
    ensures
        read_lines(tasks_text(ts), st, today) == (ReadState {
            list: add_under(l0, pp, SectionModel { tasks: x.tasks + ts, ..x }),
            stack: st.stack,
        }),
    decreases ts.len(),
{
    if ts.len() == 0 {
        lemma_read_empty(st, today);
        assert(x.tasks + ts =~= x.tasks);
        assert(SectionModel { tasks: x.tasks + ts, ..x } == x);
    } else {
        let init = ts.drop_last();
        let t = ts.last();
        assert forall|i: int| 0 <= i < init.len() implies storable_text(#[trigger] init[i].text) by {
            assert(init[i] == ts[i]);
        }
        assert forall|i: int| 0 <= i < init.len() implies ((#[trigger] init[i]).due matches Some(
            d,
        ) ==> date_reads_back(d)) by {
            assert(init[i] == ts[i]);
        }
        lemma_read_tasks(init, st, l0, pp, x, today);
        let x1 = SectionModel { tasks: x.tasks + init, ..x };
        let st1 = ReadState { list: add_under(l0, pp, x1), stack: st.stack };
        lemma_tasks_text_whole(init);
        lemma_read_append(tasks_text(init), task_line(t), st, today);
        lemma_task_line_body(t);
        assert(storable_text(ts[ts.len() - 1].text));
        lemma_task_line(t, today);
        lemma_read_line_text(task_body(t), st1, today);
        lemma_add_under_child(l0, pp, x1, with_task(x1, t));
        assert(with_task(x1, t) =~= SectionModel { tasks: x.tasks + ts, ..x }) by {
            assert(x1.tasks.push(t) =~= x.tasks + ts);
        }
    }
}


/// The optional blank line before a section.
pub open spec fn gap_text(gap: bool) -> Seq<char> {
    if gap {
        "\n"@
    } else {
        Seq::empty()
    }
}

/// The blank line and task lines after a heading.
pub open spec fn tasks_part(ts: Seq<TaskModel>) -> Seq<char> {
    if ts.len() > 0 {
        "\n"@ + tasks_text(ts)
    } else {
        Seq::empty()
    }
}

proof fn lemma_section_text_parts(s: SectionModel, lv: nat, gap: bool)
    ensures
        section_text(s, lv, gap) == gap_text(gap) + (heading_line(s.name, lv) + seq!['\n']) + (
        tasks_part(s.tasks) + forest_text(s.children, lv + 1, s.tasks.len() > 0)),
        whole_lines(gap_text(gap) + (heading_line(s.name, lv) + seq!['\n'])),
        whole_lines(tasks_part(s.tasks)),
{
    reveal_strlit("\n");
    assert(section_text(s, lv, gap) =~= gap_text(gap) + (heading_line(s.name, lv) + seq!['\n'])
        + (tasks_part(s.tasks) + forest_text(s.children, lv + 1, s.tasks.len() > 0)));
    lemma_tasks_text_whole(s.tasks);
    if s.tasks.len() > 0 {
        assert(tasks_part(s.tasks).last() == tasks_text(s.tasks).last());
    }
}

proof fn lemma_blank_line(st: ReadState, today: int)
    ensures
        read_line(Seq::empty(), st, today) == st,
{
    let e = Seq::<char>::empty();
    assert(trim_start(e) == e);
    assert(trim(e) == e);
    assert(hash_run(e) == 0);
}

/// Reading the blank line and the heading of a section opens it under the anchor.
proof fn lemma_read_heading(
    s: SectionModel,
    lv: nat,
    gap: bool,
    st: ReadState,
    base: Seq<(int, Seq<usize>)>,
    pp: Seq<usize>,
    today: int,
)
    requires
        lv >= 1,
        storable_name(s.name),
        pop_to(st.stack, lv as int) == base,
        stack_anchor(base, pp, lv as int),
        anchor_exists(st.list, pp),
        count_under(st.list, pp) < usize::MAX,
    ensures
        read_lines(gap_text(gap) + (heading_line(s.name, lv) + seq!['\n']), st, today) == (ReadState {
            list: add_under(st.list, pp, empty_section(s.name)),
            stack: base.push((lv as int, new_child_path(st.list, pp))),
        }),
{
    reveal_strlit("\n");
    let e = Seq::<char>::empty();
    let g = gap_text(gap);
    let h = heading_line(s.name, lv);
    lemma_read_empty(st, today);
    if gap {
        assert(g =~= e + seq!['\n']);
        lemma_read_line_text(e, st, today);
        lemma_blank_line(st, today);
    }
    assert(read_lines(g, st, today) == st);
    lemma_heading_line(s.name, lv);
    lemma_read_line_text(h, st, today);
    if pp.len() == 0 {
        assert(new_child_path(st.list, pp) =~= seq![st.list.len() as usize]);
    }
    lemma_read_append(g, h + seq!['\n'], st, today);
}

/// Reading the tasks part after a heading fills the opened section's tasks.
proof fn lemma_read_tasks_part(
    ts: Seq<TaskModel>,
    st: ReadState,
    l0: Seq<SectionModel>,
    pp: Seq<usize>,
    x: SectionModel,
    today: int,
)
    requires
        anchor_exists(l0, pp),
        count_under(l0, pp) < usize::MAX,
        st.list == add_under(l0, pp, x),
        st.stack.len() > 0,
        st.stack.last().1 == new_child_path(l0, pp),
        forall|i: int| 0 <= i < ts.len() ==> storable_text(#[trigger] ts[i].text),
        tasks_dates_ok(ts),
    ensures
        read_lines(tasks_part(ts), st, today) == (ReadState {
            list: add_under(l0, pp, SectionModel { tasks: x.tasks + ts, ..x }),
            stack: st.stack,
        }),
{
    reveal_strlit("\n");
    let e = Seq::<char>::empty();
    if ts.len() > 0 {
        assert(tasks_part(ts) =~= e + seq!['\n'] + tasks_text(ts));
        lemma_read_one_line(e, tasks_text(ts), st, today);
        lemma_blank_line(st, today);
        lemma_read_tasks(ts, st, l0, pp, x, today);
    } else {
        lemma_read_empty(st, today);
        assert(x.tasks + ts =~= x.tasks);
        assert(SectionModel { tasks: x.tasks + ts, ..x } == x);
    }
}

/// Reading a section's text adds the section under the anchor.
proof fn lemma_read_section(
    s: SectionModel,
    lv: nat,
    gap: bool,
    st: ReadState,
    base: Seq<(int, Seq<usize>)>,
    pp: Seq<usize>,
    today: int,
)
    requires
        lv >= 1,
        storable_section(s),
        section_dates_ok(s),
        pop_to(st.stack, lv as int) == base,
        stack_anchor(base, pp, lv as int),
        anchor_exists(st.list, pp),
        count_under(st.list, pp) < usize::MAX,
    ensures
        ({
            let st2 = read_lines(section_text(s, lv, gap), st, today);
            &&& st2.list == add_under(st.list, pp, s)
            &&& extends_with(st2.stack, base, lv as int)
            &&& st2.stack.len() > base.len()
        }),
    decreases s, 1nat,
{
    let l0 = st.list;
    let head = gap_text(gap) + (heading_line(s.name, lv) + seq!['\n']);
    let tpart = tasks_part(s.tasks);
    let cpart = forest_text(s.children, lv + 1, s.tasks.len() > 0);
    lemma_section_text_parts(s, lv, gap);
    let q = new_child_path(l0, pp);
    let sec = empty_section(s.name);
    lemma_read_heading(s, lv, gap, st, base, pp, today);
    let st_h = ReadState { list: add_under(l0, pp, sec), stack: base.push((lv as int, q)) };
    lemma_add_under_child(l0, pp, sec, sec);
    let x1 = SectionModel { tasks: sec.tasks + s.tasks, ..sec };
    lemma_read_tasks_part(s.tasks, st_h, l0, pp, sec, today);
    let st_t = ReadState { list: add_under(l0, pp, x1), stack: st_h.stack };
    lemma_add_under_child(l0, pp, x1, x1);
    assert(x1.children.len() == 0);
    lemma_read_forest(s.children, lv + 1, s.tasks.len() > 0, st_t, q, today);
    lemma_add_all_under_child(l0, pp, x1, s.children);
    assert(SectionModel { children: x1.children + s.children, ..x1 } =~= s) by {
        assert(x1.children + s.children =~= s.children);
        assert(x1.tasks =~= s.tasks);
    }
    let st_c = read_lines(cpart, st_t, today);
    assert(st_t.stack.take(base.len() as int) =~= base);
    lemma_extends_trans(st_c.stack, st_t.stack, base, lv as int);
    lemma_read_append(head, tpart + cpart, st, today);
    lemma_read_append(tpart, cpart, st_h, today);
}

/// Reading a forest's text adds its sections, in order, under the anchor.
proof fn lemma_read_forest(
    f: Seq<SectionModel>,
    lv: nat,
    gap: bool,
    st: ReadState,
    pp: Seq<usize>,
    today: int,
)
    requires
        lv >= 1,
        storable_forest(f),
        forest_dates_ok(f),
        stack_anchor(st.stack, pp, lv as int),
        anchor_exists(st.list, pp),
        count_under(st.list, pp) + f.len() <= usize::MAX,
    ensures
        ({
            let st2 = read_lines(forest_text(f, lv, gap), st, today);
            &&& st2.list == add_all_under(st.list, pp, f)
            &&& extends_with(st2.stack, st.stack, lv as int)
            &&& anchor_exists(st2.list, pp)
            &&& count_under(st2.list, pp) == count_under(st.list, pp) + f.len()
        }),
    decreases f, 0nat,
{
    if f.len() == 0 {
        lemma_read_empty(st, today);
        assert(st.stack.take(st.stack.len() as int) =~= st.stack);
    } else {
        let init = f.subrange(0, f.len() - 1);
        let last = f[f.len() - 1];
        assert(init =~= f.drop_last());
        lemma_read_forest(init, lv, gap, st, pp, today);
        let st1 = read_lines(forest_text(init, lv, gap), st, today);
        lemma_pop_to(st1.stack, st.stack, lv as int);
        lemma_read_section(last, lv, gap_after(init, gap), st1, st.stack, pp, today);
        lemma_add_under_child(st1.list, pp, last, last);
        lemma_forest_text_whole(init, lv, gap);
        lemma_read_append(
            forest_text(init, lv, gap),
            section_text(last, lv, gap_after(init, gap)),
            st,
            today,
        );
    }
}

/// Adding a forest at the top level appends it.
proof fn lemma_add_all_top(l: Seq<SectionModel>, f: Seq<SectionModel>)
    ensures
        add_all_under(l, Seq::empty(), f) == l + f,
    decreases f.len(),
{
    if f.len() > 0 {
        lemma_add_all_top(l, f.drop_last());
        assert(l + f.drop_last() + seq![f.last()] =~= l + f);
        assert((l + f.drop_last()).push(f.last()) =~= l + f);
    } else {
        assert(l + f =~= l);
    }
}

/// Reading the text the writer writes gives back the sections written, with
/// their names, tasks (text, done mark and due date) and children, in order,
/// whenever the file can hold them: names not blank, names and task texts
/// trimmed and on one line, task texts without `due:`. It does so on any day:
/// the text holds no due date that counts from today, so `parse_file` reads
/// it back whatever the clock says.
pub proof fn lemma_read_after_write(list: Seq<SectionModel>, today: int)
    requires
        storable_forest(list),
        forest_dates_ok(list),
        list.len() <= usize::MAX,
    ensures
        text_ok(file_text(list)),
        !text_counts_from_today(file_text(list)),
        read_file(file_text(list), today) == list,
{
    lemma_forest_text_ok(list, 1, false);
    let st = ReadState { list: Seq::empty(), stack: Seq::empty() };
    lemma_read_forest(list, 1, false, st, Seq::empty(), today);
    lemma_add_all_top(Seq::empty(), list);
    assert(Seq::<SectionModel>::empty() + list =~= list);
}

proof fn lemma_text_ok_empty()
    ensures
        text_ok(Seq::<char>::empty()),
        line_ok(Seq::<char>::empty()),
        !text_counts_from_today(Seq::<char>::empty()),
        !line_counts_from_today(Seq::<char>::empty()),
{
    let e = Seq::<char>::empty();
    assert(e.take(0) =~= e);
    assert(trim_start(e) == e);
    assert(trim(e) == e);
    assert(hash_run(e) == 0);
}

proof fn lemma_text_ok_one_line(line: Seq<char>, rest: Seq<char>)
    requires
        no_newline(line),
    ensures
        text_ok(line + seq!['\n'] + rest) == (line_ok(line) && text_ok(rest)),
        text_counts_from_today(line + seq!['\n'] + rest) == (line_counts_from_today(line)
            || text_counts_from_today(rest)),
{
    let t = line + seq!['\n'] + rest;
    lemma_line_len_props(t);
    let n = line_len(t);
    if n < line.len() {
        assert(t[n as int] == line[n as int]);
    }
    if n > line.len() {
        assert(t[line.len() as int] == '\n');
    }
    assert(n == line.len());
    assert(t.take(n as int) =~= line);
    assert(t.skip(n as int + 1) =~= rest);
}

/// Whole lines and more text read cleanly exactly when both do.
proof fn lemma_text_ok_append(a: Seq<char>, b: Seq<char>)
    requires
        whole_lines(a),
    ensures
        text_ok(a + b) == (text_ok(a) && text_ok(b)),
        text_counts_from_today(a + b) == (text_counts_from_today(a) || text_counts_from_today(b)),
    decreases a.len(),
{
    lemma_text_ok_empty();
    if a.len() == 0 {
        assert(a + b =~= b);
    } else {
        lemma_line_len_props(a);
        let n = line_len(a);
        if n == a.len() {
            assert(a[a.len() - 1] != '\n');
        }
        let line = a.take(n as int);
        let rest = a.skip(n as int + 1);
        assert(no_newline(line));
        assert(a =~= line + seq!['\n'] + rest);
        assert(a + b =~= line + seq!['\n'] + (rest + b));
        lemma_text_ok_one_line(line, rest + b);
        lemma_text_ok_one_line(line, rest);
        if rest.len() > 0 {
            assert(rest.last() == a.last());
        }
        lemma_text_ok_append(rest, b);
    }
}

proof fn lemma_text_ok_line(line: Seq<char>)
    requires
        no_newline(line),
    ensures
        text_ok(line + seq!['\n']) == line_ok(line),
        text_counts_from_today(line + seq!['\n']) == line_counts_from_today(line),
{
    lemma_text_ok_empty();
    lemma_text_ok_one_line(line, Seq::empty());
    assert(line + seq!['\n'] + Seq::<char>::empty() =~= line + seq!['\n']);
}

proof fn lemma_tasks_text_ok(ts: Seq<TaskModel>)
    requires
        forall|i: int| 0 <= i < ts.len() ==> storable_text(#[trigger] ts[i].text),
        tasks_dates_ok(ts),
    ensures
        text_ok(tasks_text(ts)),
        !text_counts_from_today(tasks_text(ts)),
    decreases ts.len(),
{
    lemma_text_ok_empty();
    if ts.len() > 0 {
        let init = ts.drop_last();
        let t = ts.last();
        assert forall|i: int| 0 <= i < init.len() implies storable_text(#[trigger] init[i].text) by {
            assert(init[i] == ts[i]);
        }
        assert forall|i: int| 0 <= i < init.len() implies ((#[trigger] init[i]).due matches Some(
            d,
        ) ==> date_reads_back(d)) by {
            assert(init[i] == ts[i]);
        }
        lemma_tasks_text_ok(init);
        lemma_tasks_text_whole(init);
        lemma_task_line_body(t);
        assert(storable_text(ts[ts.len() - 1].text));
        lemma_task_line(t, 0);
        lemma_text_ok_line(task_body(t));
        lemma_text_ok_append(tasks_text(init), task_line(t));
    }
}

proof fn lemma_section_text_ok(s: SectionModel, lv: nat, gap: bool)
    requires
        lv >= 1,
        storable_section(s),
        section_dates_ok(s),
    ensures
        text_ok(section_text(s, lv, gap)),
        !text_counts_from_today(section_text(s, lv, gap)),
    decreases s, 1nat,
{
    reveal_strlit("\n");
    lemma_text_ok_empty();
    let e = Seq::<char>::empty();
    let head = gap_text(gap) + (heading_line(s.name, lv) + seq!['\n']);
    let tpart = tasks_part(s.tasks);
    let cpart = forest_text(s.children, lv + 1, s.tasks.len() > 0);
    lemma_section_text_parts(s, lv, gap);
    lemma_heading_line(s.name, lv);
    lemma_text_ok_line(heading_line(s.name, lv));
    if gap {
        assert(gap_text(gap) =~= e + seq!['\n']);
        lemma_text_ok_line(e);
    }
    assert(whole_lines(gap_text(gap))) by {
        if gap {
            assert(gap_text(gap).last() == '\n');
        }
    }
    lemma_text_ok_append(gap_text(gap), heading_line(s.name, lv) + seq!['\n']);
    lemma_tasks_text_ok(s.tasks);
    if s.tasks.len() > 0 {
        assert(tpart =~= e + seq!['\n'] + tasks_text(s.tasks));
        lemma_text_ok_one_line(e, tasks_text(s.tasks));
    }
    lemma_forest_text_ok(s.children, lv + 1, s.tasks.len() > 0);
    lemma_text_ok_append(tpart, cpart);
    lemma_text_ok_append(head, tpart + cpart);
}

proof fn lemma_forest_text_ok(cs: Seq<SectionModel>, lv: nat, gap: bool)
    requires
        lv >= 1,
        storable_forest(cs),
        forest_dates_ok(cs),
    ensures
        text_ok(forest_text(cs, lv, gap)),
        !text_counts_from_today(forest_text(cs, lv, gap)),
    decreases cs, 0nat,
{
    lemma_text_ok_empty();
    if cs.len() > 0 {
        let init = cs.subrange(0, cs.len() - 1);
        lemma_forest_text_ok(init, lv, gap);
        lemma_section_text_ok(cs[cs.len() - 1], lv, gap_after(init, gap));
        lemma_forest_text_whole(init, lv, gap);
        lemma_text_ok_append(forest_text(init, lv, gap), section_text(cs[cs.len() - 1], lv, gap_after(init, gap)));
    }
}

}
