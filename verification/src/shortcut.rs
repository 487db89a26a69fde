//! Finding, in a todo file's text, the due dates that count from today.
use vstd::prelude::*;

use crate::date::{is_relative_exec, Date};
use crate::parser::{
    due_marker_chars, due_word, hash_run_exec, is_heading, is_task_line, is_task_line_exec,
    line_counts_from_today, line_end, text_counts_from_today,
};
use crate::text::{
    chars_of, find_exec, lemma_trim_end_last, string_of_range, trim, trim_range, trim_start,
    vec_of_range,
};

verus! {

/// Whether the line `v[lo..hi]` is a task line whose due date counts from today.
pub(crate) fn line_counts_from_today_exec(v: &Vec<char>, lo: usize, hi: usize) -> (r: bool)
    requires
        lo <= hi <= v@.len(),
    ensures
        r == line_counts_from_today(v@.subrange(lo as int, hi as int)),
{
    let ghost line = v@.subrange(lo as int, hi as int);
    let (a, b) = trim_range(v, lo, hi);
    let ghost tr = v@.subrange(a as int, b as int);
    assert(tr == trim(line));
    let h = hash_run_exec(v, a, b);
    if h > 0 && h < b - a && v[a + h] == ' ' {
        let (na, nb) = trim_range(v, a + h + 1, b);
        assert(tr.skip(h + 1) =~= v@.subrange(a + h + 1, b as int));
        if nb > na {
            return false;
        }
    }
    assert(!is_heading(tr));
    if !is_task_line_exec(v, a, b) {
        return false;
    }
    proof {
        lemma_trim_end_last(trim_start(line));
        reveal_strlit("- [ ");
        if tr.take(4) == "- [ "@ {
            assert(tr.take(4)[3] == ' ');
            assert(tr[3] == ' ');
            if tr.len() == 4 {
                assert(tr.last() == tr[3]);
            }
        }
    }
    assert(a + 5 <= b);
    let (ta, tb) = trim_range(v, a + 5, b);
    assert(tr.skip(5) =~= v@.subrange(a + 5, b as int));
    let t = vec_of_range(v, ta, tb);
    let marker = due_marker_chars();
    match find_exec(&t, &marker) {
        None => false,
        Some(i) => {
            if !(i == 0 || t[i - 1] == ' ') {
                return false;
            }
            proof {
                reveal_strlit("due:");
            }
            let (p, q) = due_word(&t, i);
            let word = string_of_range(&t, p, q);
            Date::parse_ymd(word.as_str()).is_none() && is_relative_exec(word.as_str())
        },
    }
}

/// Whether some line of the text is a task line whose due date counts from today.
pub(crate) fn text_counts_from_today_exec(content: &str) -> (r: bool)
    ensures
        r == text_counts_from_today(content@),
{
    let v = chars_of(content);
    assert(v@.skip(0) =~= v@);
    let mut pos: usize = 0;
    loop
        invariant
            pos <= v@.len(),
            v@ == content@,
            text_counts_from_today(v@) == text_counts_from_today(v@.skip(pos as int)),
        decreases v@.len() - pos,
    {
        let e = line_end(&v, pos);
        let ghost rest = v@.skip(pos as int);
        assert(rest.take(e - pos) =~= v@.subrange(pos as int, e as int));
        if line_counts_from_today_exec(&v, pos, e) {
            return true;
        }
        if e == v.len() {
            return false;
        }
        assert(rest.skip(e - pos + 1) =~= v@.skip(e + 1));
        pos = e + 1;
    }
}

} // verus!
