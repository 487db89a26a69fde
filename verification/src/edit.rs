//! The input line: moving the cursor and changing the text around it.
use vstd::prelude::*;
use vstd::utf8::{encode_scalar, encode_utf8};

use crate::text::{chars_of, lemma_encode_concat, string_of, utf8_width};
use crate::tree::min_int;

verus! {

/// The byte offset where the character at `char_idx` starts, or the byte
/// length of the text for an index past its end.
pub fn char_to_byte(buf: &str, char_idx: usize) -> (r: usize)
    ensures
        r == encode_utf8(buf@.take(min_int(char_idx as int, buf@.len() as int))).len(),
{
    let v = chars_of(buf);
    let bytes = buf.as_bytes();
    let total = bytes.len();
    let end = if char_idx < v.len() {
        char_idx
    } else {
        v.len()
    };
    let mut acc: usize = 0;
    let mut k: usize = 0;
    while k < end
        invariant
            v@ == buf@,
            end == min_int(char_idx as int, buf@.len() as int),
            0 <= k <= end,
            total == encode_utf8(buf@).len(),
            acc == encode_utf8(v@.take(k as int)).len(),
        decreases end - k,
    {
        proof {
            let s = v@;
            let c = s[k as int];
            assert(s.take(k + 1) =~= s.take(k as int) + seq![c]);
            lemma_encode_concat(s.take(k as int), seq![c]);
            let one = seq![c];
            assert(one.drop_first() =~= Seq::<char>::empty());
            assert(one[0] == c);
            assert(encode_utf8(Seq::<char>::empty()) =~= Seq::<u8>::empty());
            assert(encode_utf8(one) == encode_scalar(one[0] as u32) + encode_utf8(one.drop_first()));
            assert(encode_utf8(one) =~= encode_scalar(c as u32));
            assert(s.take(k + 1) + s.skip(k + 1) =~= s);
            lemma_encode_concat(s.take(k + 1), s.skip(k + 1));
        }
        acc = acc + utf8_width(v[k]);
        k = k + 1;
    }
    acc
}

/// Types `c` at the cursor and moves the cursor past it (a cursor past the end
/// types at the end).
pub fn insert_at_cursor(buf: &mut String, cursor: &mut usize, c: char)
    requires
        *old(cursor) < usize::MAX,
    ensures
        final(buf)@ == old(buf)@.insert(min_int(*old(cursor) as int, old(buf)@.len() as int), c),
        *final(cursor) == *old(cursor) + 1,
{
    let mut v = chars_of(buf.as_str());
    let k = if *cursor < v.len() {
        *cursor
    } else {
        v.len()
    };
    v.insert(k, c);
    *buf = string_of(&v);
    *cursor = *cursor + 1;
}

/// Deletes the character before the cursor and moves the cursor back one;
/// nothing at the start of the text.
pub fn backspace_at_cursor(buf: &mut String, cursor: &mut usize)
    ensures
        *old(cursor) == 0 ==> final(buf)@ == old(buf)@ && *final(cursor) == 0,
        *old(cursor) > 0 ==> *final(cursor) == *old(cursor) - 1 && final(buf)@ == if *old(cursor)
            - 1 < old(buf)@.len() {
            old(buf)@.remove(*old(cursor) - 1)
        } else {
            old(buf)@
        },
{
    if *cursor == 0 {
        return;
    }
    let mut v = chars_of(buf.as_str());
    let k = *cursor - 1;
    if k < v.len() {
        v.remove(k);
        *buf = string_of(&v);
    }
    *cursor = k;
}

/// Deletes the character at the cursor; nothing at or past the end.
pub fn delete_at_cursor(buf: &mut String, cursor: usize)
    ensures
        final(buf)@ == if cursor < old(buf)@.len() {
            old(buf)@.remove(cursor as int)
        } else {
            old(buf)@
        },
{
    let mut v = chars_of(buf.as_str());
    if cursor >= v.len() {
        return;
    }
    v.remove(cursor);
    *buf = string_of(&v);
}

/// Moves the cursor back one character, stopping at the start.
pub fn move_left(cursor: &mut usize)
    ensures
        *final(cursor) == if *old(cursor) > 0 {
            *old(cursor) - 1
        } else {
            0
        },
{
    if *cursor > 0 {
        *cursor = *cursor - 1;
    }
}

/// Moves the cursor forward one character, stopping at the end of the text.
pub fn move_right(cursor: &mut usize, buf: &str)
    ensures
        *final(cursor) == if *old(cursor) < buf@.len() {
            *old(cursor) + 1
        } else {
            *old(cursor) as int
        },
{
    let max = chars_of(buf).len();
    if *cursor < max {
        *cursor = *cursor + 1;
    }
}

} // verus!
