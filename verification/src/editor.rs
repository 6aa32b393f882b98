//! Char-safe cursor over a `String`. The cursor is a Unicode scalar index,
//! never a raw byte offset, so edits do not panic on UTF-8.

use vstd::prelude::*;
use crate::lines::{
    clamped, column_in, lemma_line_bounds, lemma_line_of_within, lemma_newlines, lemma_newlines_prefix,
    lemma_newlines_step, lemma_on_line, line_count, line_of, line_start, line_stop, newlines,
};
use crate::text::{
    byte_len, byte_offset, lemma_byte_offset_step, lemma_encode_len_ge, string_insert, string_remove,
    utf8_width,
};
use vstd::utf8::encode_utf8;

verus! {

/// Number of Unicode scalar values in `s`.
pub fn char_len(s: &str) -> (n: usize)
    ensures
        n == s@.len(),
{
    let nbytes = byte_len(s);
    let mut n: usize = 0;
    for ch in it: s.chars()
        invariant
            n == it.index(),
            it.seq() == s@,
            nbytes >= s@.len(),
    {
        n = n + 1;
    }
    n
}

/// Byte offset of the scalar at `char_idx`, or the byte length when the
/// index is past the end.
pub fn byte_of(s: &str, char_idx: usize) -> (b: usize)
    ensures
        b == byte_offset(s@, if char_idx < s@.len() { char_idx as int } else { s@.len() as int }),
{
    let nbytes = byte_len(s);
    let mut b: usize = 0;
    let mut i: usize = 0;
    for ch in it: s.chars()
        invariant
            i == it.index(),
            it.seq() == s@,
            nbytes == vstd::utf8::encode_utf8(s@).len(),
            i <= char_idx,
            b == byte_offset(s@, i as int),
    {
        if i == char_idx {
            return b;
        }
        proof {
            lemma_byte_offset_step(s@, i as int);
        }
        b = b + utf8_width(ch);
        i = i + 1;
    }
    assert(s@.take(s@.len() as int) =~= s@);
    b
}

/// `cursor` clamped to the number of scalars in `s`.
pub fn clamp(s: &str, cursor: usize) -> (c: usize)
    ensures
        c == clamped(s@, cursor as int),
{
    let n = char_len(s);
    if cursor < n {
        cursor
    } else {
        n
    }
}

/// `(line, column, line_start)` of the clamped cursor, in scalar indices.
/// Lines are `\n`-separated.
pub fn line_col(s: &str, cursor: usize) -> (r: (usize, usize, usize))
    ensures
        r.0 == line_of(s@, clamped(s@, cursor as int)),
        r.2 == line_start(s@, r.0 as int),
        r.1 == clamped(s@, cursor as int) - r.2,
{
    let c = clamp(s, cursor);
    let mut line: usize = 0;
    let mut start: usize = 0;
    let mut idx: usize = 0;
    for ch in it: s.chars()
        invariant
            idx == it.index(),
            it.seq() == s@,
            c == clamped(s@, cursor as int),
            c <= s@.len(),
            idx <= c,
            line == newlines(s@.take(idx as int)).len(),
            start <= idx,
            start == if line == 0 {
                0
            } else {
                newlines(s@.take(idx as int))[line - 1] + 1
            },
    {
        proof {
            lemma_newlines(s@.take(idx as int));
        }
        if idx == c {
            proof {
                lemma_newlines_prefix(s@, idx as int);
            }
            return (line, idx - start, start);
        }
        proof {
            lemma_newlines_step(s@, idx as int);
        }
        idx = idx + 1;
        if ch == '\n' {
            line = line + 1;
            start = idx;
        }
    }
    proof {
        lemma_newlines_prefix(s@, idx as int);
    }
    (line, idx - start, start)
}

/// Start of every line, in order: `0`, then one past each newline.
pub(crate) fn line_starts(s: &str) -> (v: Vec<usize>)
    ensures
        v@.len() == line_count(s@),
        forall|l: int| 0 <= l < v@.len() ==> #[trigger] v@[l] == line_start(s@, l),
{
    let mut starts: Vec<usize> = Vec::new();
    starts.push(0);
    let mut idx: usize = 0;
    let nbytes = byte_len(s);
    for ch in it: s.chars()
        invariant
            idx == it.index(),
            it.seq() == s@,
            nbytes >= s@.len(),
            starts@.len() == newlines(s@.take(idx as int)).len() + 1,
            starts@[0] == 0,
            forall|l: int|
                1 <= l < starts@.len() ==> #[trigger] starts@[l] == newlines(s@.take(idx as int))[l
                    - 1] + 1,
    {
        proof {
            lemma_newlines_step(s@, idx as int);
        }
        idx = idx + 1;
        if ch == '\n' {
            starts.push(idx);
        }
    }
    assert(s@.take(idx as int) =~= s@);
    starts
}

/// End of the line that contains `start`: the index of the first `'\n'` at
/// or after `start`, or the length of `s`; `start` itself when it is past
/// the end.
fn line_end(s: &str, start: usize) -> (e: usize)
    ensures
        start >= s@.len() ==> e == start,
        start < s@.len() ==> {
            &&& start <= e <= s@.len()
            &&& (e < s@.len() ==> s@[e as int] == '\n')
            &&& forall|j: int| start <= j < e ==> s@[j] != '\n'
        },
{
    let mut idx: usize = 0;
    let nbytes = byte_len(s);
    for ch in it: s.chars()
        invariant
            idx == it.index(),
            it.seq() == s@,
            nbytes >= s@.len(),
            forall|j: int| start <= j < idx ==> s@[j] != '\n',
    {
        if idx >= start && ch == '\n' {
            return idx;
        }
        idx = idx + 1;
    }
    if start > idx {
        start
    } else {
        idx
    }
}

/// Buffer and cursor after typing `c` at the (clamped) cursor.
pub open spec fn inserted(s: Seq<char>, cursor: int, c: char) -> (Seq<char>, int) {
    let k = clamped(s, cursor);
    (s.take(k).push(c) + s.skip(k), k + 1)
}

/// Buffer and cursor after a backspace at the (clamped) cursor.
pub open spec fn backspaced(s: Seq<char>, cursor: int) -> (Seq<char>, int) {
    let k = clamped(s, cursor);
    if k == 0 {
        (s, 0)
    } else {
        (s.remove(k - 1), k - 1)
    }
}

/// Inserts `c` at the (clamped) cursor and moves the cursor past it.
pub fn insert_char(s: &mut String, cursor: &mut usize, c: char)
    requires
        encode_utf8(old(s)@.push(c)).len() <= isize::MAX,
    ensures
        (final(s)@, *final(cursor) as int) == inserted(old(s)@, *old(cursor) as int, c),
{
    proof {
        lemma_encode_len_ge(s@.push(c));
    }
    *cursor = clamp(s.as_str(), *cursor);
    let i = byte_of(s.as_str(), *cursor);
    assert(i == byte_offset(s@, *cursor as int));
    string_insert(s, i, c);
    *cursor = *cursor + 1;
}

/// Deletes the scalar before the (clamped) cursor and moves the cursor back
/// onto its place; nothing happens at the start of the buffer.
pub fn backspace(s: &mut String, cursor: &mut usize)
    ensures
        (final(s)@, *final(cursor) as int) == backspaced(old(s)@, *old(cursor) as int),
{
    *cursor = clamp(s.as_str(), *cursor);
    if *cursor == 0 {
        return;
    }
    *cursor = *cursor - 1;
    let i = byte_of(s.as_str(), *cursor);
    assert(i == byte_offset(s@, *cursor as int));
    string_remove(s, i);
}

/// Cursor one scalar left of the (clamped) cursor, stopping at the start.
pub open spec fn moved_left(s: Seq<char>, cursor: int) -> int {
    let k = clamped(s, cursor);
    if k > 0 {
        k - 1
    } else {
        0
    }
}

/// Cursor one scalar right of the (clamped) cursor, stopping at the end.
pub open spec fn moved_right(s: Seq<char>, cursor: int) -> int {
    let k = clamped(s, cursor);
    if k < s.len() {
        k + 1
    } else {
        s.len() as int
    }
}

/// Start of the line of the (clamped) cursor.
pub open spec fn homed(s: Seq<char>, cursor: int) -> int {
    line_start(s, line_of(s, clamped(s, cursor)))
}

/// Stop of the line of the (clamped) cursor: its newline, or the end.
pub open spec fn ended(s: Seq<char>, cursor: int) -> int {
    line_stop(s, line_of(s, clamped(s, cursor)))
}

/// Same column on the previous line, clamped to that line; the start of
/// the buffer from the first line.
pub open spec fn moved_up(s: Seq<char>, cursor: int) -> int {
    let c = clamped(s, cursor);
    let l = line_of(s, c);
    let col = c - line_start(s, l);
    if l == 0 {
        0
    } else {
        column_in(line_start(s, l - 1), line_stop(s, l - 1), col)
    }
}

/// Same column on the next line, clamped to that line; the end of the
/// buffer from the last line.
pub open spec fn moved_down(s: Seq<char>, cursor: int) -> int {
    let c = clamped(s, cursor);
    let l = line_of(s, c);
    let col = c - line_start(s, l);
    if l + 1 >= line_count(s) {
        s.len() as int
    } else {
        column_in(line_start(s, l + 1), line_stop(s, l + 1), col)
    }
}

/// Every movement keeps the cursor inside the buffer.
pub proof fn law_moves_stay_in_buffer(s: Seq<char>, cursor: int)
    requires
        cursor >= 0,
    ensures
        0 <= moved_left(s, cursor) <= s.len(),
        0 <= moved_right(s, cursor) <= s.len(),
        0 <= homed(s, cursor) <= s.len(),
        0 <= ended(s, cursor) <= s.len(),
        0 <= moved_up(s, cursor) <= s.len(),
        0 <= moved_down(s, cursor) <= s.len(),
{
    let c = clamped(s, cursor);
    lemma_on_line(s, c);
    let l = line_of(s, c);
    lemma_line_bounds(s, l);
    if l > 0 {
        lemma_line_bounds(s, l - 1);
    }
    if l + 1 < line_count(s) {
        lemma_line_bounds(s, l + 1);
    }
}

/// One scalar left, stopping at the start.
pub fn move_left(s: &str, cursor: &mut usize)
    ensures
        *final(cursor) == moved_left(s@, *old(cursor) as int),
{
    *cursor = clamp(s, *cursor).saturating_sub(1);
}

/// One scalar right, stopping at the end.
pub fn move_right(s: &str, cursor: &mut usize)
    ensures
        *final(cursor) == moved_right(s@, *old(cursor) as int),
{
    let next = clamp(s, *cursor).saturating_add(1);
    let n = char_len(s);
    *cursor = if next < n {
        next
    } else {
        n
    };
}

/// Start of the cursor's line.
pub fn home(s: &str, cursor: &mut usize)
    ensures
        *final(cursor) == homed(s@, *old(cursor) as int),
{
    let (_, _, start) = line_col(s, *cursor);
    *cursor = start;
}

/// End of the cursor's line: its newline, or the end of the buffer.
pub fn end(s: &str, cursor: &mut usize)
    ensures
        *final(cursor) == ended(s@, *old(cursor) as int),
{
    let (line, _, start) = line_col(s, *cursor);
    let e = line_end(s, start);
    proof {
        lemma_on_line(s@, clamped(s@, *old(cursor) as int));
        lemma_line_end_of_start(s@, line as int, e as int);
    }
    *cursor = e;
}

/// Same column on the previous line, clamped to that line's length; the
/// start of the buffer from the first line.
pub fn move_up(s: &str, cursor: &mut usize)
    ensures
        *final(cursor) == moved_up(s@, *old(cursor) as int),
{
    let (line, col, _) = line_col(s, *cursor);
    proof {
        lemma_on_line(s@, clamped(s@, *old(cursor) as int));
    }
    if line == 0 {
        *cursor = 0;
        return;
    }
    let starts = line_starts(s);
    let start = starts[line - 1];
    let end = line_end(s, start);
    proof {
        lemma_line_end_of_start(s@, line - 1, end as int);
        lemma_line_bounds(s@, line - 1);
    }
    let width = end - start;
    *cursor = start + if col < width {
        col
    } else {
        width
    };
}

/// Same column on the next line, clamped to that line's length; the end of
/// the buffer from the last line.
pub fn move_down(s: &str, cursor: &mut usize)
    ensures
        *final(cursor) == moved_down(s@, *old(cursor) as int),
{
    let (line, col, _) = line_col(s, *cursor);
    proof {
        lemma_on_line(s@, clamped(s@, *old(cursor) as int));
    }
    let starts = line_starts(s);
    assert(line < starts.len());
    if line + 1 >= starts.len() {
        *cursor = char_len(s);
        return;
    }
    let start = starts[line + 1];
    let end = line_end(s, start);
    proof {
        lemma_line_end_of_start(s@, line + 1, end as int);
        lemma_line_bounds(s@, line + 1);
    }
    let width = end - start;
    *cursor = start + if col < width {
        col
    } else {
        width
    };
}

/// `line_end` from the start of a line stops at that line's stop.
proof fn lemma_line_end_of_start(s: Seq<char>, l: int, e: int)
    requires
        0 <= l < line_count(s),
        line_start(s, l) >= s.len() ==> e == line_start(s, l),
        line_start(s, l) < s.len() ==> {
            &&& line_start(s, l) <= e <= s.len()
            &&& (e < s.len() ==> s[e] == '\n')
            &&& forall|j: int| line_start(s, l) <= j < e ==> s[j] != '\n'
        },
    ensures
        e == line_stop(s, l),
{
    lemma_line_bounds(s, l);
    let stop = line_stop(s, l);
    if e < stop {
        assert(s[e] != '\n');
    } else if stop < e {
        assert(s[stop] == '\n');
    }
}

/// Typing puts the scalar at the cursor: the text before the cursor stays,
/// the scalar follows it, then the rest of the text, and the cursor ends
/// just past the new scalar.
pub proof fn law_insert_at_cursor(s: Seq<char>, cursor: int, c: char)
    requires
        0 <= cursor <= s.len(),
    ensures
        ({
            let (s1, k1) = inserted(s, cursor, c);
            &&& s1.len() == s.len() + 1
            &&& k1 == cursor + 1
            &&& s1[cursor] == c
            &&& forall|i: int| 0 <= i < cursor ==> s1[i] == s[i]
            &&& forall|i: int| cursor <= i < s.len() ==> s1[i + 1] == s[i]
        }),
{
}

/// Backspace deletes the scalar just before the cursor and moves the
/// cursor back onto its place; at the start of the text it changes
/// nothing.
pub proof fn law_backspace_deletes_before_cursor(s: Seq<char>, cursor: int)
    requires
        0 <= cursor <= s.len(),
    ensures
        ({
            let (s1, k1) = backspaced(s, cursor);
            &&& cursor == 0 ==> s1 == s && k1 == 0
            &&& cursor > 0 ==> {
                &&& s1.len() == s.len() - 1
                &&& k1 == cursor - 1
                &&& forall|i: int| 0 <= i < cursor - 1 ==> s1[i] == s[i]
                &&& forall|i: int| cursor <= i < s.len() ==> s1[i - 1] == s[i]
            }
        }),
{
}

/// A backspace right after typing a scalar gives back the buffer as it was,
/// with the cursor where the scalar went in.
pub proof fn law_backspace_undoes_insert(s: Seq<char>, cursor: int, c: char)
    requires
        cursor >= 0,
    ensures
        ({
            let (s1, k1) = inserted(s, cursor, c);
            backspaced(s1, k1) == (s, clamped(s, cursor))
        }),
{
    let k = clamped(s, cursor);
    let (s1, k1) = inserted(s, cursor, c);
    assert(s1.len() == s.len() + 1);
    assert(s1.remove(k) =~= s);
}

/// Moving right after moving left comes back, unless the cursor was at the
/// start; moving left after moving right comes back, unless it was at the
/// end.
pub proof fn law_left_right_inverse(s: Seq<char>, cursor: int)
    requires
        cursor >= 0,
    ensures
        clamped(s, cursor) > 0 ==> moved_right(s, moved_left(s, cursor)) == clamped(s, cursor),
        clamped(s, cursor) < s.len() ==> moved_left(s, moved_right(s, cursor)) == clamped(
            s,
            cursor,
        ),
{
}

/// Every cursor movement stays on a valid position, and Home and End keep
/// the cursor on its own line.
pub proof fn law_home_end_stay_on_line(s: Seq<char>, cursor: int)
    requires
        cursor >= 0,
    ensures
        ({
            let c = clamped(s, cursor);
            let l = line_of(s, c);
            &&& 0 <= line_start(s, l) <= c <= line_stop(s, l) <= s.len()
            &&& line_of(s, line_start(s, l)) == l
            &&& line_of(s, line_stop(s, l)) == l
        }),
{
    let c = clamped(s, cursor);
    lemma_on_line(s, c);
    let l = line_of(s, c);
    lemma_line_bounds(s, l);
    lemma_line_of_within(s, l, line_start(s, l));
    lemma_line_of_within(s, l, line_stop(s, l));
}

/// Up and Down move exactly one line when there is one to move to, and the
/// target stays within that line.
pub proof fn law_up_down_change_line_by_one(s: Seq<char>, cursor: int)
    requires
        cursor >= 0,
    ensures
        ({
            let c = clamped(s, cursor);
            let l = line_of(s, c);
            let col = c - line_start(s, l);
            &&& l > 0 ==> line_of(
                s,
                column_in(line_start(s, l - 1), line_stop(s, l - 1), col),
            ) == l - 1
            &&& l + 1 < line_count(s) ==> line_of(
                s,
                column_in(line_start(s, l + 1), line_stop(s, l + 1), col),
            ) == l + 1
        }),
{
    let c = clamped(s, cursor);
    lemma_on_line(s, c);
    let l = line_of(s, c);
    let col = c - line_start(s, l);
    if l > 0 {
        lemma_line_bounds(s, l - 1);
        lemma_line_of_within(s, l - 1, column_in(line_start(s, l - 1), line_stop(s, l - 1), col));
    }
    if l + 1 < line_count(s) {
        lemma_line_bounds(s, l + 1);
        lemma_line_of_within(s, l + 1, column_in(line_start(s, l + 1), line_stop(s, l + 1), col));
    }
}

} // verus!
