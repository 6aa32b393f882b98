//! The line structure of a char sequence: where its `'\n'` scalars are, and
//! which line a cursor stands on.

use vstd::prelude::*;

verus! {

/// Indices of the `'\n'` scalars of `s`, in increasing order.
pub open spec fn newlines(s: Seq<char>) -> Seq<int>
    decreases s.len(),
{
    if s.len() == 0 {
        Seq::empty()
    } else {
        let p = newlines(s.drop_last());
        if s.last() == '\n' {
            p.push(s.len() - 1)
        } else {
            p
        }
    }
}

/// `cursor` clamped to `[0, s.len()]`.
pub open spec fn clamped(s: Seq<char>, cursor: int) -> int {
    if cursor < s.len() {
        cursor
    } else {
        s.len() as int
    }
}

/// Line (0-based) of the position `c`: the number of newlines before it.
pub open spec fn line_of(s: Seq<char>, c: int) -> int {
    newlines(s.take(c)).len() as int
}

/// Position of the first scalar of line `l`.
pub open spec fn line_start(s: Seq<char>, l: int) -> int {
    if l == 0 {
        0
    } else {
        newlines(s)[l - 1] + 1
    }
}

/// Position just past line `l`: its terminating `'\n'`, or the end of `s`.
pub open spec fn line_stop(s: Seq<char>, l: int) -> int {
    if l < newlines(s).len() {
        newlines(s)[l]
    } else {
        s.len() as int
    }
}

/// Number of lines of `s` (one more than its number of newlines).
pub open spec fn line_count(s: Seq<char>) -> int {
    newlines(s).len() + 1int
}

/// Position reached by moving from `start` to the column `col` of the line
/// that begins at `start` and ends at `stop`, clamped to that line.
pub open spec fn column_in(start: int, stop: int, col: int) -> int {
    if col < stop - start {
        start + col
    } else {
        stop
    }
}

/// `newlines` lists exactly the newline positions, strictly increasing.
pub proof fn lemma_newlines(s: Seq<char>)
    ensures
        forall|k: int|
            0 <= k < newlines(s).len() ==> 0 <= #[trigger] newlines(s)[k] < s.len() && s[newlines(
                s,
            )[k]] == '\n',
        forall|j: int, k: int|
            0 <= j < k < newlines(s).len() ==> newlines(s)[j] < newlines(s)[k],
        forall|i: int|
            0 <= i < s.len() && s[i] == '\n' ==> exists|k: int|
                0 <= k < newlines(s).len() && #[trigger] newlines(s)[k] == i,
        newlines(s).len() <= s.len(),
    decreases s.len(),
{
    if s.len() > 0 {
        let t = s.drop_last();
        lemma_newlines(t);
        let p = newlines(t);
        assert forall|i: int| 0 <= i < s.len() && s[i] == '\n' implies exists|k: int|
            0 <= k < newlines(s).len() && #[trigger] newlines(s)[k] == i by {
            if i < s.len() - 1 {
                assert(t[i] == '\n');
                let k = choose|k: int| 0 <= k < p.len() && #[trigger] p[k] == i;
                assert(newlines(s)[k] == i);
            } else {
                assert(newlines(s)[p.len() as int] == i);
            }
        }
    }
}

/// One more scalar extends the newline list by that scalar's position when
/// it is a newline.
pub proof fn lemma_newlines_step(s: Seq<char>, i: int)
    requires
        0 <= i < s.len(),
    ensures
        newlines(s.take(i + 1)) == if s[i] == '\n' {
            newlines(s.take(i)).push(i)
        } else {
            newlines(s.take(i))
        },
{
    assert(s.take(i + 1).drop_last() =~= s.take(i));
}

/// The newlines of a prefix are a prefix of the newlines, and they are the
/// ones before the prefix's end.
pub proof fn lemma_newlines_prefix(s: Seq<char>, c: int)
    requires
        0 <= c <= s.len(),
    ensures
        newlines(s.take(c)).len() <= newlines(s).len(),
        newlines(s.take(c)) == newlines(s).take(newlines(s.take(c)).len() as int),
        forall|k: int| 0 <= k < newlines(s.take(c)).len() ==> #[trigger] newlines(s)[k] < c,
        forall|k: int|
            newlines(s.take(c)).len() <= k < newlines(s).len() ==> #[trigger] newlines(s)[k]
                >= c,
    decreases s.len() - c,
{
    lemma_newlines(s);
    lemma_newlines(s.take(c));
    if c == s.len() {
        assert(s.take(c) =~= s);
        assert(newlines(s).take(newlines(s).len() as int) =~= newlines(s));
    } else {
        let t = s.drop_last();
        assert(s.take(c) =~= t.take(c));
        lemma_newlines_prefix(t, c);
        let q = newlines(t);
        let m = newlines(s.take(c)).len() as int;
        assert(newlines(s).take(m) =~= q.take(m));
        assert forall|k: int| 0 <= k < m implies #[trigger] newlines(s)[k] < c by {
            assert(newlines(s)[k] == q[k]);
        }
        assert forall|k: int| m <= k < newlines(s).len() implies #[trigger] newlines(s)[k]
            >= c by {
            if k < q.len() {
                assert(newlines(s)[k] == q[k]);
            } else {
                assert(newlines(s)[k] == s.len() - 1);
            }
        }
    }
}

/// The position `c` lies on its line: between the line's start and stop,
/// with no newline between the line's start and `c`.
pub proof fn lemma_on_line(s: Seq<char>, c: int)
    requires
        0 <= c <= s.len(),
    ensures
        0 <= line_of(s, c) < line_count(s),
        line_start(s, line_of(s, c)) <= c <= line_stop(s, line_of(s, c)),
        forall|j: int| line_start(s, line_of(s, c)) <= j < c ==> s[j] != '\n',
{
    lemma_newlines_prefix(s, c);
    lemma_newlines(s);
    let l = line_of(s, c);
    let p = newlines(s);
    assert forall|j: int| line_start(s, l) <= j < c implies s[j] != '\n' by {
        if s[j] == '\n' {
            let k = choose|k: int| 0 <= k < p.len() && #[trigger] p[k] == j;
            if k < l {
                assert(p[k] <= p[l - 1]);
            }
        }
    }
}

/// Line `l` holds no newline before its stop, and its stop is a newline
/// unless it is the end of `s`.
pub proof fn lemma_line_bounds(s: Seq<char>, l: int)
    requires
        0 <= l < line_count(s),
    ensures
        0 <= line_start(s, l) <= line_stop(s, l) <= s.len(),
        line_stop(s, l) < s.len() ==> s[line_stop(s, l)] == '\n',
        forall|j: int| line_start(s, l) <= j < line_stop(s, l) ==> s[j] != '\n',
        l + 1 < line_count(s) ==> line_start(s, l + 1) == line_stop(s, l) + 1,
{
    lemma_newlines(s);
    let p = newlines(s);
    if l > 0 && l < p.len() {
        assert(p[l - 1] < p[l]);
    }
    assert forall|j: int| line_start(s, l) <= j < line_stop(s, l) implies s[j] != '\n' by {
        if s[j] == '\n' {
            let k = choose|k: int| 0 <= k < p.len() && #[trigger] p[k] == j;
            if k < l {
                assert(p[k] <= p[l - 1]);
            } else if k > l {
                assert(p[l] < p[k]);
            }
        }
    }
}

/// Every position from a line's start to its stop belongs to that line.
pub proof fn lemma_line_of_within(s: Seq<char>, l: int, p: int)
    requires
        0 <= l < line_count(s),
        line_start(s, l) <= p <= line_stop(s, l),
    ensures
        line_of(s, p) == l,
{
    lemma_line_bounds(s, l);
    lemma_newlines_prefix(s, p);
    lemma_newlines(s);
    let m = line_of(s, p);
    let q = newlines(s);
    if m < l {
        assert(q[m] >= p);
        assert(q[m] <= q[l - 1]);
    } else if m > l {
        assert(q[l] < p);
    }
}

} // verus!
