//! Pull-quotes: which note of a topic is quoted, and the quote block made
//! of its last lines under a date header.

use vstd::prelude::*;
use crate::clock::{format_date, utc_date_text};
use crate::editor::line_starts;
use crate::lines::{lemma_line_bounds, line_count, line_start, line_stop};
use crate::note::{Note, Status};
use crate::store::{is_latest_index, latest_of};
use crate::text::{chars_of, push_str, string_of_span, string_push};

verus! {

/// How many of the source's last lines a quote takes.
pub const QUOTE_LINES: usize = 20;

/// Number of lines of `s` as text: split at `'\n'`, with no empty line
/// after a final newline (and none at all in empty text).
pub open spec fn text_lines(s: Seq<char>) -> int {
    if s.len() == 0 || s.last() == '\n' {
        line_count(s) - 1
    } else {
        line_count(s)
    }
}

/// Lines `from .. to` of `s`, each as `> ` + the line + a newline.
pub open spec fn quoted_lines(s: Seq<char>, from: int, to: int) -> Seq<char>
    decreases to - from,
{
    if to <= from {
        Seq::empty()
    } else {
        quoted_lines(s, from, to - 1) + seq!['>', ' '] + s.subrange(
            line_start(s, to - 1),
            line_stop(s, to - 1),
        ) + seq!['\n']
    }
}

/// The quote of a note whose creation date reads `date` and whose body is
/// `body`: `> {date}` on a line of its own (when there is a date), then the
/// last `QUOTE_LINES` lines of the body, each quoted.
pub open spec fn quote_of(date: Option<Seq<char>>, body: Seq<char>) -> Seq<char> {
    let n = text_lines(body);
    let from = if n > QUOTE_LINES {
        n - QUOTE_LINES
    } else {
        0
    };
    let header = match date {
        Some(d) => seq!['>', ' '] + d + seq!['\n'],
        None => Seq::empty(),
    };
    header + quoted_lines(body, from, n)
}

/// The quote block of `source` (see [`quote_of`]), dated by its UTC
/// creation date.
pub fn quote_block(source: &Note) -> (r: String)
    ensures
        r@ == quote_of(utc_date_text(source.created.secs, source.created.nanos), source.body@),
{
    let body = source.body.as_str();
    let v = chars_of(body);
    let starts = line_starts(body);
    let total = starts.len();
    proof {
        crate::lines::lemma_newlines(body@);
    }
    let n = if v.len() == 0 || v[v.len() - 1] == '\n' {
        total - 1
    } else {
        total
    };
    let from = if n > QUOTE_LINES {
        n - QUOTE_LINES
    } else {
        0
    };
    let mut out = String::new();
    match format_date(source.created) {
        Some(d) => {
            string_push(&mut out, '>');
            string_push(&mut out, ' ');
            push_str(&mut out, d.as_str());
            string_push(&mut out, '\n');
        },
        None => {},
    }
    let ghost header = out@;
    let mut k = from;
    while k < n
        invariant
            from <= k <= n,
            n <= total,
            total == line_count(body@),
            v@ == body@,
            starts@.len() == total,
            forall|l: int| 0 <= l < starts@.len() ==> #[trigger] starts@[l] == line_start(body@, l),
            out@ == header + quoted_lines(body@, from as int, k as int),
        decreases n - k,
    {
        proof {
            lemma_line_bounds(body@, k as int);
        }
        let lo = starts[k];
        let hi = if k + 1 < total {
            starts[k + 1] - 1
        } else {
            v.len()
        };
        assert(hi == line_stop(body@, k as int)) by {
            if k + 1 >= total {
                assert(line_stop(body@, k as int) == body@.len());
            }
        }
        let line = string_of_span(&v, lo, hi);
        string_push(&mut out, '>');
        string_push(&mut out, ' ');
        push_str(&mut out, line.as_str());
        string_push(&mut out, '\n');
        k = k + 1;
        assert(out@ =~= header + quoted_lines(body@, from as int, k as int));
    }
    out
}

/// The notes that are kept (not scratch).
pub open spec fn kept() -> spec_fn(Note) -> bool {
    |n: Note| n.status == Status::Keep
}

/// The note a pull-quote takes from the notes of a topic: the most
/// recently updated kept note (see [`is_latest_index`]), else the most
/// recently updated note; `None` for no notes.
pub fn quote_source(notes: Vec<Note>) -> (r: Option<Note>)
    ensures
        r is None <==> notes@.len() == 0,
        notes@.filter(kept()).len() > 0 ==> (r matches Some(n) && exists|i: int|
            is_latest_index(notes@.filter(kept()), i) && notes@.filter(kept())[i] == n),
        notes@.filter(kept()).len() == 0 ==> (r matches Some(n) ==> exists|i: int|
            is_latest_index(notes@, i) && notes@[i] == n),
{
    let ghost all = notes@;
    let mut any_kept = false;
    let mut i: usize = 0;
    while i < notes.len()
        invariant
            i <= notes@.len(),
            notes@ == all,
            any_kept == (all.take(i as int).filter(kept()).len() > 0),
        decreases notes@.len() - i,
    {
        proof {
            assert(all.take(i + 1).drop_last() =~= all.take(i as int));
            reveal_with_fuel(Seq::<_>::filter, 1);
        }
        if notes[i].status == Status::Keep {
            any_kept = true;
        }
        i = i + 1;
    }
    assert(all.take(all.len() as int) =~= all);
    if !any_kept {
        return latest_of(notes);
    }
    let total = notes.len();
    let mut input = notes;
    let mut keeps: Vec<Note> = Vec::new();
    let mut k: usize = 0;
    while input.len() > 0
        invariant
            k + input@.len() == all.len(),
            all.len() == total,
            input@ == all.skip(k as int),
            keeps@ == all.take(k as int).filter(kept()),
        decreases input@.len(),
    {
        let x = input.remove(0);
        proof {
            assert(all.take(k + 1).drop_last() =~= all.take(k as int));
            assert(all.take(k + 1).last() == x);
            reveal_with_fuel(Seq::<_>::filter, 1);
            assert(all.skip(k + 1) =~= all.skip(k as int).remove(0));
        }
        if x.status == Status::Keep {
            keeps.push(x);
        }
        k = k + 1;
    }
    latest_of(keeps)
}

} // verus!
