//! What the bars of the screen say: the top bar's parts and the bottom
//! line of each mode. Drawing them is the application's.

use vstd::prelude::*;
use crate::app::{App, LeftPane, TitleStep};
use crate::clock::{format_date, utc_date_text, writable};
use crate::keys::InputMode;
use crate::note::{status_word, word_count_of};
use crate::session::{countdown, countdown_at, flash_at, flashing, left_at};
use crate::store::{decimal, decimal_chars};
use crate::text::{push_str, string_of_span, string_push};

verus! {

/// `parts` joined by two spaces.
pub open spec fn spaced(parts: Seq<Seq<char>>) -> Seq<char>
    decreases parts.len(),
{
    if parts.len() == 0 {
        Seq::empty()
    } else if parts.len() == 1 {
        parts[0]
    } else {
        spaced(parts.drop_last()) + seq![' ', ' '] + parts.last()
    }
}

/// The top bar's parts at monotonic time `now`: `thread`, the highlighted
/// topic, then for an open note its UTC creation date, status and word
/// count (`{n}w`), the session countdown while a session runs, a `*` while
/// edits are unsaved, and the mode in Insert, Title and Search.
pub open spec fn top_bar_parts(app: App, now: u64) -> Seq<Seq<char>> {
    let base = seq!["thread"@];
    let with_topic = match app.selected_topic_spec() {
        Some(t) => base.push(t),
        None => base,
    };
    let with_note = match app.opened {
        Some(n) => {
            let dated = match utc_date_text(n.created.secs, n.created.nanos) {
                Some(d) => with_topic.push(d),
                None => with_topic,
            };
            dated.push(status_word(n.status)).push(decimal(word_count_of(n.body@)).push('w'))
        },
        None => with_topic,
    };
    let with_session = match app.session_deadline {
        Some(d) => with_note.push(countdown(left_at(d, now))),
        None => with_note,
    };
    let with_dirty = if app.dirty {
        with_session.push("*"@)
    } else {
        with_session
    };
    match app.mode {
        InputMode::Insert => with_dirty.push("insert"@),
        InputMode::Title => with_dirty.push("title"@),
        InputMode::Search => with_dirty.push("search"@),
        InputMode::Normal => with_dirty,
    }
}

fn push_part(out: &mut String, first: bool, part: &str)
    ensures
        final(out)@ == if first {
            old(out)@ + part@
        } else {
            old(out)@ + seq![' ', ' '] + part@
        },
{
    if !first {
        string_push(out, ' ');
        string_push(out, ' ');
    }
    push_str(out, part);
}

/// `parts` joined by two spaces.
pub fn join_spaced(parts: &Vec<String>) -> (s: String)
    ensures
        s@ == spaced(parts@.map_values(|p: String| p@)),
{
    let ghost views = parts@.map_values(|p: String| p@);
    let mut s = String::new();
    let mut i: usize = 0;
    while i < parts.len()
        invariant
            i <= parts@.len(),
            views == parts@.map_values(|p: String| p@),
            s@ == spaced(views.take(i as int)),
        decreases parts@.len() - i,
    {
        let ghost s0 = s@;
        push_part(&mut s, i == 0, parts[i].as_str());
        proof {
            let t = views.take(i + 1);
            assert(t.drop_last() =~= views.take(i as int));
            assert(t.last() == parts@[i as int]@);
            if i == 0 {
                assert(views.take(0) =~= Seq::<Seq<char>>::empty());
                assert(s0 =~= Seq::<char>::empty());
                assert(s@ =~= t[0]);
            }
        }
        i = i + 1;
    }
    assert(views.take(parts@.len() as int) =~= views);
    s
}

/// The top bar text (see [`top_bar_parts`]); the date of an open note in
/// years 0000 to 9999 is always there.
pub fn top_bar(app: &App, now: u64) -> (s: String)
    requires
        app.wf(),
    ensures
        s@ == spaced(top_bar_parts(*app, now)),
        app.opened matches Some(n) ==> (writable(n.created) ==> utc_date_text(
            n.created.secs,
            n.created.nanos,
        ) is Some),
{
    let mut parts: Vec<String> = Vec::new();
    parts.push("thread".to_owned());
    let ghost mut want: Seq<Seq<char>> = seq!["thread"@];
    assert(parts@.map_values(|p: String| p@) =~= want);
    if let Some(topic) = app.selected_topic() {
        parts.push(topic.to_owned());
        proof {
            want = want.push(topic@);
        }
        assert(parts@.map_values(|p: String| p@) =~= want);
    }
    assert(want == match app.selected_topic_spec() {
        Some(t) => seq!["thread"@].push(t),
        None => seq!["thread"@],
    });
    if let Some(note) = &app.opened {
        if let Some(date) = format_date(note.created) {
            parts.push(date);
            proof {
                want = want.push(date@);
            }
            assert(parts@.map_values(|p: String| p@) =~= want);
        }
        parts.push(note.status.to_string());
        proof {
            want = want.push(status_word(note.status));
        }
        assert(parts@.map_values(|p: String| p@) =~= want);
        let count = note.word_count();
        let mut words = decimal_chars(count as u64);
        words.push('w');
        assert(words@.subrange(0, words@.len() as int) =~= words@);
        parts.push(string_of_span(&words, 0, words.len()));
        proof {
            want = want.push(decimal(word_count_of(note.body@)).push('w'));
        }
        assert(parts@.map_values(|p: String| p@) =~= want);
    }
    if let Some(d) = app.session_deadline {
        let c = countdown_at(d, now);
        parts.push(c);
        proof {
            want = want.push(c@);
        }
        assert(parts@.map_values(|p: String| p@) =~= want);
    }
    if app.dirty {
        parts.push("*".to_owned());
        proof {
            want = want.push("*"@);
        }
        assert(parts@.map_values(|p: String| p@) =~= want);
    }
    match app.mode {
        InputMode::Insert => {
            parts.push("insert".to_owned());
            proof {
                want = want.push("insert"@);
            }
        },
        InputMode::Title => {
            parts.push("title".to_owned());
            proof {
                want = want.push("title"@);
            }
        },
        InputMode::Search => {
            parts.push("search".to_owned());
            proof {
                want = want.push("search"@);
            }
        },
        InputMode::Normal => {},
    }
    assert(parts@.map_values(|p: String| p@) =~= want);
    assert(want == top_bar_parts(*app, now));
    join_spaced(&parts)
}

/// Key hints of Normal mode with the topics pane.
pub fn normal_hints() -> (s: &'static str)
    ensures
        s@ == "j/k select  enter  i/a insert  n new  t thread  w keep  p quote  / search  s timer  ^s  q"@,
{
    "j/k select  enter  i/a insert  n new  t thread  w keep  p quote  / search  s timer  ^s  q"
}

/// Key hints of Normal mode with the thread pane.
pub fn notes_hints() -> (s: &'static str)
    ensures
        s@ == "j/k select  enter open  t topics  i/a insert  n new  w keep  p quote  / search  s timer  ^s  q"@,
{
    "j/k select  enter open  t topics  i/a insert  n new  w keep  p quote  / search  s timer  ^s  q"
}

/// Key hints of Insert mode.
pub fn insert_hints() -> (s: &'static str)
    ensures
        s@ == "esc normal  ^s save"@,
{
    "esc normal  ^s save"
}

/// What the bottom line says: the key hints of Normal mode (for the pane
/// shown) and of Insert mode, `/` and the query in Search mode, or in
/// Title mode the prompt (`topic: ` or `title: `), the text typed so far
/// and, after two spaces, the prompt's error when it has one.
pub open spec fn bottom_text(app: App) -> Seq<char> {
    match app.mode {
        InputMode::Normal => if app.left_pane == LeftPane::Topics {
            "j/k select  enter  i/a insert  n new  t thread  w keep  p quote  / search  s timer  ^s  q"@
        } else {
            "j/k select  enter open  t topics  i/a insert  n new  w keep  p quote  / search  s timer  ^s  q"@
        },
        InputMode::Search => seq!['/'] + app.query@,
        InputMode::Insert => "esc normal  ^s save"@,
        InputMode::Title => {
            let p = app.prompt->0;
            let label = match p.step {
                TitleStep::Topic => "topic"@,
                TitleStep::Title => "title"@,
            };
            let line = label + seq![':', ' '] + p.input@;
            match p.error {
                Some(err) => line + seq![' ', ' '] + err@,
                None => line,
            }
        },
    }
}

/// The bottom line (see [`bottom_text`]).
pub fn bottom_line(app: &App) -> (s: String)
    requires
        app.wf(),
    ensures
        s@ == bottom_text(*app),
{
    match app.mode {
        InputMode::Normal => match app.left_pane {
            LeftPane::Topics => normal_hints().to_owned(),
            LeftPane::Notes => notes_hints().to_owned(),
        },
        InputMode::Search => {
            let mut s = String::new();
            string_push(&mut s, '/');
            push_str(&mut s, app.query.as_str());
            s
        },
        InputMode::Insert => insert_hints().to_owned(),
        InputMode::Title => {
            let p = app.prompt.as_ref().unwrap();
            let mut s = match p.step {
                TitleStep::Topic => "topic".to_owned(),
                TitleStep::Title => "title".to_owned(),
            };
            string_push(&mut s, ':');
            string_push(&mut s, ' ');
            push_part(&mut s, true, p.input.as_str());
            match &p.error {
                Some(err) => push_part(&mut s, false, err.as_str()),
                None => {},
            }
            s
        },
    }
}

/// Where the Insert cursor is drawn in a note pane whose inner area is
/// `width` x `height` cells and shows the body unwrapped, scrolled so that
/// the cursor's line stays in view: the rows scrolled off, then the
/// cursor's column and row inside the area (the last column or row when
/// the cursor is past it). Line and column are cut to `u16` as the terminal
/// counts cells.
pub fn cursor_cell(line: usize, col: usize, width: u16, height: u16) -> (r: (u16, u16, u16))
    requires
        width > 0,
        height > 0,
    ensures
        ({
            let l = line as u16;
            let c = col as u16;
            let max_y = height - 1;
            let scroll = if l > max_y { l - max_y } else { 0 };
            &&& r.0 == scroll
            &&& r.1 == if c < width - 1 { c as int } else { width - 1 }
            &&& r.2 == if l - scroll < max_y { l - scroll } else { max_y }
        }),
{
    let l = line as u16;
    let c = col as u16;
    let max_y = height - 1;
    let scroll = l.saturating_sub(max_y);
    let x = if c < width - 1 {
        c
    } else {
        width - 1
    };
    let rows = l - scroll;
    let y = if rows < max_y {
        rows
    } else {
        max_y
    };
    (scroll, x, y)
}

/// Column of the prompt cursor on a bottom line `width` cells wide: after
/// the label and `: `, at most the last column.
pub fn prompt_cursor_x(app: &App, width: u16) -> (x: u16)
    requires
        app.wf(),
        app.mode == InputMode::Title,
        width > 0,
    ensures
        ({
            let at = 7 + app.prompt->0.cursor;
            x == if at < width - 1 { at } else { width - 1 }
        }),
{
    let p = app.prompt.as_ref().unwrap();
    let last = (width - 1) as usize;
    if p.cursor < last && 7 + p.cursor < last {
        (7 + p.cursor) as u16
    } else {
        width - 1
    }
}

/// Column of the search cursor on a bottom line `width` cells wide: after
/// `/` and the query, at most the last column.
pub fn search_cursor_x(app: &App, width: u16) -> (x: u16)
    requires
        width > 0,
    ensures
        ({
            let at = 1 + app.query@.len() as int;
            x == if at < width - 1 { at } else { width - 1 }
        }),
{
    let n = crate::editor::char_len(app.query.as_str());
    let last = (width - 1) as usize;
    if n < last && 1 + n < last {
        (1 + n) as u16
    } else {
        width - 1
    }
}

/// Title of the left pane.
pub fn left_title(app: &App) -> (s: &'static str)
    ensures
        app.left_pane == LeftPane::Topics ==> s@ == "topics"@,
        app.left_pane == LeftPane::Notes ==> s@ == "notes"@,
{
    match app.left_pane {
        LeftPane::Topics => "topics",
        LeftPane::Notes => "notes",
    }
}

/// The entries of the left pane: the topic names, or the titles of the
/// thread's notes.
pub fn left_labels(app: &App) -> (v: Vec<String>)
    ensures
        app.left_pane == LeftPane::Topics ==> v@.len() == app.topics@.len() && forall|i: int|
            0 <= i < v@.len() ==> #[trigger] v@[i]@ == app.topics@[i]@,
        app.left_pane == LeftPane::Notes ==> v@.len() == app.thread@.len() && forall|i: int|
            0 <= i < v@.len() ==> #[trigger] v@[i]@ == app.thread@[i].title@,
{
    let mut v: Vec<String> = Vec::new();
    let n = match app.left_pane {
        LeftPane::Topics => app.topics.len(),
        LeftPane::Notes => app.thread.len(),
    };
    let mut i: usize = 0;
    while i < n
        invariant
            i <= n,
            n == if app.left_pane == LeftPane::Topics {
                app.topics@.len()
            } else {
                app.thread@.len()
            },
            v@.len() == i,
            forall|k: int|
                0 <= k < i ==> #[trigger] v@[k]@ == if app.left_pane == LeftPane::Topics {
                    app.topics@[k]@
                } else {
                    app.thread@[k].title@
                },
        decreases n - i,
    {
        let label = match app.left_pane {
            LeftPane::Topics => app.topics[i].clone(),
            LeftPane::Notes => app.thread[i].title.clone(),
        };
        v.push(label);
        i = i + 1;
    }
    v
}

/// Highlighted entry of the left pane.
pub fn left_selected(app: &App) -> (i: usize)
    ensures
        app.left_pane == LeftPane::Topics ==> i == app.selected,
        app.left_pane == LeftPane::Notes ==> i == app.thread_selected,
{
    match app.left_pane {
        LeftPane::Topics => app.selected,
        LeftPane::Notes => app.thread_selected,
    }
}

/// Whether the top bar is drawn reversed at monotonic time `now`: a
/// session that has run out flashes (see [`flashing`]).
pub fn top_bar_flash(app: &App, now: u64) -> (b: bool)
    ensures
        b == (app.session_deadline matches Some(d) && flashing(d, now)),
{
    match app.session_deadline {
        Some(d) => flash_at(d, now),
        None => false,
    }
}

} // verus!
