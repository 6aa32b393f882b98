//! The application model and its update rule (Elm style): `App` is the
//! model, `Message` the message, `App::apply` the update. What needs the
//! disk, the terminal or a clock comes back as an `Effect` for the caller
//! to carry out; the caller then hands back the outcome (`show_latest`,
//! `stamp_now`, `saved`, `set_topics`, `set_thread`, `set_hits`,
//! `pull_quote`, `start_session`). `autosave_tick` decides when a dirty
//! buffer is written on its own.

use vstd::prelude::*;
use crate::clock::{now, Timestamp};
use crate::editor;
use crate::editor::{backspaced, ended, homed, inserted, moved_down, moved_left, moved_right, moved_up};
use crate::keys::{InputMode, Message};
use crate::lines::clamped;
use crate::note::{Note, Status};
use crate::store::{
    in_thread, is_latest_index, notes_sorted, stable_arrangement, thread_list, topic_ok,
    validate_topic, NoteOrder, Store,
};
use crate::text::{can_grow, chars_of, push_str, string_push};
use crate::clock::utc_date_text;
use crate::quote::{kept, quote_block, quote_of, quote_source};
use crate::session::session_deadline;
use vstd::utf8::encode_utf8;

verus! {

/// The two prompts of a new note.
#[derive(Debug, Clone, Copy, PartialEq, Eq, Structural)]
pub enum TitleStep {
    Topic,
    Title,
}

/// The new-note prompt: which step, the text typed so far and its cursor,
/// the topic chosen in the first step, and why the last Enter was refused.
pub struct TitlePrompt {
    pub step: TitleStep,
    pub input: String,
    pub cursor: usize,
    pub topic: String,
    pub error: Option<String>,
}

/// What the left pane lists: the topics, or the notes of the highlighted
/// topic (its thread).
#[derive(Debug, Clone, Copy, PartialEq, Eq, Structural)]
pub enum LeftPane {
    Topics,
    Notes,
}

/// Outside work that an update asks for.
pub enum Effect {
    Nothing,
    /// Open the latest note of this topic (or none) with
    /// [`App::show_latest`].
    LoadLatest(String),
    /// Write the open note: [`App::stamp_now`], write it to the store,
    /// then [`App::saved`].
    Save,
    /// Read the notes of this topic and hand them to [`App::set_thread`].
    LoadThread(String),
    /// Read the notes of this topic and hand them to [`App::pull_quote`].
    LoadQuoteSource(String),
    /// Search the store for this query and hand the hits to
    /// [`App::set_hits`].
    Search(String),
    /// Start the session timer with [`App::start_session`] at the current
    /// monotonic time.
    StartSession,
}

pub struct App {
    pub should_quit: bool,
    pub store: Store,
    /// Topic names, most recently updated first.
    pub topics: Vec<String>,
    /// Highlighted topic.
    pub selected: usize,
    /// The note in the right pane, which is also the edit buffer.
    pub opened: Option<Note>,
    /// Cursor in the open note's body (scalar index).
    pub cursor: usize,
    pub mode: InputMode,
    /// The open note has edits that are not on disk.
    pub dirty: bool,
    /// The new-note prompt, while in Title mode.
    pub prompt: Option<TitlePrompt>,
    /// What the left pane lists.
    pub left_pane: LeftPane,
    /// The thread of the highlighted topic, oldest first.
    pub thread: Vec<Note>,
    /// Highlighted note of the thread.
    pub thread_selected: usize,
    /// The search query, in Search mode.
    pub query: String,
    /// The notes the query finds, most recently updated first.
    pub hits: Vec<Note>,
    /// Highlighted hit.
    pub hit: usize,
    /// When the writing session ends (milliseconds on a monotonic clock).
    pub session_deadline: Option<u64>,
    /// Whether scratch notes are listed in a thread.
    pub show_scratch: bool,
    /// Length of a writing session.
    pub session_minutes: u64,
}

/// Body of a freshly created note.
pub fn starter_body() -> (s: &'static str)
    ensures
        s@ == "What am I trying to decide?\n\n"@,
{
    "What am I trying to decide?\n\n"
}

/// `n` is `o` with (at most) its body changed.
pub open spec fn same_but_body(o: Note, n: Note) -> bool {
    n == Note { body: n.body, ..o }
}

/// The cursor that a movement message gives in `s` (other messages leave
/// it where it is).
pub open spec fn moved(s: Seq<char>, cursor: int, msg: Message) -> int {
    match msg {
        Message::MoveLeft => moved_left(s, cursor),
        Message::MoveRight => moved_right(s, cursor),
        Message::MoveUp => moved_up(s, cursor),
        Message::MoveDown => moved_down(s, cursor),
        Message::Home => homed(s, cursor),
        Message::End => ended(s, cursor),
        _ => cursor,
    }
}

pub open spec fn is_move(msg: Message) -> bool {
    msg is MoveLeft || msg is MoveRight || msg is MoveUp || msg is MoveDown || msg is Home
        || msg is End
}

/// The character that a typing message adds in Insert mode.
pub open spec fn typed(msg: Message) -> Option<char> {
    match msg {
        Message::InsertChar(c) => Some(c),
        Message::Newline => Some('\n'),
        _ => None,
    }
}

/// Normal mode. `q` quits; `j`/`k` move the highlight of the left pane
/// (topics or thread), clamped at the ends; Enter in the thread opens the
/// highlighted note; `i` enters Insert at the cursor and `a` at the end of
/// the body (both only with a note open); `n` starts the new-note prompt at
/// the topic step, prefilled with the highlighted topic; `t` switches the
/// left pane; `w` flips the open note between scratch and keep; `/` starts
/// an empty search; `s` stops a running session (starting one is outside
/// work). Nothing else changes the model.
pub open spec fn normal_update(a: App, b: App, msg: Message) -> bool {
    match msg {
        Message::Quit => b == App { should_quit: true, ..a },
        Message::TopicDown => if a.left_pane == LeftPane::Notes {
            b == App {
                thread_selected: if a.thread_selected + 1 < a.thread@.len() {
                    (a.thread_selected + 1) as usize
                } else {
                    a.thread_selected
                },
                ..a
            }
        } else {
            b == App {
                selected: if a.selected + 1 < a.topics@.len() {
                    (a.selected + 1) as usize
                } else {
                    a.selected
                },
                ..a
            }
        },
        Message::TopicUp => if a.left_pane == LeftPane::Notes {
            b == App {
                thread_selected: if a.thread_selected > 0 {
                    (a.thread_selected - 1) as usize
                } else {
                    a.thread_selected
                },
                ..a
            }
        } else {
            b == App {
                selected: if a.selected > 0 {
                    (a.selected - 1) as usize
                } else {
                    a.selected
                },
                ..a
            }
        },
        Message::OpenLatest => if a.left_pane == LeftPane::Notes && a.thread@.len() > 0 {
            b == App {
                opened: Some(a.thread@[a.thread_selected as int]),
                cursor: 0,
                dirty: false,
                ..a
            }
        } else {
            b == a
        },
        Message::ToggleThread => b == App {
            left_pane: if a.left_pane == LeftPane::Topics {
                LeftPane::Notes
            } else {
                LeftPane::Topics
            },
            thread_selected: 0,
            ..a
        },
        Message::ToggleStatus => match a.opened {
            Some(o) => b == App { opened: Some(Note { status: flipped(o.status), ..o }), ..a },
            None => b == a,
        },
        Message::StartSearch => {
            &&& b == App { mode: InputMode::Search, query: b.query, hits: b.hits, hit: 0, ..a }
            &&& b.query@.len() == 0
            &&& b.hits@.len() == 0
        },
        Message::ToggleSession => b == App { session_deadline: None, ..a },
        Message::EnterInsert => if a.opened is Some {
            b == App { mode: InputMode::Insert, ..a }
        } else {
            b == a
        },
        Message::EnterInsertAppend => match a.opened {
            Some(n) => b == App { mode: InputMode::Insert, cursor: n.body@.len() as usize, ..a },
            None => b == a,
        },
        Message::StartNewNote => {
            &&& b == App { mode: InputMode::Title, prompt: b.prompt, ..a }
            &&& b.prompt matches Some(p) && p.step == TitleStep::Topic && p.cursor == p.input@.len()
                && p.error is None && p.input@ == match a.selected_topic_spec() {
                Some(t) => t,
                None => Seq::empty(),
            }
        },
        _ => b == a,
    }
}

/// `scratch` and `keep` swapped.
pub open spec fn flipped(s: Status) -> Status {
    match s {
        Status::Scratch => Status::Keep,
        Status::Keep => Status::Scratch,
    }
}

/// Search mode edits the query at its end (typing, Backspace), moves the
/// highlight among the hits (Up/Down, clamped), opens the highlighted hit
/// with Enter (back to Normal with the topics pane, the hit's topic
/// highlighted when it is listed, the search cleared), and Esc leaves
/// without opening anything.
pub open spec fn search_update(a: App, b: App, msg: Message) -> bool {
    match msg {
        Message::InsertChar(c) => if encode_utf8(a.query@.push(c)).len() <= isize::MAX {
            &&& b == App { query: b.query, ..a }
            &&& b.query@ == a.query@.push(c)
        } else {
            b == a
        },
        Message::Backspace => {
            &&& b == App { query: b.query, ..a }
            &&& b.query@ == backspaced(a.query@, a.query@.len() as int).0
        },
        Message::MoveDown => b == App {
            hit: if a.hit + 1 < a.hits@.len() {
                (a.hit + 1) as usize
            } else {
                a.hit
            },
            ..a
        },
        Message::MoveUp => b == App {
            hit: if a.hit > 0 {
                (a.hit - 1) as usize
            } else {
                a.hit
            },
            ..a
        },
        Message::Submit => if a.hits@.len() > 0 {
            let n = a.hits@[a.hit as int];
            &&& b == App {
                opened: Some(n),
                cursor: 0,
                dirty: false,
                mode: InputMode::Normal,
                left_pane: LeftPane::Topics,
                selected: b.selected,
                query: b.query,
                hits: b.hits,
                hit: 0,
                ..a
            }
            &&& b.query@.len() == 0
            &&& b.hits@.len() == 0
            &&& (exists|i: int| 0 <= i < a.topics@.len() && #[trigger] a.topics@[i]@ == n.topic@)
                ==> (a.topics@[b.selected as int]@ == n.topic@ && forall|k: int|
                0 <= k < b.selected ==> (#[trigger] a.topics@[k])@ != n.topic@)
            &&& !(exists|i: int| 0 <= i < a.topics@.len() && #[trigger] a.topics@[i]@ == n.topic@)
                ==> b.selected == a.selected
        } else {
            b == a
        },
        Message::Escape => {
            &&& b == App { mode: InputMode::Normal, query: b.query, hits: b.hits, hit: 0, ..a }
            &&& b.query@.len() == 0
            &&& b.hits@.len() == 0
        },
        _ => b == a,
    }
}

/// Insert mode edits the open note's body: typing and Enter insert at the
/// cursor (unless the body is at the size limit of a `String`), Backspace
/// deletes before it (an edit only when something was deleted), movements
/// move it, and Esc goes back to Normal.
pub open spec fn insert_update(a: App, b: App, msg: Message) -> bool {
    let o = a.opened->0;
    match typed(msg) {
        Some(c) => if encode_utf8(o.body@.push(c)).len() <= isize::MAX {
            &&& b == App { opened: b.opened, cursor: b.cursor, dirty: true, ..a }
            &&& b.opened matches Some(n) && same_but_body(o, n) && (n.body@, b.cursor as int)
                == inserted(o.body@, a.cursor as int, c)
        } else {
            b == a
        },
        None => if msg is Backspace {
            &&& b == App {
                opened: b.opened,
                cursor: b.cursor,
                dirty: a.dirty || clamped(o.body@, a.cursor as int) > 0,
                ..a
            }
            &&& b.opened matches Some(n) && same_but_body(o, n) && (n.body@, b.cursor as int)
                == backspaced(o.body@, a.cursor as int)
        } else if is_move(msg) {
            b == App { cursor: moved(o.body@, a.cursor as int, msg) as usize, ..a }
        } else if msg is Escape {
            b == App { mode: InputMode::Normal, ..a }
        } else {
            b == a
        },
    }
}

/// Text shown on the prompt when a topic is refused.
pub open spec fn topic_refused(topic: Seq<char>) -> Seq<char> {
    "invalid topic name: "@ + topic
}

/// Text shown on the prompt when the system clock gives no instant.
pub open spec fn clock_refused() -> Seq<char> {
    "system clock is before 1970"@
}

/// `q` is the prompt `p` after an edit of its text: same step and topic,
/// the new text and cursor, and no error shown.
pub open spec fn edited(p: TitlePrompt, q: TitlePrompt, input: Seq<char>, cursor: int) -> bool {
    q.step == p.step && q.topic == p.topic && q.input@ == input && q.cursor == cursor && q.error is None
}

/// `q` is the prompt `p` with `err` shown.
pub open spec fn refused(p: TitlePrompt, q: TitlePrompt, err: Seq<char>) -> bool {
    &&& q.step == p.step && q.topic == p.topic && q.input == p.input && q.cursor == p.cursor
    &&& q.error matches Some(m) && m@ == err
}

/// Title mode edits the prompt: typing and Backspace edit the prompt text
/// (and clear a shown error), Left/Right and Home/End move in it; Esc
/// cancels the new note; Enter on the topic step goes on to the title step
/// when the topic is valid (else stays and shows why), and on the title
/// step creates the note (scratch, the starter body, stamped with `clock`)
/// and enters Insert after the starter; with no instant from the clock it
/// stays and shows why.
pub open spec fn title_update(a: App, b: App, msg: Message, clock: Option<Timestamp>) -> bool {
    let p = a.prompt->0;
    match msg {
        Message::InsertChar(c) => if encode_utf8(p.input@.push(c)).len() <= isize::MAX {
            let (input, cursor) = inserted(p.input@, p.cursor as int, c);
            &&& b == App { prompt: b.prompt, ..a }
            &&& b.prompt matches Some(q) && edited(p, q, input, cursor)
        } else {
            b == a
        },
        Message::Backspace => {
            let (input, cursor) = backspaced(p.input@, p.cursor as int);
            &&& b == App { prompt: b.prompt, ..a }
            &&& b.prompt matches Some(q) && edited(p, q, input, cursor)
        },
        Message::MoveLeft | Message::MoveRight | Message::Home | Message::End => {
            &&& b == App { prompt: b.prompt, ..a }
            &&& b.prompt matches Some(q) && q.step == p.step && q.topic == p.topic && q.input
                == p.input && q.error == p.error && q.cursor == moved(p.input@, p.cursor as int, msg)
        },
        Message::Escape => b == App { mode: InputMode::Normal, prompt: None, ..a },
        Message::Submit => match p.step {
            TitleStep::Topic => if topic_ok(p.input@) {
                &&& b == App { prompt: b.prompt, ..a }
                &&& b.prompt matches Some(q) && q.step == TitleStep::Title && q.input@.len() == 0
                    && q.cursor == 0 && q.topic@ == p.input@ && q.error is None
            } else {
                &&& b == App { prompt: b.prompt, ..a }
                &&& b.prompt matches Some(q) && refused(p, q, topic_refused(p.input@))
            },
            TitleStep::Title => match clock {
                Some(t) => {
                    &&& b == App {
                        opened: b.opened,
                        cursor: b.cursor,
                        mode: InputMode::Insert,
                        dirty: true,
                        prompt: None,
                        ..a
                    }
                    &&& b.opened matches Some(n) && n.path is None && n.topic@ == p.topic@
                        && n.title@ == p.input@ && n.body@ == "What am I trying to decide?\n\n"@
                        && n.status == Status::Scratch && n.created == t && n.updated == t
                        && n.parent is None
                    &&& b.cursor == "What am I trying to decide?\n\n"@.len()
                },
                None => {
                    &&& b == App { prompt: b.prompt, ..a }
                    &&& b.prompt matches Some(q) && refused(p, q, clock_refused())
                },
            },
        },
        _ => b == a,
    }
}

/// The clock is read for an update only on Enter at the title step, where
/// it stamps the new note.
pub open spec fn reads_clock(a: App, msg: Message) -> bool {
    &&& a.mode == InputMode::Title && msg is Submit
    &&& a.prompt matches Some(p) && p.step == TitleStep::Title
}

/// The outside work an update asks for. Save asks to write the open note
/// when it has unsaved edits; so do Quit (Normal) and Esc (Insert). In
/// Normal mode, `j`, `k` and Enter ask to open the highlighted topic's
/// latest note.
pub open spec fn update_effect(a: App, b: App, msg: Message, e: Effect) -> bool {
    let normal = a.mode == InputMode::Normal;
    let saves = msg is Save || (normal && msg is Quit) || (a.mode == InputMode::Insert
        && msg is Escape);
    let loads = normal && a.left_pane == LeftPane::Topics && (msg is TopicDown || msg is TopicUp
        || msg is OpenLatest);
    if normal && msg is ToggleStatus {
        if a.opened is Some {
            e is Save
        } else {
            e is Nothing
        }
    } else if normal && msg is ToggleThread {
        match b.selected_topic_spec() {
            Some(t) => if b.left_pane == LeftPane::Notes {
                e matches Effect::LoadThread(s) && s@ == t
            } else {
                e is Nothing
            },
            None => e is Nothing,
        }
    } else if normal && msg is PullQuote {
        match a.opened {
            Some(o) => e matches Effect::LoadQuoteSource(s) && s@ == o.topic@,
            None => e is Nothing,
        }
    } else if normal && msg is ToggleSession {
        if a.session_deadline is None {
            e is StartSession
        } else {
            e is Nothing
        }
    } else if (normal && msg is StartSearch) || (a.mode == InputMode::Search && (
    msg is InsertChar || msg is Backspace)) {
        e matches Effect::Search(s) && s@ == b.query@
    } else if saves {
        if a.dirty {
            e is Save
        } else {
            e is Nothing
        }
    } else if loads {
        match b.selected_topic_spec() {
            Some(t) => e matches Effect::LoadLatest(s) && s@ == t,
            None => e is Nothing,
        }
    } else {
        e is Nothing
    }
}

/// How long a buffer may stay dirty before it is written on its own, in
/// milliseconds.
pub const AUTOSAVE_MS: u64 = 30000;

/// One tick of the autosave clock. `since` is when the open note became
/// dirty (milliseconds on a monotonic clock), `now` the time of this tick.
/// A clean buffer has no such time; a dirty one keeps the first time it was
/// seen dirty, and is due once `AUTOSAVE_MS` have passed since then, after
/// which the time starts over. Returns the new `since` and whether to save
/// now.
pub fn autosave_tick(dirty: bool, since: Option<u64>, now: u64) -> (r: (Option<u64>, bool))
    ensures
        !dirty ==> r == (None::<u64>, false),
        dirty ==> ({
            let start = match since {
                Some(t) => t,
                None => now,
            };
            if now >= start && now - start >= AUTOSAVE_MS {
                r == (None::<u64>, true)
            } else {
                r == (Some(start), false)
            }
        }),
{
    if !dirty {
        return (None, false);
    }
    let start = match since {
        Some(t) => t,
        None => now,
    };
    if now >= start && now - start >= AUTOSAVE_MS {
        (None, true)
    } else {
        (Some(start), false)
    }
}

/// `src` is the note a pull-quote into `own` takes from the notes `notes`
/// of its topic: what [`quote_source`] picks, or `own` itself when there
/// are no notes.
pub open spec fn quoted_from(notes: Seq<Note>, own: Note, src: Note) -> bool {
    if notes.len() == 0 {
        src == own
    } else if notes.filter(kept()).len() > 0 {
        exists|i: int| is_latest_index(notes.filter(kept()), i) && notes.filter(kept())[i] == src
    } else {
        exists|i: int| is_latest_index(notes, i) && notes[i] == src
    }
}

/// `body` with `quote` appended on a line of its own.
pub open spec fn with_quote(body: Seq<char>, quote: Seq<char>) -> Seq<char> {
    if body.len() > 0 && body.last() != '\n' {
        body.push('\n') + quote
    } else {
        body + quote
    }
}

/// Index of the first entry of `names` that reads `name`.
fn position_of(names: &Vec<String>, name: &String) -> (r: Option<usize>)
    ensures
        r matches Some(i) ==> i < names@.len() && names@[i as int]@ == name@ && forall|k: int|
            0 <= k < i ==> (#[trigger] names@[k])@ != name@,
        r is None ==> forall|k: int| 0 <= k < names@.len() ==> (#[trigger] names@[k])@ != name@,
{
    let mut i: usize = 0;
    while i < names.len()
        invariant
            i <= names@.len(),
            forall|k: int| 0 <= k < i ==> (#[trigger] names@[k])@ != name@,
        decreases names@.len() - i,
    {
        if names[i] == *name {
            return Some(i);
        }
        i = i + 1;
    }
    None
}

impl App {
    /// The model keeps its parts consistent: the highlight is on a topic (or
    /// 0 with none), Title mode has a prompt and only it, Insert mode has an
    /// open note, and cursors stay inside their text.
    pub open spec fn wf(&self) -> bool {
        &&& (self.topics@.len() > 0 ==> self.selected < self.topics@.len())
        &&& (self.topics@.len() == 0 ==> self.selected == 0)
        &&& (self.mode == InputMode::Title <==> self.prompt is Some)
        &&& (self.mode == InputMode::Insert ==> self.opened is Some)
        &&& (self.opened matches Some(n) ==> self.cursor <= n.body@.len())
        &&& (self.opened is None ==> self.cursor == 0 && !self.dirty)
        &&& (self.prompt matches Some(p) ==> p.cursor <= p.input@.len())
        &&& (self.thread@.len() > 0 ==> self.thread_selected < self.thread@.len())
        &&& (self.thread@.len() == 0 ==> self.thread_selected == 0)
        &&& (self.hits@.len() > 0 ==> self.hit < self.hits@.len())
        &&& (self.hits@.len() == 0 ==> self.hit == 0)
    }

    /// The highlighted topic, if any.
    pub open spec fn selected_topic_spec(&self) -> Option<Seq<char>> {
        if self.topics@.len() > 0 {
            Some(self.topics@[self.selected as int]@)
        } else {
            None
        }
    }

    /// A model over `store` with `topics` (most recent first), the first
    /// one highlighted, no note open, in Normal mode, with the topics pane,
    /// no search or session, and the default preferences (scratch notes
    /// shown in threads, sessions of `DEFAULT_SESSION_MINUTES`).
    pub fn new(store: Store, topics: Vec<String>) -> (app: App)
        ensures
            app.wf(),
            !app.should_quit,
            app.store == store,
            app.topics == topics,
            app.selected == 0,
            app.opened is None,
            app.mode == InputMode::Normal,
            !app.dirty,
            app.prompt is None,
            app.left_pane == LeftPane::Topics,
            app.thread@.len() == 0,
            app.query@.len() == 0,
            app.hits@.len() == 0,
            app.session_deadline is None,
            app.show_scratch,
            app.session_minutes == crate::config::DEFAULT_SESSION_MINUTES,
    {
        App {
            should_quit: false,
            store,
            topics,
            selected: 0,
            opened: None,
            cursor: 0,
            mode: InputMode::Normal,
            dirty: false,
            prompt: None,
            left_pane: LeftPane::Topics,
            thread: Vec::new(),
            thread_selected: 0,
            query: String::new(),
            hits: Vec::new(),
            hit: 0,
            session_deadline: None,
            show_scratch: true,
            session_minutes: crate::config::DEFAULT_SESSION_MINUTES,
        }
    }

    pub fn input_mode(&self) -> (m: InputMode)
        ensures
            m == self.mode,
    {
        self.mode
    }

    pub fn is_dirty(&self) -> (b: bool)
        ensures
            b == self.dirty,
    {
        self.dirty
    }

    /// The highlighted topic.
    pub fn selected_topic(&self) -> (t: Option<&str>)
        requires
            self.wf(),
        ensures
            t matches Some(s) ==> self.selected_topic_spec() == Some(s@),
            t is None ==> self.selected_topic_spec() is None,
    {
        if self.topics.len() > 0 {
            Some(self.topics[self.selected].as_str())
        } else {
            None
        }
    }

    /// Opens `note` (or closes the pane) with the cursor at the start of the
    /// body and nothing unsaved.
    pub fn show(&mut self, note: Option<Note>)
        requires
            old(self).wf(),
            old(self).mode != InputMode::Insert || note is Some,
        ensures
            final(self).wf(),
            *final(self) == (App { opened: note, cursor: 0, dirty: false, ..*old(self) }),
    {
        self.opened = note;
        self.cursor = 0;
        self.dirty = false;
    }

    /// Takes the latest note that an [`Effect::LoadLatest`] asked for: it is
    /// shown (see [`App::show`]), except that in Insert mode an absent note
    /// leaves the buffer being edited in place.
    pub fn show_latest(&mut self, note: Option<Note>)
        requires
            old(self).wf(),
        ensures
            final(self).wf(),
            old(self).mode == InputMode::Insert && note is None ==> *final(self) == *old(self),
            !(old(self).mode == InputMode::Insert && note is None) ==> *final(self) == (App {
                opened: note,
                cursor: 0,
                dirty: false,
                ..*old(self)
            }),
    {
        if self.mode != InputMode::Insert || note.is_some() {
            self.show(note);
        }
    }

    /// Bumps the open note's `updated` to `now` before it is written.
    pub fn stamp_for_save(&mut self, now: Timestamp)
        requires
            old(self).wf(),
        ensures
            final(self).wf(),
            old(self).opened is None ==> *final(self) == *old(self),
            old(self).opened matches Some(o) ==> *final(self) == (App {
                opened: Some(Note { updated: now, ..o }),
                ..*old(self)
            }),
    {
        if self.opened.is_some() {
            let mut note = self.opened.take().unwrap();
            note.updated = now;
            self.opened = Some(note);
        }
    }

    /// Reads the clock once and, when it gives an instant, bumps the open
    /// note's `updated` to it before the note is written; returns what the
    /// clock gave (see [`now`]). Which instant that is, is the clock's;
    /// with none, nothing changes.
    pub fn stamp_now(&mut self) -> (r: Option<Timestamp>)
        requires
            old(self).wf(),
        ensures
            final(self).wf(),
            r is None || old(self).opened is None ==> *final(self) == *old(self),
            r matches Some(t) ==> (old(self).opened matches Some(o) ==> *final(self) == (App {
                opened: Some(Note { updated: t, ..o }),
                ..*old(self)
            })),
    {
        let r = now();
        if let Some(t) = r {
            self.stamp_for_save(t);
        }
        r
    }

    /// Sets the preferences read from the configuration: whether threads
    /// list scratch notes, and how long a writing session is.
    pub fn configure(&mut self, show_scratch: bool, session_minutes: u64)
        requires
            old(self).wf(),
        ensures
            final(self).wf(),
            *final(self) == (App { show_scratch, session_minutes, ..*old(self) }),
    {
        self.show_scratch = show_scratch;
        self.session_minutes = session_minutes;
    }

    /// Takes the notes of the highlighted topic that an
    /// [`Effect::LoadThread`] asked for: the thread becomes their
    /// [`thread_list`] (oldest first, scratch notes only when shown), with
    /// its first note highlighted.
    pub fn set_thread(&mut self, notes: Vec<Note>)
        requires
            old(self).wf(),
        ensures
            final(self).wf(),
            *final(self) == (App { thread: final(self).thread, thread_selected: 0, ..*old(self) }),
            final(self).thread@.to_multiset() == notes@.filter(in_thread(old(self).show_scratch)).to_multiset(),
            notes_sorted(NoteOrder::OldestCreated, final(self).thread@),
            exists|perm: Seq<int>|
                stable_arrangement(
                    NoteOrder::OldestCreated,
                    notes@.filter(in_thread(old(self).show_scratch)),
                    final(self).thread@,
                    perm,
                ),
    {
        self.thread = thread_list(notes, self.show_scratch);
        self.thread_selected = 0;
    }

    /// Takes the hits that an [`Effect::Search`] asked for, the first one
    /// highlighted.
    pub fn set_hits(&mut self, hits: Vec<Note>)
        requires
            old(self).wf(),
        ensures
            final(self).wf(),
            *final(self) == (App { hits, hit: 0, ..*old(self) }),
    {
        self.hits = hits;
        self.hit = 0;
    }

    /// Starts a writing session at monotonic time `now` (milliseconds): it
    /// ends `session_minutes` later, unless that lies past the clock's
    /// range.
    pub fn start_session(&mut self, now: u64)
        requires
            old(self).wf(),
        ensures
            final(self).wf(),
            *final(self) == (App { session_deadline: final(self).session_deadline, ..*old(self) }),
            now + old(self).session_minutes * 60000 <= u64::MAX ==> final(self).session_deadline
                == Some((now + old(self).session_minutes * 60000) as u64),
            now + old(self).session_minutes * 60000 > u64::MAX ==> final(self).session_deadline
                is None,
    {
        self.session_deadline = session_deadline(now, self.session_minutes);
    }

    /// Takes the notes of the open note's topic that an
    /// [`Effect::LoadQuoteSource`] asked for and appends the pull-quote of
    /// their [`quote_source`] (the open note itself when there are none)
    /// to the open note, on a line of its own; the app is then in Insert
    /// mode at the end of the body, with unsaved edits. Nothing happens
    /// without an open note, or in Title or Search mode.
    pub fn pull_quote(&mut self, notes: Vec<Note>)
        requires
            old(self).wf(),
        ensures
            final(self).wf(),
            old(self).opened is None || old(self).mode == InputMode::Title || old(self).mode
                == InputMode::Search ==> *final(self) == *old(self),
            old(self).opened matches Some(o) ==> (old(self).mode == InputMode::Normal
                || old(self).mode == InputMode::Insert ==> {
                &&& *final(self) == (App {
                    opened: final(self).opened,
                    cursor: final(self).cursor,
                    mode: InputMode::Insert,
                    dirty: true,
                    ..*old(self)
                })
                &&& final(self).opened matches Some(n) && n == (Note { body: n.body, ..o })
                    && final(self).cursor == n.body@.len() && exists|src: Note|
                    #[trigger] quoted_from(notes@, o, src) && n.body@ == with_quote(
                    o.body@,
                    quote_of(utc_date_text(src.created.secs, src.created.nanos), src.body@),
                )
            }),
    {
        if self.opened.is_none() || self.mode == InputMode::Title || self.mode == InputMode::Search {
            return;
        }
        let mut note = self.opened.take().unwrap();
        let ghost o = note;
        let ghost all = notes@;
        let any = notes.len() > 0;
        let src = quote_source(notes);
        let block = match &src {
            Some(s) => quote_block(s),
            None => quote_block(&note),
        };
        let ghost witness = match src {
            Some(s) => s,
            None => o,
        };
        assert(quoted_from(all, o, witness));
        let chars = chars_of(note.body.as_str());
        if chars.len() > 0 && chars[chars.len() - 1] != '\n' {
            string_push(&mut note.body, '\n');
        }
        push_str(&mut note.body, block.as_str());
        self.cursor = editor::char_len(note.body.as_str());
        self.opened = Some(note);
        self.dirty = true;
        self.mode = InputMode::Insert;
    }

    /// The open note is on disk.
    pub fn saved(&mut self)
        requires
            old(self).wf(),
        ensures
            final(self).wf(),
            *final(self) == (App { dirty: false, ..*old(self) }),
    {
        self.dirty = false;
    }

    /// Replaces the topic list (after a write). The highlight goes to the
    /// open note's topic when it is listed, else stays where it was, moved
    /// back onto the list if the list got shorter.
    pub fn set_topics(&mut self, topics: Vec<String>)
        requires
            old(self).wf(),
        ensures
            final(self).wf(),
            final(self).topics == topics,
            *final(self) == (App { topics: final(self).topics, selected: final(self).selected, ..*old(self) }),
            (old(self).opened matches Some(n) && exists|i: int|
                0 <= i < topics@.len() && #[trigger] topics@[i]@ == n.topic@) ==> (old(self).opened matches Some(n)
                && topics@[final(self).selected as int]@ == n.topic@ && forall|k: int|
                0 <= k < final(self).selected ==> (#[trigger] topics@[k])@ != n.topic@),
            !(old(self).opened matches Some(n) && exists|i: int|
                0 <= i < topics@.len() && #[trigger] topics@[i]@ == n.topic@) ==> final(self).selected == (
                if topics@.len() == 0 {
                    0
                } else if old(self).selected < topics@.len() {
                    old(self).selected as int
                } else {
                    topics@.len() - 1
                }),
    {
        let found = match &self.opened {
            Some(note) => position_of(&topics, &note.topic),
            None => None,
        };
        let selected = match found {
            Some(i) => i,
            None => if topics.len() == 0 {
                0
            } else if self.selected < topics.len() {
                self.selected
            } else {
                topics.len() - 1
            },
        };
        self.topics = topics;
        self.selected = selected;
    }

    /// Applies one message to the model (see [`normal_update`],
    /// [`insert_update`], [`title_update`], [`search_update`]), with
    /// `clock` as the current instant, and says what outside work it needs
    /// ([`update_effect`]).
    pub fn apply_at(&mut self, msg: Message, clock: Option<Timestamp>) -> (e: Effect)
        requires
            old(self).wf(),
        ensures
            final(self).wf(),
            old(self).mode == InputMode::Normal ==> normal_update(*old(self), *final(self), msg),
            old(self).mode == InputMode::Insert ==> insert_update(*old(self), *final(self), msg),
            old(self).mode == InputMode::Title ==> title_update(*old(self), *final(self), msg, clock),
            old(self).mode == InputMode::Search ==> search_update(*old(self), *final(self), msg),
            update_effect(*old(self), *final(self), msg, e),
            old(self).mode == InputMode::Normal && old(self).left_pane == LeftPane::Notes && (
            msg is TopicDown || msg is TopicUp) ==> {
                &&& final(self).thread_selected == if msg is TopicDown {
                    if old(self).thread_selected + 1 < old(self).thread@.len() {
                        old(self).thread_selected + 1
                    } else {
                        old(self).thread_selected as int
                    }
                } else if old(self).thread_selected > 0 {
                    old(self).thread_selected - 1
                } else {
                    old(self).thread_selected as int
                }
                &&& final(self).thread == old(self).thread
                &&& final(self).selected == old(self).selected
                &&& final(self).opened == old(self).opened
            },
            old(self).mode == InputMode::Normal && old(self).left_pane == LeftPane::Notes
                && msg is OpenLatest && old(self).thread@.len() > 0 ==> final(self).opened == Some(
                old(self).thread@[old(self).thread_selected as int],
            ),
    {
        let thread_len = self.thread.len();
        assert(old(self).thread@.len() == thread_len);
        let mode = self.mode;
        let was_dirty = self.dirty;
        let pane = self.left_pane;
        let had_note = self.opened.is_some();
        let had_session = self.session_deadline.is_some();
        match mode {
            InputMode::Normal => self.apply_normal(msg),
            InputMode::Insert => self.apply_insert(msg),
            InputMode::Title => self.apply_title(msg, clock),
            InputMode::Search => self.apply_search(msg),
        }
        let normal = mode == InputMode::Normal;
        let saves = match msg {
            Message::Save => true,
            Message::Quit => normal,
            Message::Escape => mode == InputMode::Insert,
            _ => false,
        };
        let loads = normal && pane == LeftPane::Topics && match msg {
            Message::TopicDown | Message::TopicUp | Message::OpenLatest => true,
            _ => false,
        };
        let searches = match msg {
            Message::StartSearch => normal,
            Message::InsertChar(_) | Message::Backspace => mode == InputMode::Search,
            _ => false,
        };
        if normal && msg == Message::ToggleStatus {
            if had_note {
                Effect::Save
            } else {
                Effect::Nothing
            }
        } else if normal && msg == Message::ToggleThread {
            if self.left_pane == LeftPane::Notes {
                match self.selected_topic() {
                    Some(t) => Effect::LoadThread(t.to_owned()),
                    None => Effect::Nothing,
                }
            } else {
                Effect::Nothing
            }
        } else if normal && msg == Message::PullQuote {
            match &self.opened {
                Some(o) => Effect::LoadQuoteSource(o.topic.clone()),
                None => Effect::Nothing,
            }
        } else if normal && msg == Message::ToggleSession {
            if had_session {
                Effect::Nothing
            } else {
                Effect::StartSession
            }
        } else if searches {
            Effect::Search(self.query.clone())
        } else if saves {
            if was_dirty {
                Effect::Save
            } else {
                Effect::Nothing
            }
        } else if loads {
            match self.selected_topic() {
                Some(t) => Effect::LoadLatest(t.to_owned()),
                None => Effect::Nothing,
            }
        } else {
            Effect::Nothing
        }
    }

    /// Applies one message to the model, as [`App::apply_at`] does with the
    /// system clock's instant (see [`now`]); the clock is read only where
    /// the update uses it ([`reads_clock`]). Which instant it gives is the
    /// clock's.
    pub fn apply(&mut self, msg: Message) -> (e: Effect)
        requires
            old(self).wf(),
        ensures
            final(self).wf(),
            old(self).mode == InputMode::Normal ==> normal_update(*old(self), *final(self), msg),
            old(self).mode == InputMode::Insert ==> insert_update(*old(self), *final(self), msg),
            old(self).mode == InputMode::Title && !reads_clock(*old(self), msg) ==> title_update(
                *old(self),
                *final(self),
                msg,
                None,
            ),
            reads_clock(*old(self), msg) ==> exists|c: Option<Timestamp>|
                #[trigger] title_update(*old(self), *final(self), msg, c),
            old(self).mode == InputMode::Search ==> search_update(*old(self), *final(self), msg),
            update_effect(*old(self), *final(self), msg, e),
            old(self).mode == InputMode::Normal && old(self).left_pane == LeftPane::Notes && (
            msg is TopicDown || msg is TopicUp) ==> {
                &&& final(self).thread_selected == if msg is TopicDown {
                    if old(self).thread_selected + 1 < old(self).thread@.len() {
                        old(self).thread_selected + 1
                    } else {
                        old(self).thread_selected as int
                    }
                } else if old(self).thread_selected > 0 {
                    old(self).thread_selected - 1
                } else {
                    old(self).thread_selected as int
                }
                &&& final(self).thread == old(self).thread
                &&& final(self).selected == old(self).selected
                &&& final(self).opened == old(self).opened
            },
            old(self).mode == InputMode::Normal && old(self).left_pane == LeftPane::Notes
                && msg is OpenLatest && old(self).thread@.len() > 0 ==> final(self).opened == Some(
                old(self).thread@[old(self).thread_selected as int],
            ),
    {
        let reads = match msg {
            Message::Submit => match &self.prompt {
                Some(p) => self.mode == InputMode::Title && p.step == TitleStep::Title,
                None => false,
            },
            _ => false,
        };
        let clock = if reads {
            now()
        } else {
            None
        };
        let ghost a = *self;
        let e = self.apply_at(msg, clock);
        proof {
            assert(title_update(a, *self, msg, clock) || a.mode != InputMode::Title);
        }
        e
    }

    fn apply_normal(&mut self, msg: Message)
        requires
            old(self).wf(),
            old(self).mode == InputMode::Normal,
        ensures
            final(self).wf(),
            normal_update(*old(self), *final(self), msg),
    {
        match msg {
            Message::Quit => {
                self.should_quit = true;
            },
            Message::TopicDown => {
                if self.left_pane == LeftPane::Notes {
                    if self.thread.len() > 0 && self.thread_selected < self.thread.len() - 1 {
                        self.thread_selected = self.thread_selected + 1;
                    }
                } else if self.topics.len() > 0 && self.selected < self.topics.len() - 1 {
                    self.selected = self.selected + 1;
                }
            },
            Message::TopicUp => {
                if self.left_pane == LeftPane::Notes {
                    if self.thread_selected > 0 {
                        self.thread_selected = self.thread_selected - 1;
                    }
                } else if self.selected > 0 {
                    self.selected = self.selected - 1;
                }
            },
            Message::OpenLatest => {
                if self.left_pane == LeftPane::Notes && self.thread.len() > 0 {
                    let note = self.thread[self.thread_selected].duplicate();
                    self.opened = Some(note);
                    self.cursor = 0;
                    self.dirty = false;
                }
            },
            Message::EnterInsert => {
                if self.opened.is_some() {
                    self.mode = InputMode::Insert;
                }
            },
            Message::EnterInsertAppend => {
                match &self.opened {
                    Some(n) => {
                        let len = crate::editor::char_len(n.body.as_str());
                        self.cursor = len;
                        self.mode = InputMode::Insert;
                    },
                    None => {},
                }
            },
            Message::ToggleThread => {
                self.left_pane = match self.left_pane {
                    LeftPane::Topics => LeftPane::Notes,
                    LeftPane::Notes => LeftPane::Topics,
                };
                self.thread_selected = 0;
            },
            Message::ToggleStatus => {
                if self.opened.is_some() {
                    let mut note = self.opened.take().unwrap();
                    note.status = match note.status {
                        Status::Scratch => Status::Keep,
                        Status::Keep => Status::Scratch,
                    };
                    self.opened = Some(note);
                }
            },
            Message::StartSearch => {
                self.mode = InputMode::Search;
                self.query = String::new();
                self.hits = Vec::new();
                self.hit = 0;
            },
            Message::ToggleSession => {
                self.session_deadline = None;
            },
            Message::StartNewNote => {
                let input = match self.selected_topic() {
                    Some(t) => t.to_owned(),
                    None => String::new(),
                };
                let cursor = crate::editor::char_len(input.as_str());
                self.prompt = Some(
                    TitlePrompt {
                        step: TitleStep::Topic,
                        input,
                        cursor,
                        topic: String::new(),
                        error: None,
                    },
                );
                self.mode = InputMode::Title;
            },
            _ => {},
        }
    }

    fn apply_search(&mut self, msg: Message)
        requires
            old(self).wf(),
            old(self).mode == InputMode::Search,
        ensures
            final(self).wf(),
            search_update(*old(self), *final(self), msg),
    {
        match msg {
            Message::InsertChar(c) => {
                if can_grow(&self.query, c) {
                    let mut cursor = editor::char_len(self.query.as_str());
                    editor::insert_char(&mut self.query, &mut cursor, c);
                    proof {
                        assert(old(self).query@.take(old(self).query@.len() as int) =~= old(self).query@);
                        assert(old(self).query@.skip(old(self).query@.len() as int) =~= Seq::<char>::empty());
                        assert(self.query@ =~= old(self).query@.push(c));
                    }
                }
            },
            Message::Backspace => {
                let mut cursor = editor::char_len(self.query.as_str());
                editor::backspace(&mut self.query, &mut cursor);
            },
            Message::MoveDown => {
                if self.hits.len() > 0 && self.hit < self.hits.len() - 1 {
                    self.hit = self.hit + 1;
                }
            },
            Message::MoveUp => {
                if self.hit > 0 {
                    self.hit = self.hit - 1;
                }
            },
            Message::Submit => {
                if self.hits.len() > 0 {
                    let note = self.hits[self.hit].duplicate();
                    let ghost topics = self.topics@;
                    match position_of(&self.topics, &note.topic) {
                        Some(i) => {
                            self.selected = i;
                        },
                        None => {},
                    }
                    self.opened = Some(note);
                    self.cursor = 0;
                    self.dirty = false;
                    self.mode = InputMode::Normal;
                    self.left_pane = LeftPane::Topics;
                    self.query = String::new();
                    self.hits = Vec::new();
                    self.hit = 0;
                }
            },
            Message::Escape => {
                self.mode = InputMode::Normal;
                self.query = String::new();
                self.hits = Vec::new();
                self.hit = 0;
            },
            _ => {},
        }
    }

    fn apply_insert(&mut self, msg: Message)
        requires
            old(self).wf(),
            old(self).mode == InputMode::Insert,
        ensures
            final(self).wf(),
            insert_update(*old(self), *final(self), msg),
    {
        let typed_char = match msg {
            Message::InsertChar(c) => Some(c),
            Message::Newline => Some('\n'),
            _ => None,
        };
        if let Some(c) = typed_char {
            let mut note = self.opened.take().unwrap();
            if can_grow(&note.body, c) {
                editor::insert_char(&mut note.body, &mut self.cursor, c);
                self.dirty = true;
            }
            self.opened = Some(note);
            return;
        }
        match msg {
            Message::Backspace => {
                let mut note = self.opened.take().unwrap();
                let before = self.cursor;
                let len = editor::char_len(note.body.as_str());
                editor::backspace(&mut note.body, &mut self.cursor);
                if before > 0 && len > 0 {
                    self.dirty = true;
                }
                self.opened = Some(note);
            },
            Message::MoveLeft | Message::MoveRight | Message::MoveUp | Message::MoveDown
            | Message::Home | Message::End => {
                let note = self.opened.take().unwrap();
                let body = note.body.as_str();
                match msg {
                    Message::MoveLeft => editor::move_left(body, &mut self.cursor),
                    Message::MoveRight => editor::move_right(body, &mut self.cursor),
                    Message::MoveUp => editor::move_up(body, &mut self.cursor),
                    Message::MoveDown => editor::move_down(body, &mut self.cursor),
                    Message::Home => editor::home(body, &mut self.cursor),
                    _ => editor::end(body, &mut self.cursor),
                }
                proof {
                    crate::editor::law_moves_stay_in_buffer(note.body@, old(self).cursor as int);
                }
                self.opened = Some(note);
            },
            Message::Escape => {
                self.mode = InputMode::Normal;
            },
            _ => {},
        }
    }

    fn apply_title(&mut self, msg: Message, clock: Option<Timestamp>)
        requires
            old(self).wf(),
            old(self).mode == InputMode::Title,
        ensures
            final(self).wf(),
            title_update(*old(self), *final(self), msg, clock),
    {
        match msg {
            Message::InsertChar(c) => {
                let mut p = self.prompt.take().unwrap();
                if can_grow(&p.input, c) {
                    editor::insert_char(&mut p.input, &mut p.cursor, c);
                    p.error = None;
                }
                self.prompt = Some(p);
            },
            Message::Backspace => {
                let mut p = self.prompt.take().unwrap();
                editor::backspace(&mut p.input, &mut p.cursor);
                p.error = None;
                self.prompt = Some(p);
            },
            Message::MoveLeft | Message::MoveRight | Message::Home | Message::End => {
                let mut p = self.prompt.take().unwrap();
                match msg {
                    Message::MoveLeft => editor::move_left(p.input.as_str(), &mut p.cursor),
                    Message::MoveRight => editor::move_right(p.input.as_str(), &mut p.cursor),
                    Message::Home => editor::home(p.input.as_str(), &mut p.cursor),
                    _ => editor::end(p.input.as_str(), &mut p.cursor),
                }
                proof {
                    crate::editor::law_moves_stay_in_buffer(p.input@, old(self).prompt->0.cursor as int);
                }
                self.prompt = Some(p);
            },
            Message::Escape => {
                self.prompt = None;
                self.mode = InputMode::Normal;
            },
            Message::Submit => {
                let mut p = self.prompt.take().unwrap();
                match p.step {
                    TitleStep::Topic => {
                        if validate_topic(p.input.as_str()).is_ok() {
                            self.prompt = Some(
                                TitlePrompt {
                                    step: TitleStep::Title,
                                    input: String::new(),
                                    cursor: 0,
                                    topic: p.input,
                                    error: None,
                                },
                            );
                        } else {
                            let mut err = "invalid topic name: ".to_owned();
                            push_str(&mut err, p.input.as_str());
                            p.error = Some(err);
                            self.prompt = Some(p);
                        }
                    },
                    TitleStep::Title => match clock {
                        Some(t) => {
                            let body = starter_body();
                            let note = Note::new_at(p.topic.as_str(), p.input.as_str(), body, t);
                            self.cursor = editor::char_len(body);
                            self.opened = Some(note);
                            self.dirty = true;
                            self.mode = InputMode::Insert;
                        },
                        None => {
                            p.error = Some("system clock is before 1970".to_owned());
                            self.prompt = Some(p);
                        },
                    },
                }
            },
            _ => {},
        }
    }

} // impl App

/// Esc always ends in Normal mode, and from Title it drops the prompt
/// without creating a note, and from Search it opens nothing.
pub proof fn law_escape_returns_to_normal(a: App, b: App)
    requires
        a.wf(),
        a.mode == InputMode::Normal ==> normal_update(a, b, Message::Escape),
        a.mode == InputMode::Insert ==> insert_update(a, b, Message::Escape),
        a.mode == InputMode::Title ==> title_update(a, b, Message::Escape, None),
        a.mode == InputMode::Search ==> search_update(a, b, Message::Escape),
    ensures
        b.mode == InputMode::Normal,
        b.prompt is None,
        b.opened == a.opened,
{
}

/// Save (Ctrl-S) never changes the model, whatever the mode, and asks for
/// a write exactly when there are unsaved edits.
pub proof fn law_save_keeps_mode(a: App, b: App, e: Effect)
    requires
        a.wf(),
        a.mode == InputMode::Normal ==> normal_update(a, b, Message::Save),
        a.mode == InputMode::Insert ==> insert_update(a, b, Message::Save),
        a.mode == InputMode::Title ==> title_update(a, b, Message::Save, None),
        a.mode == InputMode::Search ==> search_update(a, b, Message::Save),
        update_effect(a, b, Message::Save, e),
    ensures
        b == a,
        e is Save <==> a.dirty,
{
}

/// In the thread pane `j` and `k` move the highlight by one among the
/// thread's notes, stop at the ends, and change nothing else.
pub proof fn law_thread_selection_clamps(a: App, b: App, down: bool)
    requires
        a.wf(),
        a.thread@.len() <= usize::MAX,
        a.mode == InputMode::Normal,
        a.left_pane == LeftPane::Notes,
        normal_update(a, b, if down { Message::TopicDown } else { Message::TopicUp }),
    ensures
        a.thread@.len() > 0 ==> b.thread_selected < a.thread@.len(),
        down && a.thread_selected + 1 < a.thread@.len() ==> b.thread_selected == a.thread_selected + 1,
        down && a.thread_selected + 1 >= a.thread@.len() ==> b.thread_selected == a.thread_selected,
        !down && a.thread_selected > 0 ==> b.thread_selected == a.thread_selected - 1,
        !down && a.thread_selected == 0 ==> b.thread_selected == 0,
        b.selected == a.selected,
        b.thread == a.thread,
        b.opened == a.opened,
{
}

/// In the topics pane the highlight moves by one, stops at the ends, and
/// stays on a topic.
pub proof fn law_selection_clamps(a: App, b: App, down: bool)
    requires
        a.wf(),
        a.topics@.len() <= usize::MAX,
        a.mode == InputMode::Normal,
        a.left_pane == LeftPane::Topics,
        normal_update(a, b, if down { Message::TopicDown } else { Message::TopicUp }),
    ensures
        a.topics@.len() > 0 ==> b.selected < a.topics@.len(),
        down && a.selected + 1 < a.topics@.len() ==> b.selected == a.selected + 1,
        down && a.selected + 1 >= a.topics@.len() ==> b.selected == a.selected,
        !down && a.selected > 0 ==> b.selected == a.selected - 1,
        !down && a.selected == 0 ==> b.selected == 0,
{
}

} // verus!
