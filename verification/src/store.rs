//! The store's rules: which topic names are allowed, where notes live,
//! how topics and notes are ordered, which note is the latest, what a search
//! finds, and which file name a new note gets. The file system itself is
//! the application's.

use vstd::prelude::*;
use crate::clock::{earlier, format_date, utc_date_text, writable, Timestamp};
use crate::config::{digit_value, digits_value, join_path, joined};
use crate::error::Error;
use crate::note::{note_matches, slug_of, slugify, Note, Status};
use crate::order::{lemma_seq_lt_transitive, lemma_seq_lt_trichotomy, seq_lt, str_lt};
use crate::text::{chars_of, string_of_span};
use crate::sort::{stable_by, stable_sort, Ranking};

verus! {

broadcast use vstd::seq_lib::group_to_multiset_ensures, vstd::multiset::group_multiset_axioms;

/// A topic is a single directory name: not empty, not hidden (which also
/// rules out `.` and `..`), and without `/`, `\` or NUL.
pub open spec fn topic_ok(topic: Seq<char>) -> bool {
    &&& topic.len() > 0
    &&& topic[0] != '.'
    &&& forall|i: int|
        0 <= i < topic.len() ==> #[trigger] topic[i] != '/' && topic[i] != '\\' && topic[i]
            != '\0'
}

/// Accepts a valid topic name; anything else is `InvalidTopic`.
pub fn validate_topic(topic: &str) -> (r: Result<(), Error>)
    ensures
        r is Ok <==> topic_ok(topic@),
        r is Ok <==> (topic@.len() > 0 && topic@[0] != '.' && forall|i: int|
            0 <= i < topic@.len() ==> topic@[i] != '/' && topic@[i] != '\\' && topic@[i] != '\0'),
        r matches Err(e) ==> e matches Error::InvalidTopic(t) && t@ == topic@,
{
    let v = chars_of(topic);
    let mut ok = v.len() > 0 && v[0] != '.';
    let mut i: usize = 0;
    while ok && i < v.len()
        invariant
            v@ == topic@,
            i <= v@.len(),
            ok ==> v@.len() > 0 && v@[0] != '.',
            ok ==> forall|j: int|
                0 <= j < i ==> #[trigger] v@[j] != '/' && v@[j] != '\\' && v@[j] != '\0',
            !ok ==> !topic_ok(topic@),
        decreases v@.len() - i,
    {
        let c = v[i];
        if c == '/' || c == '\\' || c == '\0' {
            ok = false;
        }
        i = i + 1;
    }
    if ok {
        Ok(())
    } else {
        Err(Error::InvalidTopic(topic.to_owned()))
    }
}

/// A store rooted at a notes directory.
pub struct Store {
    notes_dir: String,
}

impl Store {
    /// The store rooted at `notes_dir` (creating the directory is the
    /// application's part).
    pub fn new(notes_dir: String) -> (s: Store)
        ensures
            s.root() == notes_dir@,
    {
        Store { notes_dir }
    }

    /// The notes directory.
    pub closed spec fn root(&self) -> Seq<char> {
        self.notes_dir@
    }

    pub fn notes_dir(&self) -> (d: &str)
        ensures
            d@ == self.root(),
    {
        self.notes_dir.as_str()
    }

    /// `path` as the store reads it: an absolute path as it is, a relative
    /// one under the notes directory.
    pub fn resolve(&self, path: &str) -> (p: String)
        ensures
            p@ == joined(self.root(), path@),
    {
        join_path(self.notes_dir.as_str(), path)
    }

    /// The directory of a topic.
    pub fn topic_dir(&self, topic: &str) -> (p: String)
        ensures
            p@ == joined(self.root(), topic@),
    {
        join_path(self.notes_dir.as_str(), topic)
    }
}

/// Which instant of a note an order goes by.
#[derive(Debug, Clone, Copy, PartialEq, Eq, Structural)]
pub enum NoteOrder {
    /// Newest `created` first (the notes of a topic).
    NewestCreated,
    /// Newest `updated` first (search hits).
    NewestUpdated,
    /// Oldest `created` first (the thread of a topic).
    OldestCreated,
}

pub open spec fn order_key(order: NoteOrder, n: Note) -> Timestamp {
    match order {
        NoteOrder::NewestCreated => n.created,
        NoteOrder::NewestUpdated => n.updated,
        NoteOrder::OldestCreated => n.created,
    }
}

/// The instant of `a` comes strictly first in `order`.
pub open spec fn key_first(order: NoteOrder, a: Note, b: Note) -> bool {
    match order {
        NoteOrder::OldestCreated => earlier(order_key(order, a), order_key(order, b)),
        _ => earlier(order_key(order, b), order_key(order, a)),
    }
}

/// `a` comes strictly before `b`: by the order's instant (later first, or
/// earlier first for `OldestCreated`), then the title in ascending order.
pub open spec fn note_before(order: NoteOrder, a: Note, b: Note) -> bool {
    ||| key_first(order, a, b)
    ||| (order_key(order, a) == order_key(order, b) && seq_lt(a.title@, b.title@))
}

/// No note comes after one that it should precede.
pub open spec fn notes_sorted(order: NoteOrder, s: Seq<Note>) -> bool {
    forall|i: int, j: int| 0 <= i < j < s.len() ==> !note_before(order, #[trigger] s[j], #[trigger] s[i])
}

proof fn lemma_note_before_order(order: NoteOrder, a: Note, b: Note, c: Note)
    ensures
        !(note_before(order, a, b) && note_before(order, b, a)),
        note_before(order, a, b) && note_before(order, b, c) ==> note_before(order, a, c),
        note_before(order, a, b) && !note_before(order, c, b) ==> note_before(order, a, c),
{
    lemma_seq_lt_trichotomy(a.title@, b.title@);
    lemma_seq_lt_trichotomy(b.title@, c.title@);
    lemma_seq_lt_trichotomy(a.title@, c.title@);
    if seq_lt(a.title@, b.title@) && seq_lt(b.title@, c.title@) {
        lemma_seq_lt_transitive(a.title@, b.title@, c.title@);
    }
}

/// `perm` says where each note of `out` came from in `input` (each input
/// position at most once), and notes that rank equally keep their input
/// order.
pub open spec fn stable_arrangement(
    order: NoteOrder,
    input: Seq<Note>,
    out: Seq<Note>,
    perm: Seq<int>,
) -> bool {
    &&& perm.len() == out.len()
    &&& forall|i: int| 0 <= i < out.len() ==> 0 <= #[trigger] perm[i] < input.len() && out[i] == input[perm[i]]
    &&& forall|i: int, j: int| 0 <= i < j < out.len() ==> #[trigger] perm[i] != #[trigger] perm[j]
    &&& forall|i: int, j: int|
        0 <= i < j < out.len() && !note_before(order, out[i], out[j]) ==> #[trigger] perm[i]
            < #[trigger] perm[j]
}

fn note_is_before(order: NoteOrder, a: &Note, b: &Note) -> (r: bool)
    ensures
        r == note_before(order, *a, *b),
{
    let (ka, kb) = match order {
        NoteOrder::NewestCreated => (a.created, b.created),
        NoteOrder::NewestUpdated => (a.updated, b.updated),
        NoteOrder::OldestCreated => (a.created, b.created),
    };
    let first = match order {
        NoteOrder::OldestCreated => ka.is_before(&kb),
        _ => kb.is_before(&ka),
    };
    if first {
        return true;
    }
    if ka == kb {
        return str_lt(a.title.as_str(), b.title.as_str());
    }
    false
}

impl Ranking<Note> for NoteOrder {
    open spec fn precedes(&self, a: Note, b: Note) -> bool {
        note_before(*self, a, b)
    }

    fn is_before(&self, a: &Note, b: &Note) -> (r: bool) {
        note_is_before(*self, a, b)
    }

    proof fn lemma_order(&self, a: Note, b: Note, c: Note) {
        lemma_note_before_order(*self, a, b, c);
    }
}

/// What sorted notes look like on their fields: newest `updated` (or
/// `created`) first for the newest-first orders, oldest `created` first for
/// the thread, and notes with the same instant by title.
pub proof fn law_sorted_notes_by_field(order: NoteOrder, s: Seq<Note>)
    requires
        notes_sorted(order, s),
    ensures
        order == NoteOrder::NewestUpdated ==> forall|i: int, j: int|
            0 <= i < j < s.len() ==> {
                let (a, b) = (#[trigger] s[i], #[trigger] s[j]);
                &&& b.updated.secs < a.updated.secs || (b.updated.secs == a.updated.secs
                    && b.updated.nanos <= a.updated.nanos)
                &&& a.updated == b.updated ==> !seq_lt(b.title@, a.title@)
            },
        order == NoteOrder::NewestCreated ==> forall|i: int, j: int|
            0 <= i < j < s.len() ==> {
                let (a, b) = (#[trigger] s[i], #[trigger] s[j]);
                &&& b.created.secs < a.created.secs || (b.created.secs == a.created.secs
                    && b.created.nanos <= a.created.nanos)
                &&& a.created == b.created ==> !seq_lt(b.title@, a.title@)
            },
        order == NoteOrder::OldestCreated ==> forall|i: int, j: int|
            0 <= i < j < s.len() ==> {
                let (a, b) = (#[trigger] s[i], #[trigger] s[j]);
                &&& a.created.secs < b.created.secs || (a.created.secs == b.created.secs
                    && a.created.nanos <= b.created.nanos)
                &&& a.created == b.created ==> !seq_lt(b.title@, a.title@)
            },
{
    assert forall|i: int, j: int| 0 <= i < j < s.len() implies !note_before(order, #[trigger] s[j], #[trigger] s[i]) by {}
}

/// Stable sort of notes by `order`.
pub fn sort_notes(notes: Vec<Note>, order: NoteOrder) -> (out: Vec<Note>)
    ensures
        out@.to_multiset() == notes@.to_multiset(),
        notes_sorted(order, out@),
        exists|perm: Seq<int>| stable_arrangement(order, notes@, out@, perm),
        order == NoteOrder::NewestCreated ==> forall|i: int, j: int|
            0 <= i < j < out@.len() ==> {
                let (a, b) = (#[trigger] out@[i], #[trigger] out@[j]);
                &&& b.created.secs < a.created.secs || (b.created.secs == a.created.secs
                    && b.created.nanos <= a.created.nanos)
                &&& a.created == b.created ==> !seq_lt(b.title@, a.title@)
            },
        order == NoteOrder::NewestUpdated ==> forall|i: int, j: int|
            0 <= i < j < out@.len() ==> {
                let (a, b) = (#[trigger] out@[i], #[trigger] out@[j]);
                &&& b.updated.secs < a.updated.secs || (b.updated.secs == a.updated.secs
                    && b.updated.nanos <= a.updated.nanos)
                &&& a.updated == b.updated ==> !seq_lt(b.title@, a.title@)
            },
{
    let out = stable_sort(notes, &order);
    proof {
        law_sorted_notes_by_field(order, out@);
        let perm = choose|perm: Seq<int>| stable_by(order, notes@, out@, perm);
        assert(stable_arrangement(order, notes@, out@, perm));
    }
    out
}

/// `a` is strictly newer than `b`: later `updated`, then later `created`.
pub open spec fn newer(a: Note, b: Note) -> bool {
    ||| earlier(b.updated, a.updated)
    ||| (a.updated == b.updated && earlier(b.created, a.created))
}

/// `i` is the first index of a newest note of `s`.
pub open spec fn is_latest_index(s: Seq<Note>, i: int) -> bool {
    &&& 0 <= i < s.len()
    &&& forall|j: int| 0 <= j < s.len() ==> !newer(#[trigger] s[j], s[i])
    &&& forall|j: int| 0 <= j < i ==> newer(s[i], #[trigger] s[j])
}

fn is_newer(a: &Note, b: &Note) -> (r: bool)
    ensures
        r == newer(*a, *b),
{
    b.updated.is_before(&a.updated) || (a.updated == b.updated && b.created.is_before(&a.created))
}

/// The most recently updated note (ties: most recently created, then the
/// first in `notes`); `None` for no notes.
pub fn latest_of(notes: Vec<Note>) -> (r: Option<Note>)
    ensures
        r is None <==> notes@.len() == 0,
        r matches Some(n) ==> exists|i: int| is_latest_index(notes@, i) && notes@[i] == n,
        r matches Some(n) ==> forall|j: int|
            0 <= j < notes@.len() ==> {
                let m = #[trigger] notes@[j];
                &&& m.updated.secs < n.updated.secs || (m.updated.secs == n.updated.secs
                    && m.updated.nanos <= n.updated.nanos)
                &&& m.updated == n.updated ==> (m.created.secs < n.created.secs || (
                m.created.secs == n.created.secs && m.created.nanos <= n.created.nanos))
            },
{
    if notes.len() == 0 {
        return None;
    }
    let mut best: usize = 0;
    let mut i: usize = 1;
    while i < notes.len()
        invariant
            1 <= i <= notes@.len(),
            best < i,
            forall|j: int| 0 <= j < i ==> !newer(#[trigger] notes@[j], notes@[best as int]),
            forall|j: int| 0 <= j < best ==> newer(notes@[best as int], #[trigger] notes@[j]),
        decreases notes@.len() - i,
    {
        if is_newer(&notes[i], &notes[best]) {
            best = i;
        }
        i = i + 1;
    }
    let mut notes = notes;
    let ghost s = notes@;
    let n = notes.remove(best);
    assert(is_latest_index(s, best as int));
    Some(n)
}

/// What a search finds among `notes`: the matching ones (see
/// [`note_matches`]), newest `updated` first, then by title.
pub open spec fn is_hit(query: Seq<char>) -> spec_fn(Note) -> bool {
    |n: Note| note_matches(n.title@, n.body@, n.topic@, query)
}

/// The note at `i` is the latest of `s` exactly in this sense: no note was
/// updated after it, and none updated at the same instant was created
/// after it.
pub proof fn law_latest_is_most_recently_updated(s: Seq<Note>, i: int)
    requires
        is_latest_index(s, i),
    ensures
        forall|j: int|
            0 <= j < s.len() ==> {
                let (m, n) = (#[trigger] s[j], s[i]);
                &&& m.updated.secs < n.updated.secs || (m.updated.secs == n.updated.secs
                    && m.updated.nanos <= n.updated.nanos)
                &&& m.updated == n.updated ==> (m.created.secs < n.created.secs || (
                m.created.secs == n.created.secs && m.created.nanos <= n.created.nanos))
            },
{
    assert forall|j: int| 0 <= j < s.len() implies !newer(#[trigger] s[j], s[i]) by {}
}

/// The notes that match `query`, newest `updated` first, then by title.
pub fn search_hits(notes: Vec<Note>, query: &str) -> (out: Vec<Note>)
    ensures
        out@.to_multiset() == notes@.filter(is_hit(query@)).to_multiset(),
        notes_sorted(NoteOrder::NewestUpdated, out@),
        exists|perm: Seq<int>|
            stable_arrangement(NoteOrder::NewestUpdated, notes@.filter(is_hit(query@)), out@, perm),
        forall|i: int, j: int|
            0 <= i < j < out@.len() ==> {
                let (a, b) = (#[trigger] out@[i], #[trigger] out@[j]);
                &&& b.updated.secs < a.updated.secs || (b.updated.secs == a.updated.secs
                    && b.updated.nanos <= a.updated.nanos)
                &&& a.updated == b.updated ==> !seq_lt(b.title@, a.title@)
            },
{
    let ghost all = notes@;
    let total = notes.len();
    let mut input = notes;
    let mut found: Vec<Note> = Vec::new();
    let mut k: usize = 0;
    while input.len() > 0
        invariant
            k + input@.len() == all.len(),
            all.len() == total,
            input@ == all.skip(k as int),
            found@ == all.take(k as int).filter(is_hit(query@)),
        decreases input@.len(),
    {
        let x = input.remove(0);
        proof {
            assert(all.take(k + 1).drop_last() =~= all.take(k as int));
            assert(all.take(k + 1).last() == x);
            reveal_with_fuel(Seq::<_>::filter, 1);
            assert(all.skip(k + 1) =~= all.skip(k as int).remove(0));
        }
        if x.matches_query(query) {
            found.push(x);
        }
        k = k + 1;
    }
    assert(all.take(all.len() as int) =~= all);
    sort_notes(found, NoteOrder::NewestUpdated)
}

/// Whether the thread lists `n`: every note, or only kept ones when
/// scratch notes are hidden.
pub open spec fn in_thread(show_scratch: bool) -> spec_fn(Note) -> bool {
    |n: Note| show_scratch || n.status == Status::Keep
}

/// The thread of a topic from its notes: oldest `created` first (then by
/// title), without scratch notes when `show_scratch` is off.
pub fn thread_list(notes: Vec<Note>, show_scratch: bool) -> (out: Vec<Note>)
    ensures
        out@.to_multiset() == notes@.filter(in_thread(show_scratch)).to_multiset(),
        notes_sorted(NoteOrder::OldestCreated, out@),
        exists|perm: Seq<int>|
            stable_arrangement(NoteOrder::OldestCreated, notes@.filter(in_thread(show_scratch)), out@, perm),
        forall|i: int, j: int|
            0 <= i < j < out@.len() ==> {
                let (a, b) = (#[trigger] out@[i], #[trigger] out@[j]);
                &&& a.created.secs < b.created.secs || (a.created.secs == b.created.secs
                    && a.created.nanos <= b.created.nanos)
                &&& a.created == b.created ==> !seq_lt(b.title@, a.title@)
            },
        forall|i: int| 0 <= i < out@.len() ==> show_scratch || (#[trigger] out@[i]).status == Status::Keep,
{
    let ghost all = notes@;
    let total = notes.len();
    let mut input = notes;
    let mut kept: Vec<Note> = Vec::new();
    let mut k: usize = 0;
    while input.len() > 0
        invariant
            k + input@.len() == all.len(),
            all.len() == total,
            input@ == all.skip(k as int),
            kept@ == all.take(k as int).filter(in_thread(show_scratch)),
        decreases input@.len(),
    {
        let x = input.remove(0);
        proof {
            assert(all.take(k + 1).drop_last() =~= all.take(k as int));
            assert(all.take(k + 1).last() == x);
            reveal_with_fuel(Seq::<_>::filter, 1);
            assert(all.skip(k + 1) =~= all.skip(k as int).remove(0));
        }
        let keep = match x.status {
            Status::Keep => true,
            Status::Scratch => show_scratch,
        };
        if keep {
            kept.push(x);
        }
        k = k + 1;
    }
    assert(all.take(all.len() as int) =~= all);
    let out = sort_notes(kept, NoteOrder::OldestCreated);
    proof {
        let f = all.filter(in_thread(show_scratch));
        let perm = choose|perm: Seq<int>| stable_arrangement(NoteOrder::OldestCreated, f, out@, perm);
        assert forall|i: int| 0 <= i < out@.len() implies show_scratch || (#[trigger] out@[i]).status
            == Status::Keep by {
            all.lemma_filter_pred(in_thread(show_scratch), perm[i]);
        }
    }
    out
}

/// An empty query finds every note.
pub proof fn law_empty_query_finds_every_note(notes: Seq<Note>)
    ensures
        notes.filter(is_hit(Seq::empty())) == notes,
    decreases notes.len(),
{
    reveal_with_fuel(Seq::<_>::filter, 1);
    if notes.len() > 0 {
        law_empty_query_finds_every_note(notes.drop_last());
        assert(notes.drop_last().push(notes.last()) =~= notes);
    } else {
        assert(notes.filter(is_hit(Seq::empty())) =~= notes);
    }
}

/// A topic directory and the `updated` instant of its latest note (`None`
/// when it has no readable note).
pub struct TopicEntry {
    pub name: String,
    pub latest: Option<Timestamp>,
}

/// `a` is listed strictly before `b`: topics with notes first, most
/// recently updated first, then by name; empty topics last, by name.
pub open spec fn topic_before(a: TopicEntry, b: TopicEntry) -> bool {
    match (a.latest, b.latest) {
        (Some(ta), Some(tb)) => earlier(tb, ta) || (ta == tb && seq_lt(a.name@, b.name@)),
        (Some(_), None) => true,
        (None, Some(_)) => false,
        (None, None) => seq_lt(a.name@, b.name@),
    }
}

pub open spec fn topics_sorted(s: Seq<TopicEntry>) -> bool {
    forall|i: int, j: int| 0 <= i < j < s.len() ==> !topic_before(#[trigger] s[j], #[trigger] s[i])
}

proof fn lemma_topic_before_order(a: TopicEntry, b: TopicEntry, c: TopicEntry)
    ensures
        !(topic_before(a, b) && topic_before(b, a)),
        topic_before(a, b) && topic_before(b, c) ==> topic_before(a, c),
        topic_before(a, b) && !topic_before(c, b) ==> topic_before(a, c),
{
    lemma_seq_lt_trichotomy(a.name@, b.name@);
    lemma_seq_lt_trichotomy(b.name@, c.name@);
    lemma_seq_lt_trichotomy(a.name@, c.name@);
    if seq_lt(a.name@, b.name@) && seq_lt(b.name@, c.name@) {
        lemma_seq_lt_transitive(a.name@, b.name@, c.name@);
    }
}

/// `perm` says where each entry of `out` came from in `input` (each input
/// position at most once), and entries that rank equally keep their input
/// order.
pub open spec fn stable_topics(input: Seq<TopicEntry>, out: Seq<TopicEntry>, perm: Seq<int>) -> bool {
    &&& perm.len() == out.len()
    &&& forall|i: int| 0 <= i < out.len() ==> 0 <= #[trigger] perm[i] < input.len() && out[i] == input[perm[i]]
    &&& forall|i: int, j: int| 0 <= i < j < out.len() ==> #[trigger] perm[i] != #[trigger] perm[j]
    &&& forall|i: int, j: int|
        0 <= i < j < out.len() && !topic_before(out[i], out[j]) ==> #[trigger] perm[i]
            < #[trigger] perm[j]
}

fn topic_is_before(a: &TopicEntry, b: &TopicEntry) -> (r: bool)
    ensures
        r == topic_before(*a, *b),
{
    match (a.latest, b.latest) {
        (Some(ta), Some(tb)) => tb.is_before(&ta) || (ta == tb && str_lt(
            a.name.as_str(),
            b.name.as_str(),
        )),
        (Some(_), None) => true,
        (None, Some(_)) => false,
        (None, None) => str_lt(a.name.as_str(), b.name.as_str()),
    }
}

/// The order of the topic list (see [`topic_before`]).
pub struct TopicRank;

impl Ranking<TopicEntry> for TopicRank {
    open spec fn precedes(&self, a: TopicEntry, b: TopicEntry) -> bool {
        topic_before(a, b)
    }

    fn is_before(&self, a: &TopicEntry, b: &TopicEntry) -> (r: bool) {
        topic_is_before(a, b)
    }

    proof fn lemma_order(&self, a: TopicEntry, b: TopicEntry, c: TopicEntry) {
        lemma_topic_before_order(a, b, c);
    }
}

/// Stable sort of topic entries (see [`topic_before`]).
pub fn sort_topics(entries: Vec<TopicEntry>) -> (out: Vec<TopicEntry>)
    ensures
        out@.to_multiset() == entries@.to_multiset(),
        topics_sorted(out@),
        exists|perm: Seq<int>| stable_topics(entries@, out@, perm),
{
    let out = stable_sort(entries, &TopicRank);
    proof {
        let perm = choose|perm: Seq<int>| stable_by(TopicRank, entries@, out@, perm);
        assert(stable_topics(entries@, out@, perm));
    }
    out
}

/// What a sorted topic list looks like on its entries: topics with a note
/// come before topics without one; among them the most recently updated
/// first and equal instants by name; topics without notes by name.
pub proof fn law_sorted_topics_by_field(s: Seq<TopicEntry>)
    requires
        topics_sorted(s),
    ensures
        forall|i: int, j: int|
            0 <= i < j < s.len() ==> {
                let (a, b) = (#[trigger] s[i], #[trigger] s[j]);
                &&& b.latest is Some ==> a.latest is Some
                &&& (a.latest is Some && b.latest is Some) ==> {
                    let (ta, tb) = (a.latest->0, b.latest->0);
                    &&& tb.secs < ta.secs || (tb.secs == ta.secs && tb.nanos <= ta.nanos)
                    &&& ta == tb ==> !seq_lt(b.name@, a.name@)
                }
                &&& (a.latest is None && b.latest is None) ==> !seq_lt(b.name@, a.name@)
            },
{
    assert forall|i: int, j: int| 0 <= i < j < s.len() implies !topic_before(#[trigger] s[j], #[trigger] s[i]) by {}
}

/// Topic names, most recently updated first (see [`topic_before`]).
pub fn order_topics(entries: Vec<TopicEntry>) -> (names: Vec<String>)
    ensures
        exists|s: Seq<TopicEntry>|
            {
                &&& s.to_multiset() == entries@.to_multiset()
                &&& topics_sorted(s)
                &&& (exists|perm: Seq<int>| stable_topics(entries@, s, perm))
                &&& names@.len() == s.len()
                &&& forall|i: int| 0 <= i < s.len() ==> (#[trigger] names@[i])@ == s[i].name@
            },
{
    let mut sorted = sort_topics(entries);
    let ghost s = sorted@;
    let total = sorted.len();
    let mut names: Vec<String> = Vec::new();
    let mut k: usize = 0;
    while sorted.len() > 0
        invariant
            k + sorted@.len() == s.len(),
            s.len() == total,
            sorted@ == s.skip(k as int),
            names@.len() == k,
            forall|i: int| 0 <= i < k ==> (#[trigger] names@[i])@ == s[i].name@,
        decreases sorted@.len(),
    {
        let e = sorted.remove(0);
        assert(s.skip(k + 1) =~= s.skip(k as int).remove(0));
        names.push(e.name);
        k = k + 1;
    }
    names
}

/// The character of a decimal digit.
pub open spec fn digit_char(d: nat) -> char {
    if d == 0 {
        '0'
    } else if d == 1 {
        '1'
    } else if d == 2 {
        '2'
    } else if d == 3 {
        '3'
    } else if d == 4 {
        '4'
    } else if d == 5 {
        '5'
    } else if d == 6 {
        '6'
    } else if d == 7 {
        '7'
    } else if d == 8 {
        '8'
    } else {
        '9'
    }
}

/// `n` in decimal, as `Display` writes it.
pub open spec fn decimal(n: nat) -> Seq<char>
    decreases n,
{
    if n < 10 {
        seq![digit_char(n)]
    } else {
        decimal(n / 10).push(digit_char(n % 10))
    }
}

/// The decimal form of `n` reads back as `n`, so different numbers are
/// written differently.
pub proof fn lemma_decimal_value(n: nat)
    ensures
        digits_value(decimal(n)) == n,
        decimal(n).len() >= 1,
    decreases n,
{
    if n < 10 {
        assert(decimal(n).drop_last() =~= Seq::<char>::empty());
        assert(decimal(n).last() == digit_char(n));
        assert(digit_value(digit_char(n)) == n);
        assert(digits_value(decimal(n).drop_last()) == 0);
        assert(digits_value(decimal(n)) == digits_value(decimal(n).drop_last()) * 10 + digit_value(
            decimal(n).last(),
        ));
    } else {
        lemma_decimal_value(n / 10);
        assert(decimal(n).drop_last() =~= decimal(n / 10));
        assert(decimal(n).last() == digit_char(n % 10));
        assert(digit_value(digit_char(n % 10)) == n % 10);
        assert((n / 10) * 10 + n % 10 == n) by (nonlinear_arith);
        assert(digits_value(decimal(n)) == digits_value(decimal(n).drop_last()) * 10 + digit_value(
            decimal(n).last(),
        ));
    }
}

fn digit_of(d: u64) -> (c: char)
    requires
        d < 10,
    ensures
        c == digit_char(d as nat),
{
    if d == 0 {
        '0'
    } else if d == 1 {
        '1'
    } else if d == 2 {
        '2'
    } else if d == 3 {
        '3'
    } else if d == 4 {
        '4'
    } else if d == 5 {
        '5'
    } else if d == 6 {
        '6'
    } else if d == 7 {
        '7'
    } else if d == 8 {
        '8'
    } else {
        '9'
    }
}

/// The decimal digits of `n`.
pub(crate) fn decimal_chars(n: u64) -> (v: Vec<char>)
    ensures
        v@ == decimal(n as nat),
{
    let mut m = n;
    let mut acc: Vec<char> = Vec::new();
    while m >= 10
        invariant
            decimal(n as nat) == decimal(m as nat) + acc@,
        decreases m,
    {
        let ghost a0 = acc@;
        acc.insert(0, digit_of(m % 10));
        assert(decimal(m as nat) == decimal((m / 10) as nat).push(digit_char((m % 10) as nat)));
        assert(decimal(m as nat) + a0 =~= decimal((m / 10) as nat) + acc@);
        m = m / 10;
    }
    acc.insert(0, digit_of(m));
    assert(decimal(n as nat) =~= acc@);
    acc
}

/// The file name that attempt `n` (from 1) gives a new note:
/// `{date}-{slug}.md`, then `{date}-{slug}-{n}.md` from `n = 2` on.
pub open spec fn candidate(date: Seq<char>, slug: Seq<char>, n: nat) -> Seq<char> {
    if n <= 1 {
        date + seq!['-'] + slug + seq!['.', 'm', 'd']
    } else {
        date + seq!['-'] + slug + seq!['-'] + decimal(n) + seq!['.', 'm', 'd']
    }
}

/// Different attempts give different names.
pub proof fn lemma_candidate_injective(date: Seq<char>, slug: Seq<char>, a: nat, b: nat)
    requires
        1 <= a,
        1 <= b,
        candidate(date, slug, a) == candidate(date, slug, b),
    ensures
        a == b,
{
    let p = date + seq!['-'] + slug;
    lemma_decimal_value(a);
    lemma_decimal_value(b);
    if a > 1 && b > 1 {
        let ca = candidate(date, slug, a);
        let cb = candidate(date, slug, b);
        assert(ca =~= p + seq!['-'] + decimal(a) + seq!['.', 'm', 'd']);
        assert(cb =~= p + seq!['-'] + decimal(b) + seq!['.', 'm', 'd']);
        let lo: int = p.len() + 1int;
        assert(ca.subrange(lo, lo + decimal(a).len()) =~= decimal(a));
        assert(cb.subrange(lo, lo + decimal(b).len()) =~= decimal(b));
    } else if a > 1 {
        assert(candidate(date, slug, a).len() == p.len() + 1 + decimal(a).len() + 3);
        assert(candidate(date, slug, b).len() == p.len() + 3);
    } else if b > 1 {
        assert(candidate(date, slug, b).len() == p.len() + 1 + decimal(b).len() + 3);
        assert(candidate(date, slug, a).len() == p.len() + 3);
    }
}

/// Some name in `taken` reads `name`.
pub open spec fn is_taken(taken: Seq<String>, name: Seq<char>) -> bool {
    exists|i: int| 0 <= i < taken.len() && (#[trigger] taken[i])@ == name
}

fn push_chars(out: &mut Vec<char>, v: &Vec<char>)
    ensures
        final(out)@ == old(out)@ + v@,
{
    let mut i: usize = 0;
    let ghost o0 = out@;
    while i < v.len()
        invariant
            i <= v@.len(),
            out@ == o0 + v@.take(i as int),
            o0 == old(out)@,
        decreases v@.len() - i,
    {
        out.push(v[i]);
        assert(v@.take(i + 1) =~= v@.take(i as int).push(v@[i as int]));
        i = i + 1;
    }
    assert(v@.take(v@.len() as int) =~= v@);
}

fn candidate_chars(date: &Vec<char>, slug: &Vec<char>, n: u64) -> (v: Vec<char>)
    ensures
        v@ == candidate(date@, slug@, n as nat),
{
    let mut v: Vec<char> = Vec::new();
    push_chars(&mut v, date);
    v.push('-');
    push_chars(&mut v, slug);
    if n > 1 {
        v.push('-');
        let d = decimal_chars(n);
        push_chars(&mut v, &d);
    }
    v.push('.');
    v.push('m');
    v.push('d');
    assert(v@ =~= candidate(date@, slug@, n as nat));
    v
}

fn same_chars(a: &Vec<char>, b: &Vec<char>) -> (r: bool)
    ensures
        r == (a@ == b@),
{
    if a.len() != b.len() {
        return false;
    }
    let mut i: usize = 0;
    while i < a.len()
        invariant
            a@.len() == b@.len(),
            i <= a@.len(),
            forall|k: int| 0 <= k < i ==> a@[k] == b@[k],
        decreases a@.len() - i,
    {
        if a[i] != b[i] {
            return false;
        }
        i = i + 1;
    }
    assert(a@ =~= b@);
    true
}

fn taken_contains(taken: &Vec<String>, name: &Vec<char>) -> (r: bool)
    ensures
        r == is_taken(taken@, name@),
{
    let mut i: usize = 0;
    while i < taken.len()
        invariant
            i <= taken@.len(),
            forall|k: int| 0 <= k < i ==> (#[trigger] taken@[k])@ != name@,
        decreases taken@.len() - i,
    {
        let v = chars_of(taken[i].as_str());
        if same_chars(&v, name) {
            return true;
        }
        i = i + 1;
    }
    false
}

/// Among `len + 1` different attempts, one is not taken by `len` names.
proof fn lemma_some_attempt_free(date: Seq<char>, slug: Seq<char>, taken: Seq<String>)
    ensures
        exists|n: nat| 1 <= n <= taken.len() + 1 && !is_taken(taken, #[trigger] candidate(date, slug, n)),
{
    let len = taken.len() as int;
    if forall|n: nat| 1 <= n <= len + 1 ==> is_taken(taken, #[trigger] candidate(date, slug, n)) {
        let x = vstd::set_lib::set_int_range(1, len + 2);
        let f = |m: int|
            choose|i: int| 0 <= i < len && (#[trigger] taken[i])@ == candidate(date, slug, m as nat);
        let y = x.map(f);
        vstd::set_lib::lemma_int_range(1, len + 2);
        vstd::set_lib::lemma_int_range(0, len);
        assert forall|m: int| x.contains(m) implies 0 <= f(m) < len && taken[f(m)]@ == candidate(
            date,
            slug,
            m as nat,
        ) by {
            assert(is_taken(taken, candidate(date, slug, m as nat)));
        }
        assert forall|m1: int, m2: int| x.contains(m1) && x.contains(m2) && #[trigger] f(m1)
            == #[trigger] f(m2) implies m1 == m2 by {
            lemma_candidate_injective(date, slug, m1 as nat, m2 as nat);
        }
        assert(vstd::relations::injective_on(f, x));
        vstd::set_lib::lemma_map_size(x, y, f);
        assert(y.subset_of(vstd::set_lib::set_int_range(0, len)));
        vstd::set_lib::lemma_len_subset(y, vstd::set_lib::set_int_range(0, len));
    }
}

/// `name` is the first attempt (see [`candidate`]) for `date` and `slug`
/// that is not among `taken`.
pub open spec fn first_free(taken: Seq<String>, date: Seq<char>, slug: Seq<char>, name: Seq<char>) -> bool {
    exists|n: nat|
        {
            &&& 1 <= n <= taken.len() + 1
            &&& name == #[trigger] candidate(date, slug, n)
            &&& !is_taken(taken, name)
            &&& forall|m: nat| 1 <= m < n ==> is_taken(taken, #[trigger] candidate(date, slug, m))
        }
}

/// The file name a new note gets in a directory that already holds the
/// names `taken`: the first attempt (see [`candidate`]) that is free.
pub fn free_file_name(date: &str, slug: &str, taken: &Vec<String>) -> (name: String)
    requires
        taken@.len() < u32::MAX,
    ensures
        first_free(taken@, date@, slug@, name@),
{
    let d = chars_of(date);
    let s = chars_of(slug);
    let limit = taken.len() as u64 + 1;
    let mut n: u64 = 1;
    proof {
        lemma_some_attempt_free(date@, slug@, taken@);
    }
    loop
        invariant
            d@ == date@,
            s@ == slug@,
            limit == taken@.len() + 1,
            1 <= n <= limit,
            forall|m: nat| 1 <= m < n ==> is_taken(taken@, #[trigger] candidate(date@, slug@, m)),
            exists|k: nat| 1 <= k <= taken@.len() + 1 && !is_taken(taken@, #[trigger] candidate(date@, slug@, k)),
        decreases limit - n,
    {
        let c = candidate_chars(&d, &s, n);
        if !taken_contains(taken, &c) {
            assert(c@ =~= c@.subrange(0, c@.len() as int));
            return string_of_span(&c, 0, c.len());
        }
        if n == limit {
            assert(false);
        }
        n = n + 1;
    }
}

/// The file name a new note gets in a directory that already holds the
/// names `taken`: its creation date (UTC, `yyyy-mm-dd`), the slug of its
/// title, and the first attempt that is free. `None` when the clock library
/// has no calendar date for `created`, which is never so in years 0000 to
/// 9999 (see [`writable`]).
pub fn new_file_name(note: &Note, taken: &Vec<String>) -> (r: Option<String>)
    requires
        taken@.len() < u32::MAX,
    ensures
        r is None <==> utc_date_text(note.created.secs, note.created.nanos) is None,
        writable(note.created) ==> r is Some,
        r matches Some(name) ==> first_free(
            taken@,
            utc_date_text(note.created.secs, note.created.nanos).unwrap(),
            slug_of(note.title@),
            name@,
        ),
{
    match format_date(note.created) {
        Some(date) => {
            let slug = slugify(note.title.as_str());
            Some(free_file_name(date.as_str(), slug.as_str(), taken))
        },
        None => None,
    }
}


/// Gives `note` the path it is written to: a note that has one keeps it
/// (title edits do not rename); a new one gets `dir` joined with
/// [`new_file_name`] among the names `taken` in `dir`. `false`, with the
/// note unchanged, when a new note's `created` has no calendar date.
pub fn assign_path(note: &mut Note, dir: &str, taken: &Vec<String>) -> (r: bool)
    requires
        taken@.len() < u32::MAX,
    ensures
        old(note).path is Some ==> r && *final(note) == *old(note),
        old(note).path is None ==> (r <==> utc_date_text(old(note).created.secs, old(note).created.nanos) is Some),
        writable(old(note).created) ==> r,
        !r ==> *final(note) == *old(note),
        old(note).path is None && r ==> {
            &&& *final(note) == (Note { path: final(note).path, ..*old(note) })
            &&& final(note).path matches Some(p) && exists|name: Seq<char>|
                #[trigger] first_free(
                    taken@,
                    utc_date_text(old(note).created.secs, old(note).created.nanos).unwrap(),
                    slug_of(old(note).title@),
                    name,
                ) && p@ == joined(dir@, name)
        },
{
    if note.path.is_some() {
        return true;
    }
    match new_file_name(note, taken) {
        Some(name) => {
            note.path = Some(join_path(dir, name.as_str()));
            true
        },
        None => false,
    }
}

} // verus!
