//! Note model, slugs, search matching, and the `---` fences of YAML front
//! matter.

use vstd::prelude::*;
use crate::clock::{
    format_rfc3339, now, parse_rfc3339, parse_ymd, rfc3339_instant, rfc3339_text, writable,
    ce_day, midnight, Timestamp,
};
use crate::error::Error;
use crate::text::{
    byte_len, is_whitespace, is_ws, chars_of, push_str, contains_seq, lowercase, str_contains, to_lowercase, trim_end_by, find_first, is_char, occurs_at, skip_char_end, skip_char_start, span_find,
    span_starts_with, string_of_span, string_push, strip_prefix, trim_char, trim_start_by,
};

verus! {

#[derive(Debug, Clone, Copy, PartialEq, Eq, Structural)]
pub enum Status {
    Scratch,
    Keep,
}

/// The word a status is written as.
pub open spec fn status_word(s: Status) -> Seq<char> {
    match s {
        Status::Scratch => "scratch"@,
        Status::Keep => "keep"@,
    }
}

impl Status {
    pub fn as_str(self) -> (r: &'static str)
        ensures
            r@ == status_word(self),
    {
        match self {
            Status::Scratch => "scratch",
            Status::Keep => "keep",
        }
    }

    /// The status as an owned `String` (what `Display` writes).
    pub fn to_string(&self) -> (r: String)
        ensures
            r@ == status_word(*self),
    {
        self.as_str().to_owned()
    }
}

/// The YAML front matter of a note as plain strings, as it is written to
/// and read from disk.
#[derive(Debug, Clone)]
pub struct FrontMatter {
    pub topic: String,
    pub title: String,
    pub status: Status,
    pub created: String,
    pub updated: String,
    pub parent: Option<String>,
}

#[derive(Debug, Clone, PartialEq, Eq)]
pub struct Note {
    pub path: Option<String>,
    pub topic: String,
    pub title: String,
    pub status: Status,
    pub created: Timestamp,
    pub updated: Timestamp,
    pub parent: Option<String>,
    pub body: String,
}

pub open spec fn is_ascii_alnum(c: char) -> bool {
    ('0' <= c <= '9') || ('a' <= c <= 'z') || ('A' <= c <= 'Z')
}

/// `char::to_ascii_lowercase`.
pub open spec fn ascii_lower(c: char) -> char {
    if 'A' <= c <= 'Z' {
        ((c as u32) + 32) as char
    } else {
        c
    }
}

/// The slug built so far from `t`, and whether it ends in a dash that
/// stands for a run of other characters: ASCII letters and digits are kept
/// (lowercased), and each run of anything else after the first kept one
/// becomes one `-`.
pub open spec fn slug_scan(t: Seq<char>) -> (Seq<char>, bool)
    decreases t.len(),
{
    if t.len() == 0 {
        (Seq::empty(), false)
    } else {
        let (r, dash) = slug_scan(t.drop_last());
        let c = t.last();
        if is_ascii_alnum(c) {
            (r.push(ascii_lower(c)), false)
        } else if r.len() > 0 && !dash {
            (r.push('-'), true)
        } else {
            (r, dash)
        }
    }
}

/// ASCII kebab-case slug of a title; `note` when nothing is left.
pub open spec fn slug_of(title: Seq<char>) -> Seq<char> {
    let r = trim_char(slug_scan(title).0, '-');
    if r.len() == 0 {
        seq!['n', 'o', 't', 'e']
    } else {
        r
    }
}

/// A slug character: a lowercase ASCII letter, a digit, or a dash.
pub open spec fn slug_char(c: char) -> bool {
    ('a' <= c <= 'z') || ('0' <= c <= '9') || c == '-'
}

/// ASCII kebab case: slug characters, no dash at either end, no two
/// dashes in a row.
pub open spec fn is_kebab(s: Seq<char>) -> bool {
    &&& s.len() > 0
    &&& forall|i: int| 0 <= i < s.len() ==> slug_char(#[trigger] s[i])
    &&& s[0] != '-'
    &&& s.last() != '-'
    &&& forall|i: int| 0 <= i < s.len() - 1 && #[trigger] s[i] == '-' ==> s[i + 1] != '-'
}

proof fn lemma_slug_scan(t: Seq<char>)
    ensures
        ({
            let (r, dash) = slug_scan(t);
            &&& forall|i: int| 0 <= i < r.len() ==> slug_char(#[trigger] r[i])
            &&& r.len() > 0 ==> r[0] != '-'
            &&& forall|i: int| 0 <= i < r.len() - 1 && #[trigger] r[i] == '-' ==> r[i + 1] != '-'
            &&& dash == (r.len() > 0 && r.last() == '-')
        }),
    decreases t.len(),
{
    if t.len() > 0 {
        lemma_slug_scan(t.drop_last());
    }
}

/// Every slug is ASCII kebab case, and a title without ASCII letters or
/// digits gets `note`.
pub proof fn law_slug_is_kebab(title: Seq<char>)
    ensures
        is_kebab(slug_of(title)),
        (forall|i: int| 0 <= i < title.len() ==> !is_ascii_alnum(#[trigger] title[i])) ==> slug_of(
            title,
        ) == seq!['n', 'o', 't', 'e'],
{
    lemma_slug_scan(title);
    let r = slug_scan(title).0;
    let dash = is_char('-');
    assert(trim_start_by(r, dash) == r);
    let s = trim_char(r, '-');
    if r.len() > 0 && r.last() == '-' {
        if r.len() > 1 {
            assert(r[r.len() - 2] != '-');
        }
        assert(r.drop_last().len() == 0 || r.drop_last().last() != '-');
        assert(trim_end_by(r.drop_last(), dash) == r.drop_last());
        assert(s == r.drop_last());
    } else {
        assert(s == r);
    }
    if forall|i: int| 0 <= i < title.len() ==> !is_ascii_alnum(#[trigger] title[i]) {
        lemma_slug_scan_empty(title);
    }
}

/// Scanning text that already reads as a slug (slug characters, no leading
/// dash, no two dashes in a row) gives it back unchanged.
proof fn lemma_slug_scan_fixed(s: Seq<char>)
    requires
        forall|i: int| 0 <= i < s.len() ==> slug_char(#[trigger] s[i]),
        s.len() > 0 ==> s[0] != '-',
        forall|i: int| 0 <= i < s.len() - 1 && #[trigger] s[i] == '-' ==> s[i + 1] != '-',
    ensures
        slug_scan(s) == (s, s.len() > 0 && s.last() == '-'),
    decreases s.len(),
{
    if s.len() > 0 {
        let q = s.drop_last();
        assert forall|i: int| 0 <= i < q.len() implies slug_char(#[trigger] q[i]) by {
            assert(q[i] == s[i]);
        }
        assert forall|i: int| 0 <= i < q.len() - 1 && #[trigger] q[i] == '-' implies q[i + 1] != '-' by {
            assert(q[i] == s[i] && q[i + 1] == s[i + 1]);
        }
        lemma_slug_scan_fixed(q);
        let c = s.last();
        assert(slug_char(s[s.len() - 1]));
        if c == '-' {
            assert(s.len() > 1);
            assert(s[s.len() - 2] != '-');
        }
        assert(q.push(c) =~= s);
    }
}

/// Text that is already ASCII kebab case (lowercase letters, digits and
/// single inner dashes) is its own slug: letters and digits are kept.
pub proof fn law_kebab_is_its_own_slug(t: Seq<char>)
    requires
        is_kebab(t),
    ensures
        slug_of(t) == t,
{
    lemma_slug_scan_fixed(t);
    let dash = is_char('-');
    assert(trim_start_by(t, dash) == t);
    assert(trim_end_by(t, dash) == t);
}

/// Uppercase ASCII letters are lowercased and every other run of
/// characters between kept ones becomes a single dash: a title of two
/// words reads as the two words joined by `-`.
pub proof fn law_slug_lowercases_and_joins(a: char, b: char)
    requires
        'A' <= a <= 'Z',
        'a' <= b <= 'z',
    ensures
        slug_of(seq![a, ' ', ' ', b]) == seq![((a as u32) + 32) as char, '-', b],
{
    let t = seq![a, ' ', ' ', b];
    assert(t.drop_last() =~= seq![a, ' ', ' ']);
    assert(t.drop_last().drop_last() =~= seq![a, ' ']);
    assert(t.drop_last().drop_last().drop_last() =~= seq![a]);
    assert(seq![a].drop_last() =~= Seq::<char>::empty());
    let r = seq![((a as u32) + 32) as char, '-', b];
    let la = ascii_lower(a);
    assert(is_ascii_alnum(a) && !is_ascii_alnum(' ') && is_ascii_alnum(b));
    assert(ascii_lower(b) == b);
    assert(slug_scan(Seq::<char>::empty()) == (Seq::<char>::empty(), false));
    assert(slug_scan(seq![a]) == (seq![la], false)) by {
        assert(seq![a].last() == a);
        assert(Seq::<char>::empty().push(la) =~= seq![la]);
    }
    assert(slug_scan(seq![a, ' ']) == (seq![la, '-'], true)) by {
        assert(seq![a, ' '].drop_last() =~= seq![a]);
        assert(seq![la].push('-') =~= seq![la, '-']);
    }
    assert(slug_scan(seq![a, ' ', ' ']) == (seq![la, '-'], true)) by {
        assert(seq![a, ' ', ' '].drop_last() =~= seq![a, ' ']);
    }
    assert(slug_scan(t) == (seq![la, '-', b], false)) by {
        assert(t.drop_last() =~= seq![a, ' ', ' ']);
        assert(seq![la, '-'].push(b) =~= seq![la, '-', b]);
    }
    assert(la == ((a as u32) + 32) as char);
    assert(slug_scan(t).0 =~= r);
    lemma_slug_scan_fixed(r);
    let dash = is_char('-');
    assert(trim_start_by(r, dash) == r);
    assert(trim_end_by(r, dash) == r);
}

/// Slugging a slug gives it back: `slugify` is idempotent.
pub proof fn law_slug_idempotent(title: Seq<char>)
    ensures
        slug_of(slug_of(title)) == slug_of(title),
{
    law_slug_is_kebab(title);
    let s = slug_of(title);
    lemma_slug_scan_fixed(s);
    let dash = is_char('-');
    assert(trim_start_by(s, dash) == s);
    assert(trim_end_by(s, dash) == s);
}

proof fn lemma_slug_scan_empty(t: Seq<char>)
    requires
        forall|i: int| 0 <= i < t.len() ==> !is_ascii_alnum(#[trigger] t[i]),
    ensures
        slug_scan(t).0.len() == 0,
    decreases t.len(),
{
    if t.len() > 0 {
        assert forall|i: int| 0 <= i < t.drop_last().len() implies !is_ascii_alnum(
            #[trigger] t.drop_last()[i],
        ) by {
            assert(t.drop_last()[i] == t[i]);
        }
        lemma_slug_scan_empty(t.drop_last());
        assert(!is_ascii_alnum(t[t.len() - 1]));
    }
}

fn ascii_lowercase(c: char) -> (r: char)
    ensures
        r == ascii_lower(c),
{
    if 'A' <= c && c <= 'Z' {
        ((c as u8) + 32) as char
    } else {
        c
    }
}

/// ASCII kebab-case slug from a title. Empty / non-latin titles become
/// `"note"`.
pub fn slugify(title: &str) -> (slug: String)
    ensures
        slug@ == slug_of(title@),
{
    let mut out: Vec<char> = Vec::new();
    let mut prev_dash = false;
    for ch in it: title.chars()
        invariant
            it.seq() == title@,
            (out@, prev_dash) == slug_scan(title@.take(it.index() as int)),
    {
        proof {
            assert(title@.take(it.index() + 1).drop_last() =~= title@.take(it.index() as int));
        }
        if ('0' <= ch && ch <= '9') || ('a' <= ch && ch <= 'z') || ('A' <= ch && ch <= 'Z') {
            out.push(ascii_lowercase(ch));
            prev_dash = false;
        } else if out.len() > 0 && !prev_dash {
            out.push('-');
            prev_dash = true;
        }
    }
    assert(title@.take(title@.len() as int) =~= title@);
    let n = out.len();
    let a = skip_char_start(&out, 0, n, '-');
    let b = skip_char_end(&out, a, n, '-');
    assert(out@.subrange(0, n as int) =~= out@);
    if a == b {
        let mut note = String::new();
        string_push(&mut note, 'n');
        string_push(&mut note, 'o');
        string_push(&mut note, 't');
        string_push(&mut note, 'e');
        note
    } else {
        string_of_span(&out, a, b)
    }
}

/// `"\n---\n"`, the fence that closes front matter.
pub open spec fn fence_lf() -> Seq<char> {
    seq!['\n', '-', '-', '-', '\n']
}

/// `"\n---\r\n"`, the same fence with a CRLF line end.
pub open spec fn fence_crlf() -> Seq<char> {
    seq!['\n', '-', '-', '-', '\r', '\n']
}

/// `s` ends with `p`.
pub open spec fn ends_with(s: Seq<char>, p: Seq<char>) -> bool {
    p.len() <= s.len() && s.skip(s.len() - p.len()) == p
}

/// The YAML block and the body of a note file, when it has front matter:
/// after any leading BOMs, an opening `---` line, then everything up to the
/// first closing `---` line (LF, then CRLF), or up to a final `---` that ends
/// the file.
pub open spec fn front_matter_parts(input: Seq<char>) -> Option<(Seq<char>, Seq<char>)> {
    let s = trim_start_by(input, is_char('\u{feff}'));
    let opened = match strip_prefix(s, seq!['-', '-', '-', '\n']) {
        Some(r) => Some(r),
        None => strip_prefix(s, seq!['-', '-', '-', '\r', '\n']),
    };
    match opened {
        None => None,
        Some(rest) => closed_parts(rest),
    }
}

/// Whether `v[lo..hi]` ends with `p`.
fn span_ends_with(v: &Vec<char>, lo: usize, hi: usize, p: &Vec<char>) -> (b: bool)
    requires
        lo <= hi <= v@.len(),
    ensures
        b == ends_with(v@.subrange(lo as int, hi as int), p@),
{
    if p.len() > hi - lo {
        return false;
    }
    let start = hi - p.len();
    let b = span_starts_with(v, start, hi, p);
    assert(v@.subrange(lo as int, hi as int).skip(start - lo) =~= v@.subrange(
        start as int,
        hi as int,
    ));
    assert(v@.subrange(start as int, hi as int).take(p@.len() as int) =~= v@.subrange(
        start as int,
        hi as int,
    ));
    b
}

/// The YAML block and body after the opening fence.
pub open spec fn closed_parts(rest: Seq<char>) -> Option<(Seq<char>, Seq<char>)> {
    match find_first(rest, fence_lf()) {
        Some(i) => Some((rest.take(i), rest.skip(i + 5))),
        None => match find_first(rest, fence_crlf()) {
            Some(i) => Some((rest.take(i), rest.skip(i + 6))),
            None => if ends_with(rest, seq!['\n', '-', '-', '-']) {
                Some((rest.take(rest.len() - 4), Seq::empty()))
            } else if ends_with(rest, seq!['\r', '\n', '-', '-', '-']) {
                Some((rest.take(rest.len() - 5), Seq::empty()))
            } else {
                None
            },
        },
    }
}

/// Finds the closing fence in `v[lo..n]`.
fn split_closed(v: &Vec<char>, lo: usize, n: usize) -> (r: Option<(String, String)>)
    requires
        lo <= n == v@.len(),
    ensures
        r matches Some((y, b)) ==> closed_parts(v@.subrange(lo as int, n as int)) == Some(
            (y@, b@),
        ),
        r is None ==> closed_parts(v@.subrange(lo as int, n as int)) is None,
{
    let ghost rest = v@.subrange(lo as int, n as int);
    let f_lf = vec!['\n', '-', '-', '-', '\n'];
    assert(f_lf@ =~= fence_lf());
    if let Some(i) = span_find(v, lo, n, &f_lf) {
        assert(rest.take(i as int) =~= v@.subrange(lo as int, lo + i));
        assert(rest.skip(i + 5) =~= v@.subrange(lo + i + 5, n as int));
        return Some((string_of_span(v, lo, lo + i), string_of_span(v, lo + i + 5, n)));
    }
    let f_crlf = vec!['\n', '-', '-', '-', '\r', '\n'];
    assert(f_crlf@ =~= fence_crlf());
    if let Some(i) = span_find(v, lo, n, &f_crlf) {
        assert(rest.take(i as int) =~= v@.subrange(lo as int, lo + i));
        assert(rest.skip(i + 6) =~= v@.subrange(lo + i + 6, n as int));
        return Some((string_of_span(v, lo, lo + i), string_of_span(v, lo + i + 6, n)));
    }
    let close_lf = vec!['\n', '-', '-', '-'];
    assert(close_lf@ =~= seq!['\n', '-', '-', '-']);
    if span_ends_with(v, lo, n, &close_lf) {
        assert(rest.take(rest.len() - 4) =~= v@.subrange(lo as int, n - 4));
        return Some((string_of_span(v, lo, n - 4), String::new()));
    }
    let close_crlf = vec!['\r', '\n', '-', '-', '-'];
    assert(close_crlf@ =~= seq!['\r', '\n', '-', '-', '-']);
    if span_ends_with(v, lo, n, &close_crlf) {
        assert(rest.take(rest.len() - 5) =~= v@.subrange(lo as int, n - 5));
        return Some((string_of_span(v, lo, n - 5), String::new()));
    }
    None
}

/// Splits a note file into its YAML block and its body; a file without
/// front matter is `MissingFrontMatter`.
pub fn split_front_matter(input: &str) -> (r: Result<(String, String), Error>)
    ensures
        r matches Ok((y, b)) ==> front_matter_parts(input@) == Some((y@, b@)),
        r is Err ==> front_matter_parts(input@) is None && r matches Err(Error::MissingFrontMatter),
{
    let v = chars_of(input);
    let n = v.len();
    let s0 = skip_char_start(&v, 0, n, '\u{feff}');
    assert(v@.subrange(0, n as int) =~= input@);
    let ghost s = v@.subrange(s0 as int, n as int);
    let open_lf = vec!['-', '-', '-', '\n'];
    let open_crlf = vec!['-', '-', '-', '\r', '\n'];
    assert(open_lf@ =~= seq!['-', '-', '-', '\n']);
    assert(open_crlf@ =~= seq!['-', '-', '-', '\r', '\n']);
    let lo = if span_starts_with(&v, s0, n, &open_lf) {
        s0 + 4
    } else if span_starts_with(&v, s0, n, &open_crlf) {
        s0 + 5
    } else {
        return Err(Error::MissingFrontMatter);
    };
    assert(s.skip(lo - s0) =~= v@.subrange(lo as int, n as int));
    match split_closed(&v, lo, n) {
        Some(parts) => Ok(parts),
        None => Err(Error::MissingFrontMatter),
    }
}

/// The text of a note file: an opening `---` line, the YAML block (which
/// ends with its own newline), a closing `---` line, then the body.
pub open spec fn framed(yaml: Seq<char>, body: Seq<char>) -> Seq<char> {
    seq!['-', '-', '-', '\n'] + yaml + seq!['-', '-', '-', '\n'] + body
}

/// Writes a note file from its serialized YAML block and its body.
pub fn frame_markdown(yaml: &str, body: &str) -> (r: String)
    ensures
        r@ == framed(yaml@, body@),
{
    let mut r = String::new();
    string_push(&mut r, '-');
    string_push(&mut r, '-');
    string_push(&mut r, '-');
    string_push(&mut r, '\n');
    push_str(&mut r, yaml);
    string_push(&mut r, '-');
    string_push(&mut r, '-');
    string_push(&mut r, '-');
    string_push(&mut r, '\n');
    push_str(&mut r, body);
    assert(r@ =~= framed(yaml@, body@));
    r
}

/// `"---\n"`.
pub open spec fn dash_line() -> Seq<char> {
    seq!['-', '-', '-', '\n']
}

/// No closing fence starts inside the YAML block before its last newline.
pub open spec fn fence_free(yaml: Seq<char>) -> bool {
    forall|i: int|
        0 <= i < yaml.len() - 1 ==> !#[trigger] occurs_at(
            yaml + dash_line(),
            fence_lf(),
            i,
        )
}

proof fn lemma_find_from_first(s: Seq<char>, pat: Seq<char>, j: int, k: int)
    requires
        0 <= j <= k,
        occurs_at(s, pat, k),
        forall|i: int| j <= i < k ==> !#[trigger] occurs_at(s, pat, i),
    ensures
        crate::text::find_from(s, pat, j) == Some(k),
    decreases k - j,
{
    if j < k {
        lemma_find_from_first(s, pat, j + 1, k);
    }
}

/// Reading back a written note file gives the YAML block (without its last
/// newline) and the body, as long as the block ends with a newline and holds
/// no closing fence of its own.
pub proof fn law_split_reads_back_frame(yaml: Seq<char>, body: Seq<char>)
    requires
        yaml.len() > 0,
        yaml.last() == '\n',
        fence_free(yaml),
    ensures
        front_matter_parts(framed(yaml, body)) == Some((yaml.drop_last(), body)),
{
    let text = framed(yaml, body);
    let open = dash_line();
    assert(text[0] == '-');
    assert(trim_start_by(text, is_char('\u{feff}')) == text);
    assert(text.take(4) =~= open);
    let rest = text.skip(4);
    assert(strip_prefix(text, open) == Some(rest));
    assert(rest =~= yaml + open + body);
    let k = yaml.len() - 1;
    assert(rest.subrange(k, k + 5) =~= fence_lf());
    assert forall|i: int| 0 <= i < k implies !#[trigger] occurs_at(rest, fence_lf(), i) by {
        assert(!occurs_at(yaml + open, fence_lf(), i));
        assert(rest.subrange(i, i + 5) =~= (yaml + open).subrange(i, i + 5));
    }
    lemma_find_from_first(rest, fence_lf(), 0, k);
    assert(rest.take(k) =~= yaml.drop_last());
    assert(rest.skip(k + 5) =~= body);
}

/// The instant a front-matter timestamp stands for: RFC 3339, else a bare
/// `YYYY-MM-DD` date at midnight UTC.
pub open spec fn datetime_of(raw: Seq<char>) -> Option<(i64, u32)> {
    match rfc3339_instant(raw) {
        Some(t) => Some(t),
        None => match ce_day(raw) {
            Some(d) => Some((midnight(d).secs, midnight(d).nanos)),
            None => None,
        },
    }
}

/// Reads a front-matter timestamp (see [`datetime_of`]); anything else is
/// `InvalidDatetime` with the raw text.
pub fn parse_datetime(raw: &str) -> (r: Result<Timestamp, Error>)
    ensures
        r matches Ok(t) ==> datetime_of(raw@) == Some((t.secs, t.nanos)),
        r is Err ==> datetime_of(raw@) is None,
        r matches Err(e) ==> e matches Error::InvalidDatetime(s) && s@ == raw@,
{
    if let Some(t) = parse_rfc3339(raw) {
        return Ok(t);
    }
    if let Some(t) = parse_ymd(raw) {
        return Ok(t);
    }
    Err(Error::InvalidDatetime(raw.to_owned()))
}

/// The note is a search hit for `query`: the query is empty, or its
/// lowercase form occurs in the lowercased title, body or topic.
pub open spec fn note_matches(title: Seq<char>, body: Seq<char>, topic: Seq<char>, query: Seq<char>) -> bool {
    let q = lowercase(query);
    ||| query.len() == 0
    ||| contains_seq(lowercase(title), q)
    ||| contains_seq(lowercase(body), q)
    ||| contains_seq(lowercase(topic), q)
}

/// A search finds a note exactly when the query is empty or its lowercase
/// form occurs in the lowercased title, body or topic; each of the three
/// fields alone is enough.
pub proof fn law_search_matches_any_field(title: Seq<char>, body: Seq<char>, topic: Seq<char>, query: Seq<char>)
    ensures
        query.len() == 0 ==> note_matches(title, body, topic, query),
        contains_seq(lowercase(title), lowercase(query)) ==> note_matches(title, body, topic, query),
        contains_seq(lowercase(body), lowercase(query)) ==> note_matches(title, body, topic, query),
        contains_seq(lowercase(topic), lowercase(query)) ==> note_matches(title, body, topic, query),
        query.len() > 0 && !contains_seq(lowercase(title), lowercase(query)) && !contains_seq(
            lowercase(body),
            lowercase(query),
        ) && !contains_seq(lowercase(topic), lowercase(query)) ==> !note_matches(
            title,
            body,
            topic,
            query,
        ),
{
}

/// Number of whitespace-separated words in `s` (`split_whitespace`):
/// the scalars that are not whitespace and start `s` or follow whitespace.
pub open spec fn word_count_of(s: Seq<char>) -> nat
    decreases s.len(),
{
    if s.len() == 0 {
        0
    } else {
        word_count_of(s.drop_last()) + if !is_ws(s.last()) && (s.len() == 1 || is_ws(
            s[s.len() - 2],
        )) {
            1nat
        } else {
            0nat
        }
    }
}

proof fn lemma_word_count_bound(s: Seq<char>)
    ensures
        word_count_of(s) <= s.len(),
    decreases s.len(),
{
    if s.len() > 0 {
        lemma_word_count_bound(s.drop_last());
    }
}

/// `r` is what `Note::from_front_matter(path, fm, body)` gives: the
/// note with the front matter's fields and instants (see [`datetime_of`]),
/// an empty parent dropped; `InvalidDatetime` with the raw text of the
/// first instant that does not read.
pub open spec fn read_note(
    path: Option<String>,
    fm: FrontMatter,
    body: Seq<char>,
    r: Result<Note, Error>,
) -> bool {
    &&& datetime_of(fm.created@) is None ==> (r matches Err(Error::InvalidDatetime(s)) && s@
        == fm.created@)
    &&& datetime_of(fm.created@) is Some && datetime_of(fm.updated@) is None ==> (r matches Err(
        Error::InvalidDatetime(s),
    ) && s@ == fm.updated@)
    &&& r matches Ok(n) ==> {
        &&& datetime_of(fm.created@) == Some((n.created.secs, n.created.nanos))
        &&& datetime_of(fm.updated@) == Some((n.updated.secs, n.updated.nanos))
        &&& n.path == path
        &&& n.topic == fm.topic
        &&& n.title == fm.title
        &&& n.status == fm.status
        &&& n.body@ == body
        &&& (fm.parent matches Some(p) && p@.len() > 0 ==> n.parent == fm.parent)
        &&& (!(fm.parent matches Some(p) && p@.len() > 0) ==> n.parent is None)
    }
    &&& datetime_of(fm.created@) is Some && datetime_of(fm.updated@) is Some ==> r is Ok
}

/// `r` is what `n.front_matter()` gives: the note's fields with its
/// instants in RFC 3339 (see [`rfc3339_text`]); for instants that RFC 3339
/// writes back exactly (see [`writable`]), front matter whose text reads
/// them back.
pub open spec fn written_front_matter(n: Note, r: Option<FrontMatter>) -> bool {
    &&& r matches Some(fm) ==> {
        &&& fm.topic@ == n.topic@
        &&& fm.title@ == n.title@
        &&& fm.status == n.status
        &&& rfc3339_text(n.created.secs, n.created.nanos) == Some(fm.created@)
        &&& rfc3339_text(n.updated.secs, n.updated.nanos) == Some(fm.updated@)
        &&& (fm.parent is Some <==> n.parent is Some)
        &&& (fm.parent matches Some(p) ==> n.parent matches Some(q) && p@ == q@)
    }
    &&& r is None <==> rfc3339_text(n.created.secs, n.created.nanos) is None || rfc3339_text(
        n.updated.secs,
        n.updated.nanos,
    ) is None
    &&& writable(n.created) && writable(n.updated) ==> (r matches Some(fm) && rfc3339_instant(
        fm.created@,
    ) == Some((n.created.secs, n.created.nanos)) && rfc3339_instant(fm.updated@) == Some(
        (n.updated.secs, n.updated.nanos),
    ))
}

/// Reading back the front matter written for a note gives the note again:
/// same topic, title, status, instants, parent and body (for instants that
/// RFC 3339 writes back exactly, and a parent that is not empty).
pub proof fn law_front_matter_reads_back(
    n: Note,
    fm: FrontMatter,
    path: Option<String>,
    r: Result<Note, Error>,
)
    requires
        writable(n.created),
        writable(n.updated),
        !(n.parent matches Some(p) && p@.len() == 0),
        written_front_matter(n, Some(fm)),
        read_note(path, fm, n.body@, r),
    ensures
        r matches Ok(m) && {
            &&& m.topic@ == n.topic@
            &&& m.title@ == n.title@
            &&& m.status == n.status
            &&& m.created == n.created
            &&& m.updated == n.updated
            &&& m.body@ == n.body@
            &&& m.path == path
            &&& (m.parent is Some <==> n.parent is Some)
            &&& (m.parent matches Some(p) ==> n.parent matches Some(q) && p@ == q@)
        },
{
}

impl Note {
    /// Whitespace word count of the body.
    pub fn word_count(&self) -> (n: usize)
        ensures
            n == word_count_of(self.body@),
    {
        let s = self.body.as_str();
        let nbytes = byte_len(s);
        let mut n: usize = 0;
        let mut prev_ws = true;
        for ch in it: s.chars()
            invariant
                it.seq() == s@,
                s@ == self.body@,
                nbytes >= s@.len(),
                n == word_count_of(s@.take(it.index() as int)),
                n <= it.index(),
                prev_ws == (it.index() == 0 || is_ws(s@[it.index() - 1])),
        {
            proof {
                let k = it.index() as int;
                assert(s@.take(k + 1).drop_last() =~= s@.take(k));
                lemma_word_count_bound(s@.take(k));
            }
            let ws = is_whitespace(ch);
            if !ws && prev_ws {
                n = n + 1;
            }
            prev_ws = ws;
        }
        assert(s@.take(s@.len() as int) =~= s@);
        n
    }


    /// A new scratch note stamped with `now` (created and updated), with no
    /// path and no parent.
    pub fn new_at(topic: &str, title: &str, body: &str, now: Timestamp) -> (n: Note)
        ensures
            n.path is None,
            n.topic@ == topic@,
            n.title@ == title@,
            n.body@ == body@,
            n.status == Status::Scratch,
            n.created == now,
            n.updated == now,
            n.parent is None,
    {
        Note {
            path: None,
            topic: topic.to_owned(),
            title: title.to_owned(),
            status: Status::Scratch,
            created: now,
            updated: now,
            parent: None,
            body: body.to_owned(),
        }
    }

    /// A file without front matter read as a note: the whole text is the
    /// body, the topic is its directory's name, the title its file name,
    /// scratch, stamped with the file's modification time.
    pub fn plain(path: String, dir_name: &str, file_name: &str, mtime: Timestamp, text: &str) -> (n: Note)
        ensures
            n.path == Some(path),
            n.topic@ == dir_name@,
            n.title@ == file_name@,
            n.body@ == text@,
            n.status == Status::Scratch,
            n.created == mtime,
            n.updated == mtime,
            n.parent is None,
    {
        Note {
            path: Some(path),
            topic: dir_name.to_owned(),
            title: file_name.to_owned(),
            status: Status::Scratch,
            created: mtime,
            updated: mtime,
            parent: None,
            body: text.to_owned(),
        }
    }

    /// A new scratch note stamped with the current time (both `created` and
    /// `updated`), or `None` when the system clock gives no instant (see
    /// [`now`]).
    pub fn new(topic: &str, title: &str, body: &str) -> (r: Option<Note>)
        ensures
            r matches Some(n) ==> {
                &&& n.path is None
                &&& n.topic@ == topic@
                &&& n.title@ == title@
                &&& n.body@ == body@
                &&& n.status == Status::Scratch
                &&& n.created == n.updated
                &&& n.parent is None
            },
    {
        match now() {
            Some(t) => Some(Note::new_at(topic, title, body, t)),
            None => None,
        }
    }

    /// The note that a file's front matter and body describe. An empty
    /// `parent` counts as none; an unreadable `created` or `updated` is
    /// `InvalidDatetime` (`created` is read first).
    pub fn from_front_matter(path: Option<String>, fm: FrontMatter, body: &str) -> (r: Result<
        Note,
        Error,
    >)
        ensures
            read_note(path, fm, body@, r),
    {
        let created = parse_datetime(fm.created.as_str())?;
        let updated = parse_datetime(fm.updated.as_str())?;
        let parent = match fm.parent {
            Some(p) => if p.as_str().is_empty() {
                None
            } else {
                Some(p)
            },
            None => None,
        };
        Ok(Note {
            path,
            topic: fm.topic,
            title: fm.title,
            status: fm.status,
            created,
            updated,
            parent,
            body: body.to_owned(),
        })
    }

    /// The front matter to write for this note: its fields, with the
    /// instants in RFC 3339; `None` when chrono cannot write one of them.
    pub fn front_matter(&self) -> (r: Option<FrontMatter>)
        ensures
            written_front_matter(*self, r),
    {
        let created = match format_rfc3339(self.created) {
            Some(s) => s,
            None => return None,
        };
        let updated = match format_rfc3339(self.updated) {
            Some(s) => s,
            None => return None,
        };
        let parent = match &self.parent {
            Some(p) => Some(p.as_str().to_owned()),
            None => None,
        };
        Some(FrontMatter {
            topic: self.topic.as_str().to_owned(),
            title: self.title.as_str().to_owned(),
            status: self.status,
            created,
            updated,
            parent,
        })
    }

    /// A copy of the note, field for field.
    pub fn duplicate(&self) -> (n: Note)
        ensures
            n == *self,
    {
        Note {
            path: match &self.path {
                Some(p) => Some(p.clone()),
                None => None,
            },
            topic: self.topic.clone(),
            title: self.title.clone(),
            status: self.status,
            created: self.created,
            updated: self.updated,
            parent: match &self.parent {
                Some(p) => Some(p.clone()),
                None => None,
            },
            body: self.body.clone(),
        }
    }

    /// Case-insensitive substring match on title, body and topic; an empty
    /// query matches every note.
    pub fn matches_query(&self, query: &str) -> (b: bool)
        ensures
            b == note_matches(self.title@, self.body@, self.topic@, query@),
    {
        let q = to_lowercase(query);
        if q.as_str().is_empty() {
            return true;
        }
        let title = to_lowercase(self.title.as_str());
        let body = to_lowercase(self.body.as_str());
        let topic = to_lowercase(self.topic.as_str());
        str_contains(title.as_str(), q.as_str()) || str_contains(body.as_str(), q.as_str())
            || str_contains(topic.as_str(), q.as_str())
    }
}


/// The text opens a front-matter fence: after any byte-order marks, a
/// `---` line (`\n` or `\r\n`).
pub open spec fn opens_fence(input: Seq<char>) -> bool {
    let s = trim_start_by(input, is_char('\u{feff}'));
    strip_prefix(s, seq!['-', '-', '-', '\n']) is Some || strip_prefix(
        s,
        seq!['-', '-', '-', '\r', '\n'],
    ) is Some
}

/// Whether `input` opens a front-matter fence (see [`opens_fence`]).
pub fn has_opening_fence(input: &str) -> (b: bool)
    ensures
        b == opens_fence(input@),
{
    let v = chars_of(input);
    let n = v.len();
    let s0 = skip_char_start(&v, 0, n, '\u{feff}');
    assert(v@.subrange(0, n as int) =~= input@);
    let open_lf = vec!['-', '-', '-', '\n'];
    let open_crlf = vec!['-', '-', '-', '\r', '\n'];
    assert(open_lf@ =~= seq!['-', '-', '-', '\n']);
    assert(open_crlf@ =~= seq!['-', '-', '-', '\r', '\n']);
    span_starts_with(&v, s0, n, &open_lf) || span_starts_with(&v, s0, n, &open_crlf)
}

/// What a note file's text holds: front matter (its YAML block and the
/// body), or no fence at all, in which case the file is read as a plain
/// note.
pub enum NoteFile {
    Plain(Note),
    Framed(String, String),
}

/// Reads the text of the note file at `path` (in directory `dir_name`,
/// named `file_name`, last modified at `mtime`): with front matter, its
/// YAML block and body for the YAML reader; with no fence, the plain note
/// that [`Note::plain`] makes of it. A file that opens a fence but never
/// closes it is `MissingFrontMatter`.
pub fn read_note_file(path: String, dir_name: &str, file_name: &str, mtime: Timestamp, text: &str) -> (r: Result<NoteFile, Error>)
    ensures
        match front_matter_parts(text@) {
            Some((y, b)) => r matches Ok(NoteFile::Framed(ry, rb)) && ry@ == y && rb@ == b,
            None => if opens_fence(text@) {
                r matches Err(Error::MissingFrontMatter)
            } else {
                r matches Ok(NoteFile::Plain(n)) && n.path == Some(path) && n.topic@ == dir_name@
                    && n.title@ == file_name@ && n.body@ == text@ && n.status == Status::Scratch
                    && n.created == mtime && n.updated == mtime && n.parent is None
            },
        },
{
    match split_front_matter(text) {
        Ok((yaml, body)) => Ok(NoteFile::Framed(yaml, body)),
        Err(e) => if has_opening_fence(text) {
            Err(e)
        } else {
            Ok(NoteFile::Plain(Note::plain(path, dir_name, file_name, mtime, text)))
        },
    }
}

} // verus!
