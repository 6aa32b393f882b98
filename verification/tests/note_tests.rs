use thread_notes::clock::Timestamp;
use thread_notes::error::Error;
use thread_notes::note::{
    frame_markdown, parse_datetime, slugify, split_front_matter, FrontMatter, Note, Status,
};

fn at(secs: i64) -> Timestamp {
    Timestamp { secs, nanos: 0 }
}

fn sample() -> Note {
    Note {
        path: None,
        topic: "rust".into(),
        title: "Ownership notes".into(),
        status: Status::Scratch,
        created: at(1788782400),
        updated: at(1788787800),
        parent: None,
        body: "Borrow checker thoughts.\n".into(),
    }
}

#[test]
fn slugify_examples() {
    assert_eq!(slugify("Ownership notes"), "ownership-notes");
    assert_eq!(slugify("  Hello, World!  "), "hello-world");
    assert_eq!(slugify("日本語"), "note");
    assert_eq!(slugify(""), "note");
    assert_eq!(Status::Scratch.to_string(), "scratch");
    assert_eq!(Status::Keep.as_str(), "keep");
}

#[test]
fn slug_collapses_runs_and_lowercases() {
    assert_eq!(slugify("A--B  c!"), "a-b-c");
    assert_eq!(slugify("Été 2026"), "t-2026");
    assert_eq!(slugify("---"), "note");
}

#[test]
fn split_without_fence_is_missing_front_matter() {
    let err = split_front_matter("# just markdown\n").unwrap_err();
    assert!(matches!(err, Error::MissingFrontMatter));
    let unclosed = split_front_matter("---\ntopic: a\nno close\n").unwrap_err();
    assert!(matches!(unclosed, Error::MissingFrontMatter));
}

#[test]
fn split_finds_yaml_and_body() {
    let raw = "---\ntopic: rust\ntitle: Ownership notes\n---\nBorrow checker thoughts.\n";
    let (yaml, body) = split_front_matter(raw).unwrap();
    assert_eq!(yaml, "topic: rust\ntitle: Ownership notes");
    assert_eq!(body, "Borrow checker thoughts.\n");
    let (yaml, body) = split_front_matter("\u{feff}---\r\na: 1\n---\r\nbody").unwrap();
    assert_eq!(yaml, "a: 1");
    assert_eq!(body, "body");
    let (yaml, body) = split_front_matter("---\na: 1\n---").unwrap();
    assert_eq!(yaml, "a: 1");
    assert_eq!(body, "");
}

#[test]
fn frame_then_split_roundtrip() {
    let yaml = "topic: rust\nstatus: keep\n";
    let text = frame_markdown(yaml, "hello\n---\nworld");
    assert!(text.starts_with("---\n"));
    assert_eq!(text, "---\ntopic: rust\nstatus: keep\n---\nhello\n---\nworld");
    let (y, b) = split_front_matter(&text).unwrap();
    assert_eq!(y, "topic: rust\nstatus: keep");
    assert_eq!(b, "hello\n---\nworld");
}

#[test]
fn parse_accepts_rfc3339_and_date_only() {
    assert_eq!(parse_datetime("2026-01-02").unwrap(), at(1767312000));
    assert_eq!(parse_datetime("2026-09-07T12:00:00+00:00").unwrap(), at(1788782400));
    assert_eq!(parse_datetime("2026-09-07T14:00:00+02:00").unwrap(), at(1788782400));
    match parse_datetime("nope") {
        Err(Error::InvalidDatetime(raw)) => assert_eq!(raw, "nope"),
        other => panic!("unexpected {other:?}"),
    }
}

#[test]
fn front_matter_fields_become_a_note() {
    let fm = FrontMatter {
        topic: "philosophy".into(),
        title: "Forms".into(),
        status: Status::Keep,
        created: "2026-01-02".into(),
        updated: "2026-01-03".into(),
        parent: Some("philosophy/2026-01-01-intro.md".into()),
    };
    let note = Note::from_front_matter(None, fm, "body").unwrap();
    assert_eq!(note.status, Status::Keep);
    assert_eq!(note.created, at(1767312000));
    assert_eq!(note.updated, at(1767312000 + 86400));
    assert_eq!(note.parent.as_deref(), Some("philosophy/2026-01-01-intro.md"));
    assert_eq!(note.body, "body");

    let empty_parent = FrontMatter {
        topic: "t".into(),
        title: "x".into(),
        status: Status::Scratch,
        created: "2026-01-02".into(),
        updated: "bad".into(),
        parent: Some(String::new()),
    };
    assert!(matches!(
        Note::from_front_matter(None, empty_parent, ""),
        Err(Error::InvalidDatetime(_))
    ));
}

#[test]
fn front_matter_writes_rfc3339() {
    let mut note = sample();
    note.parent = Some("rust/2026-09-01-start.md".into());
    let fm = note.front_matter().unwrap();
    assert_eq!(fm.created, "2026-09-07T12:00:00+00:00");
    assert_eq!(fm.updated, "2026-09-07T13:30:00+00:00");
    assert_eq!(fm.parent.as_deref(), Some("rust/2026-09-01-start.md"));
    let back = Note::from_front_matter(None, fm, &note.body).unwrap();
    assert_eq!(back, note);
}

#[test]
fn search_is_case_insensitive_on_title_body_and_topic() {
    let mut note = sample();
    note.title = "Borrow checker".into();
    note.body = "See NLL".into();
    assert!(note.matches_query("nll"));
    assert!(note.matches_query("BORROW"));
    assert!(note.matches_query("RUST"));
    assert!(note.matches_query(""));
    assert!(!note.matches_query("sets"));
}

#[test]
fn word_count_is_whitespace_separated() {
    let mut note = sample();
    note.body = "borrow checker thoughts".into();
    assert_eq!(note.word_count(), 3);
    note.body = "  a\n\tb  ".into();
    assert_eq!(note.word_count(), 2);
    note.body = String::new();
    assert_eq!(note.word_count(), 0);
}

#[test]
fn new_note_is_scratch_and_stamped_once() {
    let note = Note::new("math", "Sets", "unrelated").unwrap();
    assert_eq!(note.status, Status::Scratch);
    assert_eq!(note.created, note.updated);
    assert!(note.path.is_none());
    assert_eq!(note.topic, "math");
    let fixed = Note::new_at("math", "Sets", "x", at(5));
    assert_eq!(fixed.created, at(5));
}

#[test]
fn bare_dates_read_as_midnight_utc() {
    assert_eq!(thread_notes::clock::parse_ymd("1970-01-01"), Some(at(0)));
    assert_eq!(thread_notes::clock::parse_ymd("1969-12-31"), Some(at(-86400)));
    assert_eq!(thread_notes::clock::parse_ymd("0001-01-01"), Some(at(-62135596800)));
    assert_eq!(thread_notes::clock::parse_ymd("2026-13-01"), None);
}

#[test]
fn clock_reads_after_the_epoch() {
    let t = thread_notes::clock::now().unwrap();
    assert!(t.secs > 0);
    assert!(t.nanos < 1_000_000_000);
}

#[test]
fn slugging_a_slug_keeps_it() {
    for title in ["  Hello, World!  ", "Ownership notes", "日本語", "a--b"] {
        let once = slugify(title);
        assert_eq!(slugify(&once), once);
    }
}

#[test]
fn file_without_fence_reads_as_plain_note() {
    let text = "# no fence\njust a body\n";
    match thread_notes::note::read_note_file("/n/rust/loose-ideas.md".into(), "rust", "loose-ideas.md", at(7), text) {
        Ok(thread_notes::note::NoteFile::Plain(n)) => {
            assert_eq!(n.topic, "rust");
            assert_eq!(n.title, "loose-ideas.md");
            assert_eq!(n.body, text);
            assert_eq!(n.status, Status::Scratch);
            assert_eq!(n.created, at(7));
            assert_eq!(n.path.as_deref(), Some("/n/rust/loose-ideas.md"));
        }
        _ => panic!("expected a plain note"),
    }
    match thread_notes::note::read_note_file("/n/a.md".into(), "n", "a.md", at(7), "---\ntitle: x\n---\nbody") {
        Ok(thread_notes::note::NoteFile::Framed(y, b)) => {
            assert_eq!(y, "title: x");
            assert_eq!(b, "body");
        }
        _ => panic!("expected front matter"),
    }
}

#[test]
fn file_with_an_unclosed_fence_is_missing_front_matter() {
    for text in ["---\ntitle: x\nbody without a close\n", "\u{feff}---\r\ntitle: x\n"] {
        match thread_notes::note::read_note_file("/n/a.md".into(), "n", "a.md", at(7), text) {
            Err(Error::MissingFrontMatter) => {}
            _ => panic!("expected MissingFrontMatter"),
        }
    }
    assert!(thread_notes::note::has_opening_fence("---\n"));
    assert!(!thread_notes::note::has_opening_fence("--- \n"));
}

#[test]
fn leap_second_reads_back_from_front_matter() {
    let mut note = sample();
    // 2016-12-31T23:59:59 UTC plus a leap second and a half
    note.created = Timestamp { secs: 1483228799, nanos: 1_500_000_000 };
    let fm = note.front_matter().unwrap();
    assert_eq!(fm.created, "2016-12-31T23:59:60.500+00:00");
    let back = Note::from_front_matter(None, fm, &note.body).unwrap();
    assert_eq!(back.created, note.created);
}

#[test]
fn epoch_offsets_that_fit_become_instants() {
    assert_eq!(thread_notes::clock::from_epoch(5, 7), Some(Timestamp { secs: 5, nanos: 7 }));
    assert_eq!(thread_notes::clock::from_epoch(i64::MAX as u64, 0), Some(Timestamp { secs: i64::MAX, nanos: 0 }));
    assert_eq!(thread_notes::clock::from_epoch(i64::MAX as u64 + 1, 0), None);
}
