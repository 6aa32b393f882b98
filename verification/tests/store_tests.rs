use thread_notes::clock::Timestamp;
use thread_notes::error::Error;
use thread_notes::note::{Note, Status};
use thread_notes::store::{
    assign_path, free_file_name, latest_of, new_file_name, order_topics, search_hits, sort_notes, validate_topic, NoteOrder,
    Store, TopicEntry,
};

fn dated(topic: &str, title: &str, body: &str, created: i64, updated: i64) -> Note {
    Note {
        path: None,
        topic: topic.into(),
        title: title.into(),
        status: Status::Scratch,
        created: Timestamp { secs: created, nanos: 0 },
        updated: Timestamp { secs: updated, nanos: 0 },
        parent: None,
        body: body.into(),
    }
}

fn titles(notes: &[Note]) -> Vec<&str> {
    notes.iter().map(|n| n.title.as_str()).collect()
}

#[test]
fn topic_names_are_single_visible_directories() {
    assert!(validate_topic("rust").is_ok());
    for bad in ["", ".", "..", ".hidden", "a/b", "a\\b", "a\0b"] {
        match validate_topic(bad) {
            Err(Error::InvalidTopic(t)) => assert_eq!(t, bad),
            other => panic!("{bad:?} gave {other:?}"),
        }
    }
}

#[test]
fn relative_paths_resolve_under_the_notes_dir() {
    let store = Store::new("/notes".to_string());
    assert_eq!(store.notes_dir(), "/notes");
    assert_eq!(store.resolve("rust/2026-09-07-rel.md"), "/notes/rust/2026-09-07-rel.md");
    assert_eq!(store.resolve("/elsewhere/x.md"), "/elsewhere/x.md");
    assert_eq!(store.topic_dir("rust"), "/notes/rust");
}

#[test]
fn notes_list_newest_created_first_then_by_title() {
    let notes = vec![
        dated("rust", "A", "a", 100, 100),
        dated("rust", "C", "c", 200, 200),
        dated("rust", "B", "b", 200, 300),
    ];
    let sorted = sort_notes(notes, NoteOrder::NewestCreated);
    assert_eq!(titles(&sorted), vec!["B", "C", "A"]);
}

#[test]
fn latest_of_prefers_most_recently_updated() {
    let notes = vec![
        dated("rust", "Old", "a", 10, 10),
        dated("rust", "New", "b", 11, 50),
        dated("rust", "Tie", "c", 12, 50),
    ];
    assert_eq!(latest_of(notes).unwrap().title, "Tie");
    let first_of_equals = vec![dated("r", "X", "", 1, 1), dated("r", "Y", "", 1, 1)];
    assert_eq!(latest_of(first_of_equals).unwrap().title, "X");
    assert!(latest_of(Vec::new()).is_none());
}

#[test]
fn search_hits_are_case_insensitive_substrings() {
    let notes = vec![
        dated("rust", "Borrow checker", "See NLL", 1, 1),
        dated("math", "Sets", "unrelated", 2, 2),
        dated("rust", "Lifetimes", "nll again", 3, 5),
    ];
    let hits = search_hits(notes, "nll");
    assert_eq!(titles(&hits), vec!["Lifetimes", "Borrow checker"]);
    let title_hits = search_hits(vec![dated("rust", "Borrow checker", "x", 1, 1)], "BORROW");
    assert_eq!(title_hits.len(), 1);
}

#[test]
fn order_topics_puts_most_recently_updated_first() {
    let entries = vec![
        TopicEntry { name: "empty".into(), latest: None },
        TopicEntry { name: "alpha".into(), latest: Some(Timestamp { secs: 100, nanos: 0 }) },
        TopicEntry { name: "beta".into(), latest: Some(Timestamp { secs: 200, nanos: 0 }) },
        TopicEntry { name: "aardvark".into(), latest: None },
        TopicEntry { name: "gamma".into(), latest: Some(Timestamp { secs: 100, nanos: 0 }) },
    ];
    assert_eq!(order_topics(entries), vec!["beta", "alpha", "gamma", "aardvark", "empty"]);
}

#[test]
fn free_file_name_uniquifies_slug_collisions() {
    let none: Vec<String> = Vec::new();
    assert_eq!(free_file_name("2026-09-07", "same-title", &none), "2026-09-07-same-title.md");
    let taken = vec!["2026-09-07-same-title.md".to_string()];
    assert_eq!(free_file_name("2026-09-07", "same-title", &taken), "2026-09-07-same-title-2.md");
    let more = vec![
        "2026-09-07-same-title-2.md".to_string(),
        "2026-09-07-same-title.md".to_string(),
        "other.md".to_string(),
    ];
    assert_eq!(free_file_name("2026-09-07", "same-title", &more), "2026-09-07-same-title-3.md");
}

#[test]
fn empty_query_lists_every_note() {
    let notes = vec![
        dated("rust", "A", "a", 1, 1),
        dated("math", "B", "b", 2, 3),
    ];
    let hits = search_hits(notes, "");
    assert_eq!(titles(&hits), vec!["B", "A"]);
}

#[test]
fn new_file_name_uses_creation_date_and_slug() {
    let note = dated("rust", "Same Title!", "", 1788787800, 1788787800);
    let none: Vec<String> = Vec::new();
    assert_eq!(new_file_name(&note, &none), Some("2026-09-07-same-title.md".to_string()));
    let taken = vec!["2026-09-07-same-title.md".to_string()];
    assert_eq!(new_file_name(&note, &taken), Some("2026-09-07-same-title-2.md".to_string()));
}

#[test]
fn new_file_name_without_calendar_date_is_none() {
    let note = dated("rust", "t", "", i64::MAX, 0);
    let none: Vec<String> = Vec::new();
    assert_eq!(new_file_name(&note, &none), None);
}

#[test]
fn assign_path_keeps_an_existing_path() {
    let mut note = dated("rust", "Renamed", "", 1788787800, 1788787800);
    note.path = Some("/notes/rust/2026-09-07-old.md".to_string());
    let none: Vec<String> = Vec::new();
    assert!(assign_path(&mut note, "/notes/rust", &none));
    assert_eq!(note.path.as_deref(), Some("/notes/rust/2026-09-07-old.md"));
}

#[test]
fn assign_path_gives_a_new_note_a_free_name() {
    let mut note = dated("rust", "Same Title", "", 1788787800, 1788787800);
    let taken = vec!["2026-09-07-same-title.md".to_string()];
    assert!(assign_path(&mut note, "/notes/rust", &taken));
    assert_eq!(note.path.as_deref(), Some("/notes/rust/2026-09-07-same-title-2.md"));
    let mut undated = dated("rust", "t", "", i64::MAX, 0);
    assert!(!assign_path(&mut undated, "/notes/rust", &taken));
    assert!(undated.path.is_none());
}
