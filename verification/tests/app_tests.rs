use thread_notes::app::{autosave_tick, App, Effect, LeftPane, TitleStep};
use thread_notes::clock::Timestamp;
use thread_notes::keys::{InputMode, Message};
use thread_notes::note::{Note, Status};
use thread_notes::store::Store;
use thread_notes::ui::{
    bottom_line, cursor_cell, left_labels, left_title, prompt_cursor_x, search_cursor_x, top_bar,
    top_bar_flash,
};

fn seeded() -> App {
    App::new(
        Store::new("/notes".to_string()),
        vec!["rust".to_string(), "philosophy".to_string()],
    )
}

fn ownership() -> Note {
    Note {
        path: Some("/notes/rust/2026-09-07-ownership.md".into()),
        topic: "rust".into(),
        title: "Ownership".into(),
        status: Status::Scratch,
        created: Timestamp { secs: 1788782400, nanos: 0 },
        updated: Timestamp { secs: 1788782400, nanos: 0 },
        parent: None,
        body: "borrow checker thoughts".into(),
    }
}

#[test]
fn q_asks_to_save_only_when_dirty() {
    let mut app = seeded();
    assert!(matches!(app.apply(Message::Quit), Effect::Nothing));
    assert!(app.should_quit);
}

#[test]
fn j_k_clamp_and_ask_for_the_latest_note() {
    let mut app = seeded();
    match app.apply(Message::TopicDown) {
        Effect::LoadLatest(t) => assert_eq!(t, "philosophy"),
        _ => panic!("expected a load"),
    }
    app.apply(Message::TopicDown);
    assert_eq!(app.selected, 1);
    app.apply(Message::TopicUp);
    app.apply(Message::TopicUp);
    assert_eq!(app.selected, 0);
    assert_eq!(app.selected_topic(), Some("rust"));
}

#[test]
fn insert_edits_the_open_note_and_esc_saves() {
    let mut app = seeded();
    app.show(Some(ownership()));
    assert!(matches!(app.apply(Message::EnterInsertAppend), Effect::Nothing));
    assert_eq!(app.input_mode(), InputMode::Insert);
    app.apply(Message::InsertChar(' '));
    app.apply(Message::InsertChar('x'));
    assert!(app.is_dirty());
    assert_eq!(app.opened.as_ref().unwrap().body, "borrow checker thoughts x");
    assert!(matches!(app.apply(Message::InsertChar('q')), Effect::Nothing));
    assert!(!app.should_quit);
    assert!(matches!(app.apply(Message::Escape), Effect::Save));
    assert_eq!(app.input_mode(), InputMode::Normal);
    app.stamp_for_save(Timestamp { secs: 1788800000, nanos: 0 });
    app.saved();
    assert!(!app.is_dirty());
    assert_eq!(app.opened.as_ref().unwrap().updated.secs, 1788800000);
}

#[test]
fn new_note_prompts_for_topic_then_title() {
    let mut app = seeded();
    app.apply(Message::StartNewNote);
    assert_eq!(app.input_mode(), InputMode::Title);
    assert_eq!(bottom_line(&app), "topic: rust");
    for _ in 0..4 {
        app.apply(Message::Backspace);
    }
    app.apply(Message::Submit);
    assert_eq!(app.prompt.as_ref().unwrap().step, TitleStep::Topic);
    assert_eq!(bottom_line(&app), "topic:   invalid topic name: ");
    for c in "math".chars() {
        app.apply(Message::InsertChar(c));
    }
    app.apply(Message::Submit);
    assert_eq!(app.prompt.as_ref().unwrap().step, TitleStep::Title);
    for c in "Sets".chars() {
        app.apply(Message::InsertChar(c));
    }
    app.apply(Message::Submit);
    assert_eq!(app.input_mode(), InputMode::Insert);
    let note = app.opened.as_ref().unwrap();
    assert_eq!(note.topic, "math");
    assert_eq!(note.title, "Sets");
    assert_eq!(note.body, "What am I trying to decide?\n\n");
    assert_eq!(app.cursor, 29);
    assert!(app.is_dirty());
}

#[test]
fn esc_in_title_cancels_without_a_note() {
    let mut app = seeded();
    app.apply(Message::StartNewNote);
    app.apply(Message::Escape);
    assert_eq!(app.input_mode(), InputMode::Normal);
    assert!(app.opened.is_none());
    assert!(app.prompt.is_none());
}

#[test]
fn bars_show_topic_note_and_mode() {
    let mut app = seeded();
    assert_eq!(top_bar(&app, 0), "thread  rust");
    app.show(Some(ownership()));
    assert_eq!(top_bar(&app, 0), "thread  rust  2026-09-07  scratch  3w");
    assert_eq!(
        bottom_line(&app),
        "j/k select  enter  i/a insert  n new  t thread  w keep  p quote  / search  s timer  ^s  q"
    );
    app.apply(Message::EnterInsertAppend);
    app.apply(Message::InsertChar('!'));
    assert_eq!(top_bar(&app, 0), "thread  rust  2026-09-07  scratch  3w  *  insert");
    assert_eq!(bottom_line(&app), "esc normal  ^s save");
}

#[test]
fn set_topics_follows_the_open_note() {
    let mut app = seeded();
    app.show(Some(ownership()));
    app.set_topics(vec!["philosophy".to_string(), "rust".to_string()]);
    assert_eq!(app.selected, 1);
    app.show(None);
    app.set_topics(vec!["solo".to_string()]);
    assert_eq!(app.selected, 0);
}

#[test]
fn ctrl_s_keeps_the_mode_and_saves_only_edits() {
    let mut app = seeded();
    app.show(Some(ownership()));
    app.apply(Message::EnterInsert);
    assert!(matches!(app.apply(Message::Save), Effect::Nothing));
    app.apply(Message::InsertChar('z'));
    assert!(matches!(app.apply(Message::Save), Effect::Save));
    assert_eq!(app.input_mode(), InputMode::Insert);
    assert_eq!(app.opened.as_ref().unwrap().body, "zborrow checker thoughts");
}

#[test]
fn cursor_cells_scroll_and_clamp() {
    assert_eq!(cursor_cell(0, 0, 10, 5), (0, 0, 0));
    assert_eq!(cursor_cell(7, 3, 10, 5), (3, 3, 4));
    assert_eq!(cursor_cell(2, 40, 10, 5), (0, 9, 2));
    let mut app = seeded();
    app.apply(Message::StartNewNote);
    assert_eq!(prompt_cursor_x(&app, 80), 11);
    assert_eq!(prompt_cursor_x(&app, 8), 7);
}

#[test]
fn stamp_now_bumps_only_updated() {
    let mut app = seeded();
    app.show(Some(ownership()));
    let t = app.stamp_now().unwrap();
    let note = app.opened.as_ref().unwrap();
    assert_eq!(note.updated, t);
    assert!(note.updated.secs > 1788782400 - 10 * 365 * 86400);
    assert_ne!(note.updated, ownership().updated);
    assert_eq!(note.created, ownership().created);
    assert_eq!(note.body, ownership().body);
    let mut empty = seeded();
    let _t = empty.stamp_now();
    assert!(empty.opened.is_none());
}

#[test]
fn refused_topic_shows_why_until_edited() {
    let mut app = seeded();
    app.apply(Message::StartNewNote);
    app.apply(Message::InsertChar('/'));
    app.apply(Message::Submit);
    assert_eq!(bottom_line(&app), "topic: rust/  invalid topic name: rust/");
    app.apply(Message::Backspace);
    assert_eq!(bottom_line(&app), "topic: rust");
    assert!(app.prompt.as_ref().unwrap().error.is_none());
}

#[test]
fn apply_at_stamps_the_new_note_with_the_given_instant() {
    let mut app = seeded();
    app.apply(Message::StartNewNote);
    app.apply(Message::Submit);
    app.apply(Message::InsertChar('T'));
    let at = Timestamp { secs: 1788787800, nanos: 5 };
    app.apply_at(Message::Submit, Some(at));
    let note = app.opened.as_ref().unwrap();
    assert_eq!(note.created, at);
    assert_eq!(note.updated, at);
    assert_eq!(note.title, "T");
}

#[test]
fn title_submit_without_clock_stays_on_prompt() {
    let mut app = seeded();
    app.apply(Message::StartNewNote);
    app.apply(Message::Submit);
    app.apply(Message::InsertChar('T'));
    app.apply_at(Message::Submit, None);
    assert_eq!(app.input_mode(), InputMode::Title);
    assert!(app.opened.is_none());
    assert_eq!(bottom_line(&app), "title: T  system clock is before 1970");
}

#[test]
fn autosave_waits_thirty_seconds_from_the_first_dirty_tick() {
    assert_eq!(autosave_tick(false, Some(5), 99_999), (None, false));
    assert_eq!(autosave_tick(true, None, 1_000), (Some(1_000), false));
    assert_eq!(autosave_tick(true, Some(1_000), 30_999), (Some(1_000), false));
    assert_eq!(autosave_tick(true, Some(1_000), 31_000), (None, true));
}

#[test]
fn show_latest_keeps_the_insert_buffer_without_a_note() {
    let mut app = seeded();
    app.show(Some(ownership()));
    app.apply(Message::EnterInsert);
    app.show_latest(None);
    assert!(app.opened.is_some());
    app.apply(Message::Escape);
    app.show_latest(None);
    assert!(app.opened.is_none());
}

fn forms() -> Note {
    Note {
        path: Some("/notes/philosophy/2026-08-01-forms.md".into()),
        topic: "philosophy".into(),
        title: "Forms".into(),
        status: Status::Keep,
        created: Timestamp { secs: 1785578400, nanos: 0 },
        updated: Timestamp { secs: 1785578400, nanos: 0 },
        parent: None,
        body: "plato".into(),
    }
}

#[test]
fn thread_pane_lists_the_topic_oldest_first_and_opens_a_note() {
    let mut app = seeded();
    match app.apply(Message::ToggleThread) {
        Effect::LoadThread(t) => assert_eq!(t, "rust"),
        _ => panic!("expected the thread to load"),
    }
    assert_eq!(app.left_pane, LeftPane::Notes);
    assert_eq!(left_title(&app), "notes");
    let mut later = ownership();
    later.title = "Later".into();
    later.created.secs += 100;
    app.set_thread(vec![later, ownership()]);
    assert_eq!(left_labels(&app), vec!["Ownership".to_string(), "Later".to_string()]);
    assert_eq!(
        bottom_line(&app),
        "j/k select  enter open  t topics  i/a insert  n new  w keep  p quote  / search  s timer  ^s  q"
    );
    app.apply(Message::TopicDown);
    assert_eq!(app.thread_selected, 1);
    assert!(matches!(app.apply(Message::OpenLatest), Effect::Nothing));
    assert_eq!(app.opened.as_ref().unwrap().title, "Later");
    app.apply(Message::ToggleThread);
    assert_eq!(left_title(&app), "topics");
    assert_eq!(left_labels(&app), vec!["rust".to_string(), "philosophy".to_string()]);
}

#[test]
fn hidden_scratch_notes_leave_the_thread() {
    let mut app = seeded();
    app.configure(false, 20);
    app.apply(Message::ToggleThread);
    app.set_thread(vec![ownership(), forms()]);
    assert_eq!(left_labels(&app), vec!["Forms".to_string()]);
}

#[test]
fn w_flips_status_and_asks_for_a_write() {
    let mut app = seeded();
    app.show(Some(ownership()));
    assert!(matches!(app.apply(Message::ToggleStatus), Effect::Save));
    assert_eq!(app.opened.as_ref().unwrap().status, Status::Keep);
    assert_eq!(top_bar(&app, 0), "thread  rust  2026-09-07  keep  3w");
    app.apply(Message::ToggleStatus);
    assert_eq!(app.opened.as_ref().unwrap().status, Status::Scratch);
}

#[test]
fn search_mode_edits_the_query_and_opens_a_hit() {
    let mut app = seeded();
    app.show(Some(ownership()));
    match app.apply(Message::StartSearch) {
        Effect::Search(q) => assert_eq!(q, ""),
        _ => panic!("expected a search"),
    }
    for c in "plato".chars() {
        app.apply(Message::InsertChar(c));
    }
    match app.apply(Message::Backspace) {
        Effect::Search(q) => assert_eq!(q, "plat"),
        _ => panic!("expected a search"),
    }
    assert_eq!(bottom_line(&app), "/plat");
    assert_eq!(top_bar(&app, 0), "thread  rust  2026-09-07  scratch  3w  search");
    assert_eq!(search_cursor_x(&app, 80), 5);
    app.set_hits(vec![forms(), ownership()]);
    app.apply(Message::MoveDown);
    app.apply(Message::MoveUp);
    app.apply(Message::Submit);
    assert_eq!(app.input_mode(), InputMode::Normal);
    assert_eq!(app.opened.as_ref().unwrap().title, "Forms");
    assert_eq!(app.selected_topic(), Some("philosophy"));
    assert!(app.query.is_empty());
}

#[test]
fn esc_leaves_search_without_opening() {
    let mut app = seeded();
    app.apply(Message::StartSearch);
    app.set_hits(vec![forms()]);
    app.apply(Message::Escape);
    assert_eq!(app.input_mode(), InputMode::Normal);
    assert!(app.opened.is_none());
}

#[test]
fn session_counts_down_in_the_top_bar_and_flashes_at_zero() {
    let mut app = seeded();
    assert!(matches!(app.apply(Message::ToggleSession), Effect::StartSession));
    app.start_session(1_000);
    assert_eq!(top_bar(&app, 1_000), "thread  rust  20:00");
    assert_eq!(top_bar(&app, 1_001), "thread  rust  20:00");
    assert_eq!(top_bar(&app, 2_000), "thread  rust  19:59");
    assert_eq!(top_bar(&app, 1_141_000), "thread  rust  1:00");
    assert!(!top_bar_flash(&app, 2_000));
    assert_eq!(top_bar(&app, 1_201_000), "thread  rust  0:00");
    assert!(top_bar_flash(&app, 1_201_000));
    assert!(!top_bar_flash(&app, 1_202_000));
    assert!(matches!(app.apply(Message::ToggleSession), Effect::Nothing));
    assert_eq!(top_bar(&app, 2_000), "thread  rust");
}

#[test]
fn pull_quote_appends_the_kept_notes_last_lines() {
    let mut app = seeded();
    app.show(Some(ownership()));
    match app.apply(Message::PullQuote) {
        Effect::LoadQuoteSource(t) => assert_eq!(t, "rust"),
        _ => panic!("expected the topic's notes"),
    }
    let mut kept = forms();
    kept.topic = "rust".into();
    kept.body = "one\ntwo\n".into();
    app.pull_quote(vec![ownership(), kept]);
    assert_eq!(app.input_mode(), InputMode::Insert);
    assert!(app.is_dirty());
    let body = &app.opened.as_ref().unwrap().body;
    assert_eq!(body, "borrow checker thoughts\n> 2026-08-01\n> one\n> two\n");
    assert_eq!(app.cursor, body.chars().count());
}

#[test]
fn pull_quote_takes_the_last_twenty_lines() {
    let mut app = seeded();
    let mut own = ownership();
    own.body = (1..=25).map(|i| format!("l{i}")).collect::<Vec<_>>().join("\n");
    app.show(Some(own));
    app.pull_quote(Vec::new());
    let body = app.opened.as_ref().unwrap().body.clone();
    let quote: Vec<&str> = body.lines().skip(25).collect();
    assert_eq!(quote.len(), 21);
    assert_eq!(quote[0], "> 2026-09-07");
    assert_eq!(quote[1], "> l6");
    assert_eq!(quote[20], "> l25");
}
