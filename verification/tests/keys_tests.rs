use thread_notes::keys::{message_from_key, InputMode, KeyCode, KeyInput, Message};

fn press(code: KeyCode) -> KeyInput {
    KeyInput { code, ctrl: false, press: true }
}

fn ctrl(code: KeyCode) -> KeyInput {
    KeyInput { code, ctrl: true, press: true }
}

#[test]
fn q_quits_in_normal_only() {
    assert_eq!(
        message_from_key(press(KeyCode::Char('q')), InputMode::Normal),
        Some(Message::Quit)
    );
    assert_eq!(
        message_from_key(press(KeyCode::Char('Q')), InputMode::Normal),
        Some(Message::Quit)
    );
    assert_eq!(
        message_from_key(press(KeyCode::Char('q')), InputMode::Insert),
        Some(Message::InsertChar('q'))
    );
}

#[test]
fn j_k_move_topic_selection() {
    assert_eq!(
        message_from_key(press(KeyCode::Char('j')), InputMode::Normal),
        Some(Message::TopicDown)
    );
    assert_eq!(
        message_from_key(press(KeyCode::Char('k')), InputMode::Normal),
        Some(Message::TopicUp)
    );
    assert_eq!(
        message_from_key(press(KeyCode::Char('j')), InputMode::Insert),
        Some(Message::InsertChar('j'))
    );
}

#[test]
fn enter_opens_latest_in_normal_and_newlines_in_insert() {
    assert_eq!(
        message_from_key(press(KeyCode::Enter), InputMode::Normal),
        Some(Message::OpenLatest)
    );
    assert_eq!(
        message_from_key(press(KeyCode::Enter), InputMode::Insert),
        Some(Message::Newline)
    );
    assert_eq!(
        message_from_key(press(KeyCode::Enter), InputMode::Title),
        Some(Message::Submit)
    );
}

#[test]
fn i_a_n_and_esc_from_normal() {
    assert_eq!(
        message_from_key(press(KeyCode::Char('i')), InputMode::Normal),
        Some(Message::EnterInsert)
    );
    assert_eq!(
        message_from_key(press(KeyCode::Char('a')), InputMode::Normal),
        Some(Message::EnterInsertAppend)
    );
    assert_eq!(
        message_from_key(press(KeyCode::Char('n')), InputMode::Normal),
        Some(Message::StartNewNote)
    );
    assert_eq!(
        message_from_key(press(KeyCode::Esc), InputMode::Normal),
        Some(Message::Escape)
    );
    assert_eq!(
        message_from_key(press(KeyCode::Esc), InputMode::Insert),
        Some(Message::Escape)
    );
}

#[test]
fn ctrl_s_saves_in_every_mode() {
    for mode in [InputMode::Normal, InputMode::Insert, InputMode::Title, InputMode::Search] {
        assert_eq!(
            message_from_key(ctrl(KeyCode::Char('s')), mode),
            Some(Message::Save)
        );
    }
    assert_eq!(
        message_from_key(press(KeyCode::Char('s')), InputMode::Normal),
        Some(Message::ToggleSession)
    );
}

#[test]
fn key_release_is_ignored() {
    let mut key = press(KeyCode::Char('q'));
    key.press = false;
    assert_eq!(message_from_key(key, InputMode::Normal), None);
}

#[test]
fn thread_status_quote_search_and_timer_keys_in_normal() {
    for (c, m) in [
        ('t', Message::ToggleThread),
        ('w', Message::ToggleStatus),
        ('p', Message::PullQuote),
        ('/', Message::StartSearch),
        ('s', Message::ToggleSession),
    ] {
        assert_eq!(message_from_key(press(KeyCode::Char(c)), InputMode::Normal), Some(m));
    }
    for code in [KeyCode::Char('J'), KeyCode::Char('K')] {
        assert_eq!(message_from_key(press(code), InputMode::Normal), None);
    }
}

#[test]
fn search_mode_types_j_and_k_and_moves_with_arrows() {
    assert_eq!(
        message_from_key(press(KeyCode::Char('j')), InputMode::Search),
        Some(Message::InsertChar('j'))
    );
    assert_eq!(message_from_key(press(KeyCode::Down), InputMode::Search), Some(Message::MoveDown));
    assert_eq!(message_from_key(press(KeyCode::Up), InputMode::Search), Some(Message::MoveUp));
    assert_eq!(message_from_key(press(KeyCode::Enter), InputMode::Search), Some(Message::Submit));
    assert_eq!(message_from_key(press(KeyCode::Esc), InputMode::Search), Some(Message::Escape));
    assert_eq!(message_from_key(press(KeyCode::Left), InputMode::Search), None);
}

#[test]
fn title_mode_has_no_vertical_moves_and_other_keys_are_unbound() {
    assert_eq!(message_from_key(press(KeyCode::Up), InputMode::Title), None);
    assert_eq!(message_from_key(press(KeyCode::Home), InputMode::Title), Some(Message::Home));
    assert_eq!(message_from_key(press(KeyCode::Other), InputMode::Insert), None);
    assert_eq!(message_from_key(ctrl(KeyCode::Char('x')), InputMode::Insert), None);
    assert_eq!(message_from_key(press(KeyCode::Down), InputMode::Insert), Some(Message::MoveDown));
}
