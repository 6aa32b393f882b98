//! Keyboard mapping. Mode-aware: Normal, Insert, Title, Search.

use vstd::prelude::*;

verus! {

/// Elm-style message produced from a key press.
#[derive(Debug, Clone, Copy, PartialEq, Eq, Structural)]
pub enum Message {
    Quit,
    TopicDown,
    TopicUp,
    OpenLatest,
    EnterInsert,
    EnterInsertAppend,
    StartNewNote,
    Save,
    Escape,
    Submit,
    InsertChar(char),
    Backspace,
    Newline,
    MoveLeft,
    MoveRight,
    MoveUp,
    MoveDown,
    Home,
    End,
    ToggleThread,
    ToggleStatus,
    PullQuote,
    StartSearch,
    ToggleSession,
}

/// Input mode for key dispatch (Title prompt state lives on `App`).
#[derive(Debug, Clone, Copy, PartialEq, Eq, Structural)]
pub enum InputMode {
    Normal,
    Insert,
    Title,
    Search,
}

/// The key of a terminal key event, as far as the mapping tells keys apart.
#[derive(Debug, Clone, Copy, PartialEq, Eq, Structural)]
pub enum KeyCode {
    Char(char),
    Enter,
    Esc,
    Backspace,
    Left,
    Right,
    Up,
    Down,
    Home,
    End,
    /// Any other key (function keys, Tab, ...).
    Other,
}

/// A terminal key event: the key, whether Control was held, and whether
/// the event is a press (rather than a repeat or a release).
#[derive(Debug, Clone, Copy, PartialEq, Eq, Structural)]
pub struct KeyInput {
    pub code: KeyCode,
    pub ctrl: bool,
    pub press: bool,
}

/// The key map. Only presses count. With Control, only `s`/`S` (save) is
/// bound, in every mode. Normal: `q`/`Q` quit, `j`/`k` select, Enter opens,
/// `i`/`a` insert, `n` new note, `t` thread pane, `w` keep/scratch, `p`
/// pull-quote, `/` search, `s` session timer, Esc. Insert: characters,
/// Backspace, Enter (newline), arrows, Home/End, Esc. Title: characters,
/// Backspace, Enter (submit), Left/Right, Home/End, Esc. Search:
/// characters (the query), Backspace, Up/Down (hits), Enter (open), Esc.
pub open spec fn key_message(key: KeyInput, mode: InputMode) -> Option<Message> {
    if !key.press {
        None
    } else if key.ctrl {
        match key.code {
            KeyCode::Char(c) => if c == 's' || c == 'S' {
                Some(Message::Save)
            } else {
                None
            },
            _ => None,
        }
    } else {
        match mode {
            InputMode::Normal => match key.code {
                KeyCode::Char(c) => if c == 'q' || c == 'Q' {
                    Some(Message::Quit)
                } else if c == 'j' {
                    Some(Message::TopicDown)
                } else if c == 'k' {
                    Some(Message::TopicUp)
                } else if c == 'i' {
                    Some(Message::EnterInsert)
                } else if c == 'a' {
                    Some(Message::EnterInsertAppend)
                } else if c == 'n' {
                    Some(Message::StartNewNote)
                } else if c == 't' {
                    Some(Message::ToggleThread)
                } else if c == 'w' {
                    Some(Message::ToggleStatus)
                } else if c == 'p' {
                    Some(Message::PullQuote)
                } else if c == '/' {
                    Some(Message::StartSearch)
                } else if c == 's' {
                    Some(Message::ToggleSession)
                } else {
                    None
                },
                KeyCode::Enter => Some(Message::OpenLatest),
                KeyCode::Esc => Some(Message::Escape),
                _ => None,
            },
            InputMode::Insert => match key.code {
                KeyCode::Esc => Some(Message::Escape),
                KeyCode::Char(c) => Some(Message::InsertChar(c)),
                KeyCode::Backspace => Some(Message::Backspace),
                KeyCode::Enter => Some(Message::Newline),
                KeyCode::Left => Some(Message::MoveLeft),
                KeyCode::Right => Some(Message::MoveRight),
                KeyCode::Up => Some(Message::MoveUp),
                KeyCode::Down => Some(Message::MoveDown),
                KeyCode::Home => Some(Message::Home),
                KeyCode::End => Some(Message::End),
                KeyCode::Other => None,
            },
            InputMode::Title => match key.code {
                KeyCode::Esc => Some(Message::Escape),
                KeyCode::Enter => Some(Message::Submit),
                KeyCode::Char(c) => Some(Message::InsertChar(c)),
                KeyCode::Backspace => Some(Message::Backspace),
                KeyCode::Left => Some(Message::MoveLeft),
                KeyCode::Right => Some(Message::MoveRight),
                KeyCode::Home => Some(Message::Home),
                KeyCode::End => Some(Message::End),
                _ => None,
            },
            InputMode::Search => match key.code {
                KeyCode::Esc => Some(Message::Escape),
                KeyCode::Enter => Some(Message::Submit),
                KeyCode::Char(c) => Some(Message::InsertChar(c)),
                KeyCode::Backspace => Some(Message::Backspace),
                KeyCode::Up => Some(Message::MoveUp),
                KeyCode::Down => Some(Message::MoveDown),
                _ => None,
            },
        }
    }
}

/// The message a key event sends in `mode`, if any (see [`key_message`]).
pub fn message_from_key(key: KeyInput, mode: InputMode) -> (m: Option<Message>)
    ensures
        m == key_message(key, mode),
        key.press && !key.ctrl && mode == InputMode::Insert ==> m == match key.code {
            KeyCode::Char(c) => Some(Message::InsertChar(c)),
            KeyCode::Backspace => Some(Message::Backspace),
            KeyCode::Enter => Some(Message::Newline),
            KeyCode::Esc => Some(Message::Escape),
            KeyCode::Left => Some(Message::MoveLeft),
            KeyCode::Right => Some(Message::MoveRight),
            KeyCode::Up => Some(Message::MoveUp),
            KeyCode::Down => Some(Message::MoveDown),
            KeyCode::Home => Some(Message::Home),
            KeyCode::End => Some(Message::End),
            KeyCode::Other => None,
        },
        key.press && !key.ctrl && mode == InputMode::Normal ==> m == match key.code {
            KeyCode::Char(c) => if c == 'q' || c == 'Q' {
                Some(Message::Quit)
            } else if c == 'j' {
                Some(Message::TopicDown)
            } else if c == 'k' {
                Some(Message::TopicUp)
            } else if c == 'i' {
                Some(Message::EnterInsert)
            } else if c == 'a' {
                Some(Message::EnterInsertAppend)
            } else if c == 'n' {
                Some(Message::StartNewNote)
            } else if c == 't' {
                Some(Message::ToggleThread)
            } else if c == 'w' {
                Some(Message::ToggleStatus)
            } else if c == 'p' {
                Some(Message::PullQuote)
            } else if c == '/' {
                Some(Message::StartSearch)
            } else if c == 's' {
                Some(Message::ToggleSession)
            } else {
                None
            },
            KeyCode::Enter => Some(Message::OpenLatest),
            KeyCode::Esc => Some(Message::Escape),
            _ => None,
        },
        key.press && !key.ctrl && mode == InputMode::Title ==> m == match key.code {
            KeyCode::Esc => Some(Message::Escape),
            KeyCode::Enter => Some(Message::Submit),
            KeyCode::Char(c) => Some(Message::InsertChar(c)),
            KeyCode::Backspace => Some(Message::Backspace),
            KeyCode::Left => Some(Message::MoveLeft),
            KeyCode::Right => Some(Message::MoveRight),
            KeyCode::Home => Some(Message::Home),
            KeyCode::End => Some(Message::End),
            _ => None,
        },
        key.press && !key.ctrl && mode == InputMode::Search ==> m == match key.code {
            KeyCode::Esc => Some(Message::Escape),
            KeyCode::Enter => Some(Message::Submit),
            KeyCode::Char(c) => Some(Message::InsertChar(c)),
            KeyCode::Backspace => Some(Message::Backspace),
            KeyCode::Up => Some(Message::MoveUp),
            KeyCode::Down => Some(Message::MoveDown),
            _ => None,
        },
        !key.press ==> m is None,
        key.press && key.ctrl ==> (m is Some <==> key.code == KeyCode::Char('s') || key.code
            == KeyCode::Char('S')) && (m is Some ==> m == Some(Message::Save)),
{
    if !key.press {
        return None;
    }
    if key.ctrl {
        return match key.code {
            KeyCode::Char(c) => if c == 's' || c == 'S' {
                Some(Message::Save)
            } else {
                None
            },
            _ => None,
        };
    }
    match mode {
        InputMode::Normal => match key.code {
            KeyCode::Char(c) => if c == 'q' || c == 'Q' {
                Some(Message::Quit)
            } else if c == 'j' {
                Some(Message::TopicDown)
            } else if c == 'k' {
                Some(Message::TopicUp)
            } else if c == 'i' {
                Some(Message::EnterInsert)
            } else if c == 'a' {
                Some(Message::EnterInsertAppend)
            } else if c == 'n' {
                Some(Message::StartNewNote)
            } else if c == 't' {
                Some(Message::ToggleThread)
            } else if c == 'w' {
                Some(Message::ToggleStatus)
            } else if c == 'p' {
                Some(Message::PullQuote)
            } else if c == '/' {
                Some(Message::StartSearch)
            } else if c == 's' {
                Some(Message::ToggleSession)
            } else {
                None
            },
            KeyCode::Enter => Some(Message::OpenLatest),
            KeyCode::Esc => Some(Message::Escape),
            _ => None,
        },
        InputMode::Insert => match key.code {
            KeyCode::Esc => Some(Message::Escape),
            KeyCode::Char(c) => Some(Message::InsertChar(c)),
            KeyCode::Backspace => Some(Message::Backspace),
            KeyCode::Enter => Some(Message::Newline),
            KeyCode::Left => Some(Message::MoveLeft),
            KeyCode::Right => Some(Message::MoveRight),
            KeyCode::Up => Some(Message::MoveUp),
            KeyCode::Down => Some(Message::MoveDown),
            KeyCode::Home => Some(Message::Home),
            KeyCode::End => Some(Message::End),
            KeyCode::Other => None,
        },
        InputMode::Title => match key.code {
            KeyCode::Esc => Some(Message::Escape),
            KeyCode::Enter => Some(Message::Submit),
            KeyCode::Char(c) => Some(Message::InsertChar(c)),
            KeyCode::Backspace => Some(Message::Backspace),
            KeyCode::Left => Some(Message::MoveLeft),
            KeyCode::Right => Some(Message::MoveRight),
            KeyCode::Home => Some(Message::Home),
            KeyCode::End => Some(Message::End),
            _ => None,
        },
        InputMode::Search => match key.code {
            KeyCode::Esc => Some(Message::Escape),
            KeyCode::Enter => Some(Message::Submit),
            KeyCode::Char(c) => Some(Message::InsertChar(c)),
            KeyCode::Backspace => Some(Message::Backspace),
            KeyCode::Up => Some(Message::MoveUp),
            KeyCode::Down => Some(Message::MoveDown),
            _ => None,
        },
    }
}

/// Control-S saves whatever the mode, and a key that is not a press never
/// sends anything.
pub proof fn law_ctrl_s_saves_everywhere(mode: InputMode, code: KeyCode, ctrl: bool)
    ensures
        key_message(KeyInput { code: KeyCode::Char('s'), ctrl: true, press: true }, mode) == Some(
            Message::Save,
        ),
        key_message(KeyInput { code, ctrl, press: false }, mode) is None,
{
}

/// In Insert, Title and Search mode every plain character is typed, `q`,
/// `j` and `k` included.
pub proof fn law_chars_type_outside_normal(c: char)
    ensures
        key_message(KeyInput { code: KeyCode::Char(c), ctrl: false, press: true }, InputMode::Insert)
            == Some(Message::InsertChar(c)),
        key_message(KeyInput { code: KeyCode::Char(c), ctrl: false, press: true }, InputMode::Title)
            == Some(Message::InsertChar(c)),
        key_message(KeyInput { code: KeyCode::Char(c), ctrl: false, press: true }, InputMode::Search)
            == Some(Message::InsertChar(c)),
{
}

/// Editing keys do what their names say wherever text is typed: a plain
/// press of Backspace deletes in Insert, Title and Search mode, Esc leaves
/// every mode, and in Insert mode Enter breaks the line and the arrows,
/// Home and End move the cursor.
pub proof fn law_editing_keys(mode: InputMode)
    ensures
        mode != InputMode::Normal ==> key_message(
            KeyInput { code: KeyCode::Backspace, ctrl: false, press: true },
            mode,
        ) == Some(Message::Backspace),
        key_message(KeyInput { code: KeyCode::Esc, ctrl: false, press: true }, mode) == Some(
            Message::Escape,
        ),
        key_message(KeyInput { code: KeyCode::Enter, ctrl: false, press: true }, InputMode::Insert)
            == Some(Message::Newline),
        key_message(KeyInput { code: KeyCode::Left, ctrl: false, press: true }, InputMode::Insert)
            == Some(Message::MoveLeft),
        key_message(KeyInput { code: KeyCode::Right, ctrl: false, press: true }, InputMode::Insert)
            == Some(Message::MoveRight),
        key_message(KeyInput { code: KeyCode::Up, ctrl: false, press: true }, InputMode::Insert)
            == Some(Message::MoveUp),
        key_message(KeyInput { code: KeyCode::Down, ctrl: false, press: true }, InputMode::Insert)
            == Some(Message::MoveDown),
        key_message(KeyInput { code: KeyCode::Home, ctrl: false, press: true }, InputMode::Insert)
            == Some(Message::Home),
        key_message(KeyInput { code: KeyCode::End, ctrl: false, press: true }, InputMode::Insert)
            == Some(Message::End),
{
}

} // verus!
