//! Thinking Log: dated notes on topics over time. This library holds the
//! logic of the terminal app: a char-safe editor buffer, the note file
//! format, the `config.toml` scan, the key map, the store's rules (topic
//! names, ordering, threads, latest note, search, file names), pull-quotes,
//! the session timer and the app model.

pub mod app;
pub mod clock;
pub mod config;
pub mod editor;
pub mod error;
pub mod keys;
pub mod lines;
pub mod note;
pub mod order;
pub mod quote;
pub mod session;
pub mod sort;
pub mod store;
pub mod text;
pub mod ui;
