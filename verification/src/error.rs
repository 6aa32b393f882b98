//! Shared error type for the note store.

use vstd::prelude::*;

verus! {

/// What can go wrong reading, writing or naming notes. I/O and YAML errors
/// carry the message of the underlying error.
#[derive(Debug, Clone)]
pub enum Error {
    Io(String),
    Yaml(String),
    MissingFrontMatter,
    InvalidDatetime(String),
    InvalidTopic(String),
    NotFound(String),
}

} // verus!
