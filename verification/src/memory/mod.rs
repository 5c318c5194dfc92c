//! Flat-file memory across sessions: a short-term buffer rolled into daily
//! files, a recent window and an archive, and core memories always loaded.
use vstd::prelude::*;

use crate::text::{append, chars_of, string_from};

pub mod buffer;
pub mod paths;
pub mod rollup;
pub mod search;

pub use paths::MemoryPaths;

verus! {

/// Why a memory file could not be read or written; carries the path and
/// the system's reason.
#[derive(Debug)]
pub enum MemoryError {
    Read { path: String, reason: String },
    Write { path: String, reason: String },
    CreateDir { path: String, reason: String },
}

impl MemoryError {
    /// The message shown to the user.
    pub fn message(&self) -> (r: String)
        ensures
            self matches MemoryError::Read { path, reason } ==> r@ == "failed to read "@ + path@
                + ": "@ + reason@,
            self matches MemoryError::Write { path, reason } ==> r@ == "failed to write "@ + path@
                + ": "@ + reason@,
            self matches MemoryError::CreateDir { path, reason } ==> r@
                == "failed to create directory "@ + path@ + ": "@ + reason@,
    {
        let (mut m, path, reason) = match self {
            MemoryError::Read { path, reason } => (chars_of("failed to read "), path, reason),
            MemoryError::Write { path, reason } => (chars_of("failed to write "), path, reason),
            MemoryError::CreateDir { path, reason } => (
                chars_of("failed to create directory "),
                path,
                reason,
            ),
        };
        append(&mut m, chars_of(path.as_str()).as_slice());
        append(&mut m, chars_of(": ").as_slice());
        append(&mut m, chars_of(reason.as_str()).as_slice());
        string_from(m.as_slice())
    }
}

} // verus!
