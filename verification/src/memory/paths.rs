//! The fixed file names of the memory directory.
use vstd::prelude::*;

use crate::text::{chars_of, join_path, join_path_chars, string_from};

verus! {

/// The files of a memory directory.
#[derive(Debug, Clone, PartialEq)]
pub struct MemoryPaths {
    pub dir: String,
    /// The short-term buffer, `now.md`.
    pub buffer: String,
    /// The rolling window of recent days, `recent.md`.
    pub recent: String,
    /// Everything older, `archive.md`.
    pub archive: String,
    /// Memories always loaded in full, `core-memories.md`.
    pub core_memories: String,
}

fn file_in(dir: &str, name: &str) -> (r: String)
    ensures
        r@ == join_path(dir@, name@),
{
    string_from(join_path_chars(chars_of(dir).as_slice(), chars_of(name).as_slice()).as_slice())
}

impl MemoryPaths {
    /// The files of the memory directory `memory_dir`.
    pub fn new(memory_dir: &str) -> (r: MemoryPaths)
        ensures
            r.dir@ == memory_dir@,
            r.buffer@ == join_path(memory_dir@, "now.md"@),
            r.recent@ == join_path(memory_dir@, "recent.md"@),
            r.archive@ == join_path(memory_dir@, "archive.md"@),
            r.core_memories@ == join_path(memory_dir@, "core-memories.md"@),
    {
        MemoryPaths {
            dir: memory_dir.to_owned(),
            buffer: file_in(memory_dir, "now.md"),
            recent: file_in(memory_dir, "recent.md"),
            archive: file_in(memory_dir, "archive.md"),
            core_memories: file_in(memory_dir, "core-memories.md"),
        }
    }
}

impl MemoryPaths {
    /// The daily file of the date written `date_text` (`YYYY-MM-DD`):
    /// `today-<date>.md`.
    pub fn daily(&self, date_text: &str) -> (r: String)
        ensures
            r@ == join_path(self.dir@, "today-"@ + date_text@ + ".md"@),
    {
        let mut name = chars_of("today-");
        crate::text::append(&mut name, chars_of(date_text).as_slice());
        crate::text::append(&mut name, chars_of(".md").as_slice());
        string_from(join_path_chars(chars_of(self.dir.as_str()).as_slice(), name.as_slice()).as_slice())
    }
}

} // verus!
