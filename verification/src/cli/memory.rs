//! `local-code memory ...`: what searching, reading and recording memories
//! print.
use vstd::prelude::*;

use crate::config::paths::Paths;
use crate::memory::search::MemoryHit;
use crate::text::{append, chars_of, decimal, decimal_chars, join_path, join_path_chars, string_from};

verus! {

/// The project's memory directory: `memory` under the project-level
/// configuration directory.
pub fn memory_dir(paths: &Paths) -> (r: String)
    ensures
        r@ == join_path(paths.project_config_dir@, "memory"@),
{
    let d = join_path_chars(
        chars_of(paths.project_config_dir.as_str()).as_slice(),
        chars_of("memory").as_slice(),
    );
    string_from(d.as_slice())
}

pub open spec fn hit_lines(h: Seq<MemoryHit>) -> Seq<char>
    decreases h.len(),
{
    if h.len() == 0 {
        Seq::empty()
    } else {
        hit_lines(h.drop_last()) + h.last().file@ + ":"@ + decimal(h.last().line_number as nat)
            + ": "@ + h.last().line@ + "\n"@
    }
}

/// What `memory search <query>` prints for its hits.
pub fn search_command(query: &str, hits: &[MemoryHit]) -> (r: String)
    ensures
        hits@.len() == 0 ==> r@ == "No memory entries matched '"@ + query@ + "'.\n"@,
        hits@.len() > 0 ==> r@ == hit_lines(hits@),
{
    if hits.len() == 0 {
        let mut m = chars_of("No memory entries matched '");
        append(&mut m, chars_of(query).as_slice());
        append(&mut m, chars_of("'.\n").as_slice());
        return string_from(m.as_slice());
    }
    let mut out: Vec<char> = Vec::new();
    let mut i: usize = 0;
    while i < hits.len()
        invariant
            i <= hits@.len(),
            out@ == hit_lines(hits@.take(i as int)),
        decreases hits@.len() - i,
    {
        assert(hits@.take(i + 1).drop_last() =~= hits@.take(i as int));
        let h = &hits[i];
        append(&mut out, chars_of(h.file.as_str()).as_slice());
        append(&mut out, chars_of(":").as_slice());
        append(&mut out, decimal_chars(h.line_number).as_slice());
        append(&mut out, chars_of(": ").as_slice());
        append(&mut out, chars_of(h.line.as_str()).as_slice());
        append(&mut out, chars_of("\n").as_slice());
        i = i + 1;
    }
    assert(hits@.take(hits@.len() as int) =~= hits@);
    string_from(out.as_slice())
}

/// What `memory core` prints: the core memories as they are, or a note
/// that there are none.
pub fn core_command(content: &str) -> (r: String)
    ensures
        content@.len() == 0 ==> r@ == "No core memories recorded yet.\n"@,
        content@.len() > 0 ==> r@ == content@,
{
    if chars_of(content).len() == 0 {
        "No core memories recorded yet.\n".to_owned()
    } else {
        content.to_owned()
    }
}

} // verus!
