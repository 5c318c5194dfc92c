//! Atomic file writes: a sibling temporary file is created exclusively,
//! written, flushed and synced, then renamed over the target. What is
//! decided there, the temporary file's name and whether a name collision
//! is tried again, stands here; the file operations stand with the caller.
use vstd::prelude::*;

use crate::text::{append, chars_of, decimal, decimal_u64_chars, lemma_decimal_injective, string_from};

verus! {

/// How many temporary names a write tries before a collision is final.
pub const CREATE_ATTEMPTS: u32 = 3;

/// `<target>.tmp-<pid>-<n>`: the process id tells processes apart, the
/// counter `n` the writes of one process.
pub open spec fn tmp_path_spec(target: Seq<char>, pid: nat, n: nat) -> Seq<char> {
    target + ".tmp-"@ + decimal(pid) + "-"@ + decimal(n)
}

/// The temporary file that the `n`-th write of process `pid` to `target`
/// goes to before it is renamed over `target`.
pub fn tmp_path_for(target: &str, pid: u32, n: u64) -> (r: String)
    ensures
        r@ == tmp_path_spec(target@, pid as nat, n as nat),
{
    let mut p = chars_of(target);
    append(&mut p, chars_of(".tmp-").as_slice());
    append(&mut p, decimal_u64_chars(pid as u64).as_slice());
    append(&mut p, chars_of("-").as_slice());
    append(&mut p, decimal_u64_chars(n).as_slice());
    string_from(p.as_slice())
}

/// Whether a write tries a fresh temporary name after its `attempt`-th
/// exclusive create failed: only when the name was taken, and at most
/// [`CREATE_ATTEMPTS`] times in all. Any other failure is final.
pub fn retry_create(attempt: u32, already_exists: bool) -> (r: bool)
    ensures
        r == (already_exists && attempt < CREATE_ATTEMPTS),
{
    already_exists && attempt < CREATE_ATTEMPTS
}

/// Successive writes of one process to one target use different temporary
/// files: the counter is part of the name.
pub proof fn successive_tmp_paths_differ(target: Seq<char>, pid: nat, n: nat, m: nat)
    requires
        n != m,
    ensures
        tmp_path_spec(target, pid, n) != tmp_path_spec(target, pid, m),
{
    let p = target + ".tmp-"@ + decimal(pid) + "-"@;
    assert(tmp_path_spec(target, pid, n) =~= p + decimal(n));
    assert(tmp_path_spec(target, pid, m) =~= p + decimal(m));
    if tmp_path_spec(target, pid, n) == tmp_path_spec(target, pid, m) {
        let x = p + decimal(n);
        let y = p + decimal(m);
        assert(x.len() == y.len());
        assert(x.subrange(p.len() as int, x.len() as int) =~= decimal(n));
        assert(y.subrange(p.len() as int, y.len() as int) =~= decimal(m));
        lemma_decimal_injective(n, m);
    }
}

} // verus!
