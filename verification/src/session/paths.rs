//! Where a project's sessions are stored: a directory per project under the
//! user state directory, named by a readable, file-system-safe slug of the
//! project's root.
use vstd::prelude::*;

use crate::text::{
    append, chars_of, decimal, decimal_u64_chars, hex_fixed, hex_fixed_chars, join_path,
    join_path_chars, lemma_decimal_injective, lemma_decimal_nonempty, string_from, trim, trimmed,
    CharClass,
};

verus! {

/// The hash of a path as `std`'s `DefaultHasher::new()` computes it over
/// `Path::hash`.
pub uninterp spec fn path_hash(path: Seq<char>) -> u64;

/// Hashes the path `path` with a `DefaultHasher` made by `new()`, which
/// starts from fixed keys: the contract claims only that the result is a
/// function of the path, named `path_hash` (the value is not stable across
/// Rust releases, as `std` documents).
#[verifier::external_body]
fn hash_path(path: &str) -> (r: u64)
    ensures
        r == path_hash(path@),
{
    let mut hasher = std::collections::hash_map::DefaultHasher::new();
    std::hash::Hash::hash(std::path::Path::new(path), &mut hasher);
    std::hash::Hasher::finish(&hasher)
}

pub open spec fn is_ascii_alphanumeric(c: char) -> bool {
    ('a' <= c && c <= 'z') || ('A' <= c && c <= 'Z') || ('0' <= c && c <= '9')
}

/// `c` kept when it is an ASCII letter or digit, `_` otherwise.
pub open spec fn slug_char(c: char) -> char {
    if is_ascii_alphanumeric(c) {
        c
    } else {
        '_'
    }
}

/// The readable part of a slug: the path with every other character turned
/// into `_`, trimmed of `_`, and cut to its last 40 characters.
pub open spec fn readable_tail(path: Seq<char>) -> Seq<char> {
    let readable = trim(path.map_values(|c: char| slug_char(c)), CharClass::Exactly('_'));
    if readable.len() > 40 {
        readable.skip(readable.len() - 40)
    } else {
        readable
    }
}

/// The slug of a project root: its readable tail, a `-`, and the path's
/// hash as 16 hexadecimal digits.
pub open spec fn slug_of(path: Seq<char>, hash: u64) -> Seq<char> {
    readable_tail(path) + seq!['-'] + hex_fixed(hash as nat, 16)
}

/// A character that is safe in a directory name.
pub open spec fn is_slug_safe(c: char) -> bool {
    is_ascii_alphanumeric(c) || c == '_' || c == '-'
}

proof fn lemma_hex_safe(n: nat, width: nat)
    ensures
        forall|i: int| 0 <= i < hex_fixed(n, width).len() ==> is_slug_safe(
            #[trigger] hex_fixed(n, width)[i],
        ),
        hex_fixed(n, width).len() == width,
    decreases width,
{
    if width > 0 {
        lemma_hex_safe(n / 16, (width - 1) as nat);
    }
}

proof fn lemma_trim_end_sub(s: Seq<char>, c: char)
    ensures
        crate::text::trim_end(s, CharClass::Exactly(c)) == s.take(
            crate::text::trim_end(s, CharClass::Exactly(c)).len() as int,
        ),
        crate::text::trim_end(s, CharClass::Exactly(c)).len() <= s.len(),
    decreases s.len(),
{
    if s.len() > 0 && s.last() == c {
        lemma_trim_end_sub(s.drop_last(), c);
        let t = crate::text::trim_end(s.drop_last(), CharClass::Exactly(c));
        assert(s.drop_last().take(t.len() as int) =~= s.take(t.len() as int));
    } else {
        assert(s.take(s.len() as int) =~= s);
    }
}

proof fn lemma_trim_start_sub(s: Seq<char>, c: char)
    ensures
        crate::text::trim_start(s, CharClass::Exactly(c)) == s.skip(
            s.len() - crate::text::trim_start(s, CharClass::Exactly(c)).len(),
        ),
        crate::text::trim_start(s, CharClass::Exactly(c)).len() <= s.len(),
    decreases s.len(),
{
    if s.len() > 0 && s[0] == c {
        lemma_trim_start_sub(s.drop_first(), c);
        let t = crate::text::trim_start(s.drop_first(), CharClass::Exactly(c));
        assert(s.drop_first().skip(s.drop_first().len() - t.len()) =~= s.skip(
            s.len() - t.len(),
        ));
    } else {
        assert(s.skip(0) =~= s);
    }
}

/// Every character of a slug is an ASCII letter or digit, `_` or `-`.
pub proof fn slug_is_file_system_safe(path: Seq<char>, hash: u64)
    ensures
        forall|i: int| 0 <= i < slug_of(path, hash).len() ==> is_slug_safe(
            #[trigger] slug_of(path, hash)[i],
        ),
{
    let mapped = path.map_values(|c: char| slug_char(c));
    assert forall|i: int| 0 <= i < mapped.len() implies is_slug_safe(#[trigger] mapped[i]) by {}
    let ts = crate::text::trim_start(mapped, CharClass::Exactly('_'));
    lemma_trim_start_sub(mapped, '_');
    assert forall|i: int| 0 <= i < ts.len() implies is_slug_safe(#[trigger] ts[i]) by {
        assert(ts[i] == mapped[mapped.len() - ts.len() + i]);
    }
    let r = crate::text::trim_end(ts, CharClass::Exactly('_'));
    lemma_trim_end_sub(ts, '_');
    assert forall|i: int| 0 <= i < r.len() implies is_slug_safe(#[trigger] r[i]) by {
        assert(r[i] == ts[i]);
    }
    let tail = readable_tail(path);
    assert forall|i: int| 0 <= i < tail.len() implies is_slug_safe(#[trigger] tail[i]) by {
        if r.len() > 40 {
            assert(tail[i] == r[r.len() - 40 + i]);
        }
    }
    lemma_hex_safe(hash as nat, 16);
    let s = slug_of(path, hash);
    assert forall|i: int| 0 <= i < s.len() implies is_slug_safe(#[trigger] s[i]) by {
        if i < tail.len() {
            assert(s[i] == tail[i]);
        } else if i == tail.len() {
            assert(s[i] == '-');
        } else {
            assert(s[i] == hex_fixed(hash as nat, 16)[i - tail.len() - 1]);
        }
    }
}

fn slug_char_exec(c: char) -> (r: char)
    ensures
        r == slug_char(c),
{
    if ('a' <= c && c <= 'z') || ('A' <= c && c <= 'Z') || ('0' <= c && c <= '9') {
        c
    } else {
        '_'
    }
}

/// The directory name of a project's sessions, derived from its (already
/// canonical) root path: readable, file-system-safe, and distinct per path
/// up to a hash collision.
pub fn project_slug(project_root: &str) -> (r: String)
    ensures
        r@ == slug_of(project_root@, path_hash(project_root@)),
        forall|i: int| 0 <= i < r@.len() ==> is_slug_safe(#[trigger] r@[i]),
{
    let hash = hash_path(project_root);
    let cs = chars_of(project_root);
    let mut mapped: Vec<char> = Vec::new();
    let mut i: usize = 0;
    while i < cs.len()
        invariant
            i <= cs@.len(),
            mapped@ == cs@.take(i as int).map_values(|c: char| slug_char(c)),
        decreases cs@.len() - i,
    {
        mapped.push(slug_char_exec(cs[i]));
        assert(mapped@ =~= cs@.take(i + 1).map_values(|c: char| slug_char(c)));
        i = i + 1;
    }
    assert(cs@.take(cs@.len() as int) =~= cs@);
    let readable = trimmed(mapped.as_slice(), &CharClass::Exactly('_'));
    let n = readable.len();
    let tail = if n > 40 {
        crate::text::slice(readable.as_slice(), n - 40, n)
    } else {
        readable
    };
    let mut out = tail;
    out.push('-');
    append(&mut out, hex_fixed_chars(hash, 16).as_slice());
    proof {
        slug_is_file_system_safe(project_root@, hash);
    }
    string_from(out.as_slice())
}

/// The directory holding every session of the project whose canonical root
/// is `project_root`: `sessions/<slug>` under the user state directory.
pub fn session_dir_for_project(user_state_dir: &str, project_root: &str) -> (r: String)
    ensures
        r@ == join_path(
            join_path(user_state_dir@, "sessions"@),
            slug_of(project_root@, path_hash(project_root@)),
        ),
{
    let sessions = join_path_chars(chars_of(user_state_dir).as_slice(), chars_of("sessions").as_slice());
    let slug = project_slug(project_root);
    let dir = join_path_chars(sessions.as_slice(), chars_of(slug.as_str()).as_slice());
    string_from(dir.as_slice())
}

/// The file name of a session started at `stamp` (the UTC time as
/// `%Y%m%dT%H%M%SZ`): `<stamp>.json`, or `<stamp>-<k>.json` for the `k`-th
/// try when the earlier names are taken, so two sessions started in the
/// same second get distinct files.
pub open spec fn session_file_name(stamp: Seq<char>, attempt: nat) -> Seq<char> {
    if attempt == 0 {
        stamp + ".json"@
    } else {
        stamp + "-"@ + decimal(attempt) + ".json"@
    }
}

/// The `attempt`-th candidate path of a new session in the session
/// directory `dir`; the first one not yet on disk is taken.
pub fn session_path_candidate(dir: &str, stamp: &str, attempt: u64) -> (r: String)
    ensures
        r@ == join_path(dir@, session_file_name(stamp@, attempt as nat)),
{
    let mut name = chars_of(stamp);
    if attempt > 0 {
        append(&mut name, chars_of("-").as_slice());
        append(&mut name, decimal_u64_chars(attempt).as_slice());
    }
    append(&mut name, chars_of(".json").as_slice());
    string_from(join_path_chars(chars_of(dir).as_slice(), name.as_slice()).as_slice())
}

proof fn lemma_join_path_injective(base: Seq<char>, a: Seq<char>, b: Seq<char>)
    requires
        join_path(base, a) == join_path(base, b),
    ensures
        a == b,
{
    let p = if base.len() == 0 {
        Seq::<char>::empty()
    } else if base.last() == '/' {
        base
    } else {
        base + seq!['/']
    };
    assert(join_path(base, a) =~= p + a);
    assert(join_path(base, b) =~= p + b);
    assert((p + a).subrange(p.len() as int, (p + a).len() as int) =~= a);
    assert((p + b).subrange(p.len() as int, (p + b).len() as int) =~= b);
}

/// No two tries for a new session's file name the same path: a taken
/// name is never offered again.
pub proof fn session_candidates_differ(dir: Seq<char>, stamp: Seq<char>, j: nat, k: nat)
    requires
        j != k,
    ensures
        join_path(dir, session_file_name(stamp, j)) != join_path(dir, session_file_name(stamp, k)),
{
    reveal_strlit(".json");
    reveal_strlit("-");
    if join_path(dir, session_file_name(stamp, j)) == join_path(dir, session_file_name(stamp, k)) {
        lemma_join_path_injective(dir, session_file_name(stamp, j), session_file_name(stamp, k));
        let x = session_file_name(stamp, j);
        let y = session_file_name(stamp, k);
        assert(x == y);
        if j == 0 || k == 0 {
            let n = if j == 0 { k } else { j };
            lemma_decimal_nonempty(n);
            assert(x.len() != y.len());
        } else {
            let dj = decimal(j);
            let dk = decimal(k);
            assert(x =~= stamp + "-"@ + dj + ".json"@);
            assert(y =~= stamp + "-"@ + dk + ".json"@);
            assert(dj.len() == dk.len());
            let s: int = stamp.len() as int + 1;
            assert(x.subrange(s, s + dj.len()) =~= dj);
            assert(y.subrange(s, s + dk.len()) =~= dk);
            lemma_decimal_injective(j, k);
        }
    }
}

} // verus!
