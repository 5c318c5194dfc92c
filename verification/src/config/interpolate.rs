//! The secret-reference syntax of configuration strings: `${VAR_NAME}` names
//! an environment variable and `${keyring:<name>}` a secret of the OS
//! keyring. References are found left to right in one pass, so a
//! substituted value is never scanned again; an unknown name resolves to the
//! empty string.
use vstd::prelude::*;

use crate::text::{append, chars_of, slice, string_from};

verus! {

/// Which store a reference names.
#[derive(Debug, Clone, Copy, PartialEq, Eq, Structural)]
pub enum RefKind {
    /// `${keyring:<name>}`: a named secret of the OS keyring.
    Keyring,
    /// `${NAME}`: an environment variable.
    Env,
}

pub open spec fn is_ascii_alpha(c: char) -> bool {
    ('a' <= c && c <= 'z') || ('A' <= c && c <= 'Z')
}

pub open spec fn is_ascii_digit(c: char) -> bool {
    '0' <= c && c <= '9'
}

/// Characters of a keyring secret name: ASCII letters, digits, `-`, `_`.
pub open spec fn is_secret_char(c: char) -> bool {
    is_ascii_alpha(c) || is_ascii_digit(c) || c == '-' || c == '_'
}

/// First character of an environment variable name.
pub open spec fn is_var_start(c: char) -> bool {
    is_ascii_alpha(c) || c == '_'
}

/// Later characters of an environment variable name.
pub open spec fn is_var_char(c: char) -> bool {
    is_ascii_alpha(c) || is_ascii_digit(c) || c == '_'
}

pub open spec fn in_name_class(secret: bool, c: char) -> bool {
    if secret {
        is_secret_char(c)
    } else {
        is_var_char(c)
    }
}

/// The end of the longest run of name characters starting at `j`.
pub open spec fn run_end(s: Seq<char>, j: int, secret: bool) -> int
    decreases s.len() - j,
{
    if 0 <= j < s.len() && in_name_class(secret, s[j]) {
        run_end(s, j + 1, secret)
    } else {
        j
    }
}

/// `${keyring:` as characters.
pub open spec fn keyring_open() -> Seq<char> {
    seq!['$', '{', 'k', 'e', 'y', 'r', 'i', 'n', 'g', ':']
}

/// A `${keyring:<name>}` reference starting at `i`: the name and the index
/// just past the closing brace.
pub open spec fn keyring_ref_at(s: Seq<char>, i: int) -> Option<(Seq<char>, int)> {
    if 0 <= i && i + 10 <= s.len() && s.subrange(i, i + 10) == keyring_open() {
        let e = run_end(s, i + 10, true);
        if e > i + 10 && e < s.len() && s[e] == '}' {
            Some((s.subrange(i + 10, e), e + 1))
        } else {
            None
        }
    } else {
        None
    }
}

/// A `${NAME}` reference starting at `i`: the name and the index just past
/// the closing brace.
pub open spec fn env_ref_at(s: Seq<char>, i: int) -> Option<(Seq<char>, int)> {
    if 0 <= i && i + 3 <= s.len() && s[i] == '$' && s[i + 1] == '{' && is_var_start(s[i + 2]) {
        let e = run_end(s, i + 3, false);
        if e < s.len() && s[e] == '}' {
            Some((s.subrange(i + 2, e), e + 1))
        } else {
            None
        }
    } else {
        None
    }
}

/// The reference starting at `i`, if any; the keyring form is tried first.
pub open spec fn ref_at(s: Seq<char>, i: int) -> Option<(RefKind, Seq<char>, int)> {
    match keyring_ref_at(s, i) {
        Some((name, end)) => Some((RefKind::Keyring, name, end)),
        None => match env_ref_at(s, i) {
            Some((name, end)) => Some((RefKind::Env, name, end)),
            None => None,
        },
    }
}

pub proof fn lemma_run_end(s: Seq<char>, j: int, secret: bool)
    requires
        0 <= j <= s.len(),
    ensures
        j <= run_end(s, j, secret) <= s.len(),
        forall|k: int| j <= k < run_end(s, j, secret) ==> in_name_class(secret, #[trigger] s[k]),
    decreases s.len() - j,
{
    if j < s.len() && in_name_class(secret, s[j]) {
        lemma_run_end(s, j + 1, secret);
    }
}

pub proof fn lemma_ref_end(s: Seq<char>, i: int)
    requires
        0 <= i < s.len(),
    ensures
        ref_at(s, i) matches Some((_, _, end)) ==> i < end <= s.len(),
{
    if i + 10 <= s.len() {
        lemma_run_end(s, i + 10, true);
    }
    if i + 3 <= s.len() {
        lemma_run_end(s, i + 3, false);
    }
}

/// A lookup table of names to values, first entry winning.
pub open spec fn lookup(table: Seq<(Seq<char>, Seq<char>)>, name: Seq<char>) -> Seq<char>
    decreases table.len(),
{
    if table.len() == 0 {
        Seq::empty()
    } else if table[0].0 == name {
        table[0].1
    } else {
        lookup(table.drop_first(), name)
    }
}

pub open spec fn table_view(t: Seq<(String, String)>) -> Seq<(Seq<char>, Seq<char>)> {
    t.map_values(|p: (String, String)| (p.0@, p.1@))
}

/// What a reference resolves to: its value in the table of its store, or
/// the empty string.
pub open spec fn resolve(
    kind: RefKind,
    name: Seq<char>,
    env: Seq<(Seq<char>, Seq<char>)>,
    secrets: Seq<(Seq<char>, Seq<char>)>,
) -> Seq<char> {
    match kind {
        RefKind::Keyring => lookup(secrets, name),
        RefKind::Env => lookup(env, name),
    }
}

/// `s[i..]` with every reference replaced by what it resolves to.
pub open spec fn interpolate_from(
    s: Seq<char>,
    i: int,
    env: Seq<(Seq<char>, Seq<char>)>,
    secrets: Seq<(Seq<char>, Seq<char>)>,
) -> Seq<char>
    decreases s.len() - i,
{
    if i < 0 || i >= s.len() {
        Seq::empty()
    } else {
        match ref_at(s, i) {
            Some((kind, name, end)) => {
                proof {
                    lemma_ref_end(s, i);
                }
                resolve(kind, name, env, secrets) + interpolate_from(s, end, env, secrets)
            },
            None => seq![s[i]] + interpolate_from(s, i + 1, env, secrets),
        }
    }
}

/// A name that no entry of the table carries looks up to the empty string:
/// an unset variable or a missing keyring secret resolves to nothing.
pub proof fn unknown_names_resolve_empty(table: Seq<(Seq<char>, Seq<char>)>, name: Seq<char>)
    requires
        forall|i: int| 0 <= i < table.len() ==> (#[trigger] table[i]).0 != name,
    ensures
        lookup(table, name) == Seq::<char>::empty(),
    decreases table.len(),
{
    if table.len() > 0 {
        assert(table[0].0 != name);
        assert forall|i: int| 0 <= i < table.drop_first().len() implies (
        #[trigger] table.drop_first()[i]).0 != name by {
            assert(table.drop_first()[i] == table[i + 1]);
        }
        unknown_names_resolve_empty(table.drop_first(), name);
    }
}

/// Text without references is left as it is, whatever the tables hold.
pub proof fn text_without_references_is_unchanged(
    s: Seq<char>,
    i: int,
    env: Seq<(Seq<char>, Seq<char>)>,
    secrets: Seq<(Seq<char>, Seq<char>)>,
)
    requires
        0 <= i <= s.len(),
        forall|j: int| i <= j < s.len() ==> #[trigger] ref_at(s, j) is None,
    ensures
        interpolate_from(s, i, env, secrets) == s.skip(i),
    decreases s.len() - i,
{
    if i < s.len() {
        assert(ref_at(s, i) is None);
        text_without_references_is_unchanged(s, i + 1, env, secrets);
        assert(s.skip(i) =~= seq![s[i]] + s.skip(i + 1));
    } else {
        assert(s.skip(i) =~= Seq::<char>::empty());
    }
}

/// The references of `s[i..]`, in order.
pub open spec fn references_from(s: Seq<char>, i: int) -> Seq<(RefKind, Seq<char>)>
    decreases s.len() - i,
{
    if i < 0 || i >= s.len() {
        Seq::empty()
    } else {
        match ref_at(s, i) {
            Some((kind, name, end)) => {
                proof {
                    lemma_ref_end(s, i);
                }
                seq![(kind, name)] + references_from(s, end)
            },
            None => references_from(s, i + 1),
        }
    }
}

fn secret_char(c: char) -> (r: bool)
    ensures
        r == is_secret_char(c),
{
    ('a' <= c && c <= 'z') || ('A' <= c && c <= 'Z') || ('0' <= c && c <= '9') || c == '-' || c
        == '_'
}

fn var_start(c: char) -> (r: bool)
    ensures
        r == is_var_start(c),
{
    ('a' <= c && c <= 'z') || ('A' <= c && c <= 'Z') || c == '_'
}

fn var_char(c: char) -> (r: bool)
    ensures
        r == is_var_char(c),
{
    ('a' <= c && c <= 'z') || ('A' <= c && c <= 'Z') || ('0' <= c && c <= '9') || c == '_'
}

fn name_char(secret: bool, c: char) -> (r: bool)
    ensures
        r == in_name_class(secret, c),
{
    if secret {
        secret_char(c)
    } else {
        var_char(c)
    }
}

fn name_run_end(s: &[char], j: usize, secret: bool) -> (e: usize)
    requires
        j <= s@.len(),
    ensures
        e as int == run_end(s@, j as int, secret),
{
    let mut e = j;
    while e < s.len() && name_char(secret, s[e])
        invariant
            j <= e <= s@.len(),
            run_end(s@, j as int, secret) == run_end(s@, e as int, secret),
        decreases s@.len() - e,
    {
        e = e + 1;
    }
    e
}

fn keyring_prefix_at(s: &[char], i: usize) -> (r: bool)
    requires
        i + 10 <= s@.len(),
    ensures
        r == (s@.subrange(i as int, i + 10) == keyring_open()),
{
    let open = ['$', '{', 'k', 'e', 'y', 'r', 'i', 'n', 'g', ':'];
    assert(open@ == keyring_open());
    let n = s.len();
    let mut k: usize = 0;
    while k < 10
        invariant
            n == s@.len(),
            i + 10 <= s@.len(),
            open@ == keyring_open(),
            k <= 10,
            forall|m: int| 0 <= m < k ==> s@[i + m] == open@[m],
        decreases 10 - k,
    {
        if s[i + k] != open[k] {
            assert(s@.subrange(i as int, i + 10)[k as int] != keyring_open()[k as int]);
            return false;
        }
        k = k + 1;
    }
    assert(s@.subrange(i as int, i + 10) =~= keyring_open());
    true
}

/// The reference starting at `i`, with its name and the index past it.
fn ref_at_exec(s: &[char], i: usize) -> (r: Option<(RefKind, Vec<char>, usize)>)
    requires
        i < s@.len(),
    ensures
        r matches Some((kind, name, end)) ==> ref_at(s@, i as int) == Some(
            (kind, name@, end as int),
        ),
        r is None ==> ref_at(s@, i as int) is None,
{
    let n = s.len();
    if n - i >= 10 && keyring_prefix_at(s, i) {
        let e = name_run_end(s, i + 10, true);
        proof {
            lemma_run_end(s@, i + 10, true);
        }
        if e > i + 10 && e < n && s[e] == '}' {
            return Some((RefKind::Keyring, slice(s, i + 10, e), e + 1));
        }
    }
    if n - i >= 3 && s[i] == '$' && s[i + 1] == '{' && var_start(s[i + 2]) {
        let e = name_run_end(s, i + 3, false);
        proof {
            lemma_run_end(s@, i + 3, false);
        }
        if e < n && s[e] == '}' {
            return Some((RefKind::Env, slice(s, i + 2, e), e + 1));
        }
    }
    None
}

/// The value of `name` in `table` (first entry winning), or the empty
/// string.
pub fn lookup_exec(table: &Vec<(String, String)>, name: &[char]) -> (r: Vec<char>)
    ensures
        r@ == lookup(table_view(table@), name@),
{
    let mut i: usize = 0;
    assert(table_view(table@).skip(0) == table_view(table@));
    while i < table.len()
        invariant
            i <= table@.len(),
            lookup(table_view(table@), name@) == lookup(table_view(table@).skip(i as int), name@),
        decreases table@.len() - i,
    {
        let key = chars_of(table[i].0.as_str());
        assert(table_view(table@).skip(i as int)[0] == (table@[i as int].0@, table@[i as int].1@));
        if crate::text::same(&key, name) {
            return chars_of(table[i].1.as_str());
        }
        assert(table_view(table@).skip(i as int).drop_first() == table_view(table@).skip(i + 1));
        i = i + 1;
    }
    Vec::new()
}

/// Replaces every `${keyring:<name>}` with that secret from `secrets` and
/// every `${VAR_NAME}` with that variable from `env`, in one left-to-right
/// pass; a name that neither table holds becomes the empty string.
pub fn interpolate_refs(
    value: &str,
    env: &Vec<(String, String)>,
    secrets: &Vec<(String, String)>,
) -> (r: String)
    ensures
        r@ == interpolate_from(value@, 0, table_view(env@), table_view(secrets@)),
{
    let s = chars_of(value);
    let ghost e = table_view(env@);
    let ghost k = table_view(secrets@);
    let mut out: Vec<char> = Vec::new();
    let mut i: usize = 0;
    while i < s.len()
        invariant
            s@ == value@,
            e == table_view(env@),
            k == table_view(secrets@),
            i <= s@.len(),
            interpolate_from(s@, 0, e, k) == out@ + interpolate_from(s@, i as int, e, k),
        decreases s@.len() - i,
    {
        match ref_at_exec(&s, i) {
            Some((kind, name, end)) => {
                proof {
                    lemma_ref_end(s@, i as int);
                }
                let v = match kind {
                    RefKind::Keyring => lookup_exec(secrets, &name),
                    RefKind::Env => lookup_exec(env, &name),
                };
                let ghost before = out@;
                append(&mut out, &v);
                assert(out@ + interpolate_from(s@, end as int, e, k) == before + (v@
                    + interpolate_from(s@, end as int, e, k)));
                i = end;
            },
            None => {
                let ghost before = out@;
                out.push(s[i]);
                assert(out@ + interpolate_from(s@, i + 1, e, k) == before + (seq![s@[i as int]]
                    + interpolate_from(s@, i + 1, e, k)));
                i = i + 1;
            },
        }
    }
    assert(out@ + interpolate_from(s@, i as int, e, k) == out@);
    string_from(&out)
}

/// The references `value` holds, in order: what a caller must look up
/// before calling [`interpolate_refs`].
pub fn references(value: &str) -> (r: Vec<(RefKind, String)>)
    ensures
        r@.map_values(|p: (RefKind, String)| (p.0, p.1@)) == references_from(value@, 0),
{
    let s = chars_of(value);
    let mut out: Vec<(RefKind, String)> = Vec::new();
    let mut i: usize = 0;
    while i < s.len()
        invariant
            s@ == value@,
            i <= s@.len(),
            references_from(s@, 0) == out@.map_values(|p: (RefKind, String)| (p.0, p.1@))
                + references_from(s@, i as int),
        decreases s@.len() - i,
    {
        match ref_at_exec(&s, i) {
            Some((kind, name, end)) => {
                proof {
                    lemma_ref_end(s@, i as int);
                }
                let ghost before = out@.map_values(|p: (RefKind, String)| (p.0, p.1@));
                out.push((kind, string_from(&name)));
                assert(out@.map_values(|p: (RefKind, String)| (p.0, p.1@)) == before.push(
                    (kind, name@),
                ));
                assert(before.push((kind, name@)) + references_from(s@, end as int) == before + (
                seq![(kind, name@)] + references_from(s@, end as int)));
                i = end;
            },
            None => {
                i = i + 1;
            },
        }
    }
    out
}

} // verus!
