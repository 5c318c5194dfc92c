//! Naming of the secrets kept in the OS keyring: connection API keys are
//! stored under the connection's name, generic named secrets under a
//! `secret:` prefix so the two can never collide.
use vstd::prelude::*;

use crate::text::{append, chars_of, string_from};

verus! {

/// The keyring service every entry of this program is stored under.
pub fn service_name() -> (r: &'static str)
    ensures
        r@ == "local-code"@,
{
    "local-code"
}

/// A character allowed in a secret's name.
pub open spec fn is_secret_name_char(c: char) -> bool {
    ('a' <= c && c <= 'z') || ('A' <= c && c <= 'Z') || ('0' <= c && c <= '9') || c == '-' || c
        == '_'
}

/// Valid secret names: non-empty, ASCII letters and digits, `-` and `_` (the
/// charset a `${keyring:<name>}` reference matches).
pub open spec fn valid_secret_name(name: Seq<char>) -> bool {
    name.len() > 0 && forall|i: int| 0 <= i < name.len() ==> is_secret_name_char(#[trigger] name[i])
}

/// Whether `name` may name a generic secret.
pub fn is_valid_secret_name(name: &str) -> (r: bool)
    ensures
        r == valid_secret_name(name@),
{
    let cs = chars_of(name);
    if cs.len() == 0 {
        return false;
    }
    let mut i: usize = 0;
    while i < cs.len()
        invariant
            i <= cs@.len(),
            cs@ == name@,
            forall|j: int| 0 <= j < i ==> is_secret_name_char(#[trigger] cs@[j]),
        decreases cs@.len() - i,
    {
        let c = cs[i];
        if !(('a' <= c && c <= 'z') || ('A' <= c && c <= 'Z') || ('0' <= c && c <= '9') || c
            == '-' || c == '_') {
            return false;
        }
        i = i + 1;
    }
    true
}

/// The keyring user a generic secret is stored under: `secret:<name>`.
pub open spec fn secret_user_spec(name: Seq<char>) -> Seq<char> {
    "secret:"@ + name
}

/// The keyring user of the generic secret `name`.
pub fn secret_user(name: &str) -> (r: String)
    ensures
        r@ == secret_user_spec(name@),
{
    let mut m = chars_of("secret:");
    append(&mut m, chars_of(name).as_slice());
    string_from(m.as_slice())
}

/// The keyring user of a generic secret always starts with `secret:`.
pub proof fn secret_users_are_prefixed(name: Seq<char>)
    ensures
        secret_user_spec(name).take(7) == "secret:"@,
{
    reveal_strlit("secret:");
    assert(secret_user_spec(name).take(7) =~= "secret:"@);
}

} // verus!
