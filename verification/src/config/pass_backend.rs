//! Entry naming of the `pass` (password-store) backend: a keyring
//! (service, user) pair lives at `<service>/<user>` in the store.
use vstd::prelude::*;

use crate::text::{append, chars_of, string_from};

verus! {

/// The store entry of a keyring (service, user) pair.
pub fn entry_name(service: &str, user: &str) -> (r: String)
    ensures
        r@ == service@ + "/"@ + user@,
{
    let mut m = chars_of(service);
    append(&mut m, chars_of("/").as_slice());
    append(&mut m, chars_of(user).as_slice());
    string_from(m.as_slice())
}

} // verus!
