//! `local-code secret ...`: storing, removing and listing named secrets. A
//! value is read from a line of input, never taken as an argument, and is
//! never printed.
use vstd::prelude::*;

use crate::config::secrets::{is_valid_secret_name, valid_secret_name};
use crate::text::{append, chars_of, string_from, trim, trimmed, CharClass};

verus! {

/// What `secret set` prints before reading the value.
pub fn set_prompt(name: &str) -> (r: String)
    ensures
        r@ == "Value for '"@ + name@ + "': "@,
{
    let mut m = chars_of("Value for '");
    append(&mut m, chars_of(name).as_slice());
    append(&mut m, chars_of("': ").as_slice());
    string_from(m.as_slice())
}

/// A secret ready to be stored.
#[derive(Debug)]
pub struct SecretToStore {
    pub value: String,
    pub message: String,
}

/// `secret set <name>` given the line read: the trimmed value and the
/// confirmation; refused when the value is blank or the name invalid.
pub fn set(name: &str, line: &str) -> (r: Result<SecretToStore, String>)
    ensures
        trim(line@, CharClass::WhiteSpace).len() == 0 ==> (r matches Err(e) && e@
            == "secret value cannot be empty"@),
        trim(line@, CharClass::WhiteSpace).len() > 0 && !valid_secret_name(name@) ==> (r matches Err(
            e,
        ) && e@ == "invalid secret name '"@ + name@
            + "': use ASCII letters, digits, '-' and '_'"@),
        r is Ok <==> (trim(line@, CharClass::WhiteSpace).len() > 0 && valid_secret_name(name@)),
        r matches Ok(s) ==> s.value@ == trim(line@, CharClass::WhiteSpace) && s.message@
            == "Stored secret '"@ + name@ + "'.\n"@,
{
    let value = trimmed(chars_of(line).as_slice(), &CharClass::WhiteSpace);
    if value.len() == 0 {
        return Err("secret value cannot be empty".to_owned());
    }
    if !is_valid_secret_name(name) {
        let mut m = chars_of("invalid secret name '");
        append(&mut m, chars_of(name).as_slice());
        append(&mut m, chars_of("': use ASCII letters, digits, '-' and '_'").as_slice());
        return Err(string_from(m.as_slice()));
    }
    let mut m = chars_of("Stored secret '");
    append(&mut m, chars_of(name).as_slice());
    append(&mut m, chars_of("'.\n").as_slice());
    Ok(SecretToStore { value: string_from(value.as_slice()), message: string_from(m.as_slice()) })
}

/// What `secret rm <name>` prints once the secret is removed.
pub fn rm(name: &str) -> (r: String)
    ensures
        r@ == "Removed secret '"@ + name@ + "'.\n"@,
{
    let mut m = chars_of("Removed secret '");
    append(&mut m, chars_of(name).as_slice());
    append(&mut m, chars_of("'.\n").as_slice());
    string_from(m.as_slice())
}

/// The lines of a list of names.
pub open spec fn name_lines(names: Seq<String>) -> Seq<char>
    decreases names.len(),
{
    if names.len() == 0 {
        Seq::empty()
    } else {
        name_lines(names.drop_last()) + names.last()@ + "\n"@
    }
}

/// What `secret ls` prints: the names only, one per line.
pub fn ls(names: &[String]) -> (r: String)
    ensures
        names@.len() == 0 ==> r@ == "No secrets stored. Run `local-code secret set <name>`.\n"@,
        names@.len() > 0 ==> r@ == name_lines(names@),
{
    if names.len() == 0 {
        return "No secrets stored. Run `local-code secret set <name>`.\n".to_owned();
    }
    let mut out: Vec<char> = Vec::new();
    let mut i: usize = 0;
    while i < names.len()
        invariant
            i <= names@.len(),
            out@ == name_lines(names@.take(i as int)),
        decreases names@.len() - i,
    {
        assert(names@.take(i + 1).drop_last() =~= names@.take(i as int));
        append(&mut out, chars_of(names[i].as_str()).as_slice());
        append(&mut out, chars_of("\n").as_slice());
        i = i + 1;
    }
    assert(names@.take(names@.len() as int) =~= names@);
    string_from(out.as_slice())
}

} // verus!
