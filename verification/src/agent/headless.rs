//! Choosing the connection a headless run talks to.
use vstd::prelude::*;

use crate::config::connection::Connection;
use crate::config::layering::{find_key, key_index};
use crate::text::{chars_of, join, join_strings, strings_view};

verus! {

/// Why a headless run could not pick a connection.
#[derive(Debug)]
pub enum HeadlessError {
    /// No connection is configured.
    NoConnections,
    /// The requested connection is not configured.
    ConnectionNotFound(String),
    /// Several connections are configured and none was named; carries their
    /// names, comma-separated.
    AmbiguousConnection(String),
}

impl HeadlessError {
    /// The message shown to the user.
    pub fn message(&self) -> (r: String)
        ensures
            self is NoConnections ==> r@
                == "no connections configured; run `local-code connections add` first"@,
            self matches HeadlessError::ConnectionNotFound(n) ==> r@ == "connection '"@ + n@
                + "' not found"@,
            self matches HeadlessError::AmbiguousConnection(n) ==> r@
                == "multiple connections configured ("@ + n@
                + "); pass --connection <name> to choose one"@,
    {
        match self {
            HeadlessError::NoConnections => {
                "no connections configured; run `local-code connections add` first".to_owned()
            },
            HeadlessError::ConnectionNotFound(n) => {
                let mut m = chars_of("connection '");
                crate::text::append(&mut m, chars_of(n.as_str()).as_slice());
                crate::text::append(&mut m, chars_of("' not found").as_slice());
                crate::text::string_from(m.as_slice())
            },
            HeadlessError::AmbiguousConnection(n) => {
                let mut m = chars_of("multiple connections configured (");
                crate::text::append(&mut m, chars_of(n.as_str()).as_slice());
                crate::text::append(
                    &mut m,
                    chars_of("); pass --connection <name> to choose one").as_slice(),
                );
                crate::text::string_from(m.as_slice())
            },
        }
    }
}

/// The names of `cs`, in order.
pub open spec fn connection_names(cs: Seq<Connection>) -> Seq<Seq<char>> {
    cs.map_values(|c: Connection| c.name@)
}

/// Picks the connection to use: the one named, when a name is given (the
/// first of that name); otherwise the only one configured.
pub fn select_connection(connections: &[Connection], requested_name: Option<&str>) -> (r: Result<
    Connection,
    HeadlessError,
>)
    ensures
        requested_name matches Some(name) ==> match key_index(connections@, name@) {
            Some(i) => r matches Ok(c) && c@ == connections@[i]@,
            None => r matches Err(HeadlessError::ConnectionNotFound(n)) && n@ == name@,
        },
        requested_name is None && connections@.len() == 0 ==> r matches Err(
            HeadlessError::NoConnections,
        ),
        requested_name is None && connections@.len() == 1 ==> (r matches Ok(c) && c@
            == connections@[0]@),
        requested_name is None && connections@.len() > 1 ==> (r matches Err(
            HeadlessError::AmbiguousConnection(m),
        ) && m@ == join(connection_names(connections@), ", "@)),
{
    match requested_name {
        Some(name) => {
            let k = chars_of(name);
            match find_key(connections, k.as_slice()) {
                Some(i) => Ok(connections[i].copy()),
                None => Err(HeadlessError::ConnectionNotFound(name.to_owned())),
            }
        },
        None => {
            if connections.len() == 0 {
                Err(HeadlessError::NoConnections)
            } else if connections.len() == 1 {
                Ok(connections[0].copy())
            } else {
                let mut names: Vec<String> = Vec::new();
                let mut i: usize = 0;
                while i < connections.len()
                    invariant
                        i <= connections@.len(),
                        names@.len() == i,
                        strings_view(names@) == connection_names(connections@.take(i as int)),
                    decreases connections@.len() - i,
                {
                    let ghost before = names@;
                    names.push(connections[i].name.clone());
                    assert forall|j: int| 0 <= j <= i implies #[trigger] strings_view(names@)[j]
                        == connection_names(connections@.take(i + 1))[j] by {
                        if j < i {
                            assert(strings_view(before)[j] == connection_names(
                                connections@.take(i as int),
                            )[j]);
                        }
                    }
                    assert(strings_view(names@) =~= connection_names(connections@.take(i + 1)));
                    i = i + 1;
                }
                assert(connections@.take(connections@.len() as int) =~= connections@);
                Err(HeadlessError::AmbiguousConnection(join_strings(&names, ", ")))
            }
        },
    }
}

} // verus!
