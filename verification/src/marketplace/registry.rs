//! The registry of marketplaces (`marketplaces.toml`, user-level only): one
//! registration per name, where re-adding a name replaces it.
use vstd::prelude::*;

use crate::config::layering::{
    entry, find_key, has_key, lemma_entry_absent, lemma_entry_some, lemma_push_entry,
    lemma_without_key_entry, remove_key, without_key, without_key_law, Named,
};
use crate::config::paths::Paths;
use crate::marketplace::source::{MarketplaceSource, MarketplaceSourceView};
use crate::text::{append, chars_of, join_path, join_path_chars, string_from};

verus! {

/// The registry file: `marketplaces.toml` in the per-user configuration
/// directory. Marketplaces are a discovery mechanism and user-level only;
/// the skills installed from them land in the usual skill scopes.
pub fn registry_path(paths: &Paths) -> (r: String)
    ensures
        r@ == join_path(paths.user_config_dir@, "marketplaces.toml"@),
{
    let p = join_path_chars(
        chars_of(paths.user_config_dir.as_str()).as_slice(),
        chars_of("marketplaces.toml").as_slice(),
    );
    string_from(p.as_slice())
}

/// One registered marketplace: the catalog's own name (the `plugin@<name>`
/// suffix) and where its catalog is fetched from.
#[derive(Debug, Clone, PartialEq, Eq)]
pub struct RegisteredMarketplace {
    pub name: String,
    pub source: MarketplaceSource,
}

pub struct RegisteredMarketplaceView {
    pub name: Seq<char>,
    pub source: MarketplaceSourceView,
}

impl View for RegisteredMarketplace {
    type V = RegisteredMarketplaceView;

    open spec fn view(&self) -> RegisteredMarketplaceView {
        RegisteredMarketplaceView { name: self.name@, source: self.source@ }
    }
}

impl Named for RegisteredMarketplace {
    open spec fn key(&self) -> Seq<char> {
        self.name@
    }

    fn key_chars(&self) -> (r: Vec<char>) {
        chars_of(self.name.as_str())
    }
}

impl RegisteredMarketplace {
    /// A field-for-field copy.
    pub fn copy(&self) -> (r: RegisteredMarketplace)
        ensures
            r@ == self@,
    {
        RegisteredMarketplace { name: self.name.clone(), source: self.source.copy() }
    }
}

/// Why a registry operation was refused.
#[derive(Debug)]
pub enum RegistryError {
    /// No marketplace of that name is registered.
    NotRegistered(String),
}

impl RegistryError {
    /// The message shown to the user.
    pub fn message(&self) -> (r: String)
        ensures
            self matches RegistryError::NotRegistered(n) ==> r@ == "no marketplace named '"@ + n@
                + "' is registered (see `local-code marketplace list`)"@,
    {
        match self {
            RegistryError::NotRegistered(n) => {
                let mut m = chars_of("no marketplace named '");
                append(&mut m, chars_of(n.as_str()).as_slice());
                append(
                    &mut m,
                    chars_of("' is registered (see `local-code marketplace list`)").as_slice(),
                );
                string_from(m.as_slice())
            },
        }
    }
}

/// The registry after registering `e`: any registration of the same name
/// dropped, `e` appended.
pub open spec fn registered(reg: Seq<RegisteredMarketplace>, e: RegisteredMarketplace) -> Seq<
    RegisteredMarketplace,
> {
    without_key(reg, e.key()).push(e)
}

/// Registers a marketplace, replacing any registration of the same name;
/// tells whether one was replaced.
pub fn add_marketplace(registry: Vec<RegisteredMarketplace>, e: RegisteredMarketplace) -> (r: (
    Vec<RegisteredMarketplace>,
    bool,
))
    ensures
        r.0@ == registered(registry@, e),
        r.1 == has_key(registry@, e.key()),
{
    let k = e.key_chars();
    let replaced = find_key(registry.as_slice(), k.as_slice()).is_some();
    let mut rest = remove_key(registry, k.as_slice());
    rest.push(e);
    (rest, replaced)
}

/// Unregisters a marketplace; refused when none of that name is registered.
pub fn remove_marketplace(registry: Vec<RegisteredMarketplace>, name: &str) -> (r: Result<
    Vec<RegisteredMarketplace>,
    RegistryError,
>)
    ensures
        has_key(registry@, name@) ==> (r matches Ok(v) && v@ == without_key(registry@, name@)),
        !has_key(registry@, name@) ==> (r matches Err(RegistryError::NotRegistered(n)) && n@
            == name@),
{
    let before = registry.len();
    let ghost orig = registry@;
    let rest = remove_key(registry, chars_of(name).as_slice());
    proof {
        without_key_law(orig, name@);
    }
    if rest.len() == before {
        Err(RegistryError::NotRegistered(name.to_owned()))
    } else {
        Ok(rest)
    }
}

/// Looks up the registered marketplace `name`.
pub fn find_marketplace(registry: &[RegisteredMarketplace], name: &str) -> (r: Result<
    RegisteredMarketplace,
    RegistryError,
>)
    ensures
        match entry(registry@, name@) {
            Some(m) => r matches Ok(x) && x@ == m@,
            None => r matches Err(RegistryError::NotRegistered(n)) && n@ == name@,
        },
{
    match find_key(registry, chars_of(name).as_slice()) {
        Some(i) => Ok(registry[i].copy()),
        None => Err(RegistryError::NotRegistered(name.to_owned())),
    }
}

/// After registering `e`, looking up its name finds `e`, the name is
/// registered once, and every other lookup is unchanged.
pub proof fn registry_law(reg: Seq<RegisteredMarketplace>, e: RegisteredMarketplace)
    ensures
        entry(registered(reg, e), e.key()) == Some(e),
        forall|i: int|
            0 <= i < registered(reg, e).len() - 1 ==> (#[trigger] registered(reg, e)[i]).key()
                != e.key(),
        forall|k: Seq<char>|
            k != e.key() ==> #[trigger] entry(registered(reg, e), k) == entry(reg, k),
{
    let w = without_key(reg, e.key());
    without_key_law(reg, e.key());
    lemma_push_entry(w, e, e.key());
    assert forall|i: int| 0 <= i < registered(reg, e).len() - 1 implies (#[trigger] registered(
        reg,
        e,
    )[i]).key() != e.key() by {
        assert(registered(reg, e)[i] == w[i]);
    }
    assert forall|k: Seq<char>| k != e.key() implies #[trigger] entry(registered(reg, e), k)
        == entry(reg, k) by {
        lemma_without_key_entry(reg, e.key(), k);
        lemma_push_entry(w, e, k);
        lemma_entry_some(w, k);
    }
}

/// After unregistering `name`, looking it up finds nothing.
pub proof fn unregister_law(reg: Seq<RegisteredMarketplace>, name: Seq<char>)
    ensures
        entry(without_key(reg, name), name) is None,
{
    without_key_law(reg, name);
    lemma_entry_absent(without_key(reg, name), name);
}

} // verus!
