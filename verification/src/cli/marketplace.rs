//! `local-code marketplace ...`: what adding, listing and removing
//! marketplaces print.
use vstd::prelude::*;

use crate::cli::skills::{bitbucket_malformed_message, skill_client};
use crate::marketplace::install::MarketplaceError;
use crate::marketplace::registry::RegisteredMarketplace;
use crate::skills::types::{Host, SkillClient};
use crate::marketplace::source::summary_spec;
use crate::text::{append, chars_of, decimal, decimal_chars, split_once, string_from};

verus! {

/// The client for a host that a marketplace fetch goes to (a plugin's host
/// may differ from its marketplace's): the skills client for `host` built
/// with the key stored for it, a malformed key being refused as
/// [`MarketplaceError::ClientBuild`].
pub fn marketplace_host_client(host: Host, stored_key: Option<String>) -> (r: Result<
    SkillClient,
    MarketplaceError,
>)
    ensures
        host == Host::GitHub ==> (r matches Ok(SkillClient::GitHub { token }) && token
            == stored_key),
        host == Host::GitLab ==> (r matches Ok(SkillClient::GitLab { token }) && token
            == stored_key),
        host == Host::Bitbucket ==> match stored_key {
            None => r matches Ok(SkillClient::Bitbucket { credentials: None }),
            Some(k) => match split_once(k@, ':') {
                Some((u, p)) => r matches Ok(SkillClient::Bitbucket { credentials: Some((a, b)) })
                    && a@ == u && b@ == p,
                None => r matches Err(MarketplaceError::ClientBuild(e)) && e@
                    == bitbucket_malformed_message(),
            },
        },
{
    match skill_client(host, stored_key) {
        Ok(c) => Ok(c),
        Err(e) => Err(MarketplaceError::ClientBuild(e)),
    }
}

/// What `marketplace add` prints once the catalog is fetched and recorded:
/// whether an earlier registration of the name was replaced, the catalog's
/// name, where it came from and how many plugins it offers.
pub fn add_report(replaced: bool, name: &str, summary: &str, plugin_count: usize) -> (r: String)
    ensures
        r@ == (if replaced {
            "Replaced"@
        } else {
            "Added"@
        }) + " marketplace '"@ + name@ + "' from "@ + summary@ + " ("@ + decimal(plugin_count as nat)
            + " plugin(s))\n"@,
{
    let mut m = if replaced {
        chars_of("Replaced")
    } else {
        chars_of("Added")
    };
    append(&mut m, chars_of(" marketplace '").as_slice());
    append(&mut m, chars_of(name).as_slice());
    append(&mut m, chars_of("' from ").as_slice());
    append(&mut m, chars_of(summary).as_slice());
    append(&mut m, chars_of(" (").as_slice());
    append(&mut m, decimal_chars(plugin_count).as_slice());
    append(&mut m, chars_of(" plugin(s))\n").as_slice());
    string_from(m.as_slice())
}

/// One `<name> · <source>` row per registered marketplace.
pub open spec fn marketplace_rows(v: Seq<RegisteredMarketplace>) -> Seq<char>
    decreases v.len(),
{
    if v.len() == 0 {
        Seq::empty()
    } else {
        marketplace_rows(v.drop_last()) + v.last().name@ + " · "@ + summary_spec(v.last().source@)
            + "\n"@
    }
}

/// What `marketplace list` prints.
pub fn list(marketplaces: &[RegisteredMarketplace]) -> (r: String)
    ensures
        marketplaces@.len() == 0 ==> r@ == "No marketplaces registered.\n"@,
        marketplaces@.len() > 0 ==> r@ == marketplace_rows(marketplaces@),
{
    if marketplaces.len() == 0 {
        return "No marketplaces registered.\n".to_owned();
    }
    let mut out: Vec<char> = Vec::new();
    let mut i: usize = 0;
    while i < marketplaces.len()
        invariant
            i <= marketplaces@.len(),
            out@ == marketplace_rows(marketplaces@.take(i as int)),
        decreases marketplaces@.len() - i,
    {
        assert(marketplaces@.take(i + 1).drop_last() =~= marketplaces@.take(i as int));
        let m = &marketplaces[i];
        append(&mut out, chars_of(m.name.as_str()).as_slice());
        append(&mut out, chars_of(" · ").as_slice());
        append(&mut out, chars_of(m.source.summary().as_str()).as_slice());
        append(&mut out, chars_of("\n").as_slice());
        i = i + 1;
    }
    assert(marketplaces@.take(marketplaces@.len() as int) =~= marketplaces@);
    string_from(out.as_slice())
}

/// What `marketplace remove` prints once the registration is gone.
pub fn remove(name: &str) -> (r: String)
    ensures
        r@ == "Removed marketplace '"@ + name@
            + "' (skills already installed from its plugins were left in place)\n"@,
{
    let mut m = chars_of("Removed marketplace '");
    append(&mut m, chars_of(name).as_slice());
    append(
        &mut m,
        chars_of("' (skills already installed from its plugins were left in place)\n").as_slice(),
    );
    string_from(m.as_slice())
}

} // verus!
