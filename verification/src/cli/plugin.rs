//! `local-code plugin ...`: the `<plugin>@<marketplace>` reference, and what
//! installing, listing, removing and updating plugins print.
use vstd::prelude::*;

use crate::cli::skills::{scope_label, scope_name};
use crate::marketplace::install::{AvailablePlugin, MarketplaceError, PluginUpdateReport};
use crate::marketplace::registry::RegisteredMarketplace;
use crate::skills::types::Scope;
use crate::text::{
    append, append_framed, chars_of, chars_views, contains_char, decimal, decimal_chars, framed,
    has_char, join, join_chars, split_once, split_once_at, string_from,
};

verus! {

pub open spec fn plugin_spec_message() -> Seq<char> {
    "expected <plugin>@<marketplace> (e.g. code-formatter@acme-tools)"@
}

/// An unknown-plugin refusal with a pointer to `plugin list`, which shows
/// what `marketplace` does offer; any other refusal is left as it is
/// (`None`).
pub fn with_plugin_list_hint(e: &MarketplaceError, marketplace: &str) -> (r: Option<String>)
    ensures
        match e {
            MarketplaceError::UnknownPlugin { marketplace: m, plugin: p } => r matches Some(t)
                && t@ == "marketplace '"@ + m@ + "' has no plugin named '"@ + p@
                + "' (see `local-code plugin list` for what '"@ + marketplace@ + "' offers)"@,
            _ => r is None,
        },
{
    match e {
        MarketplaceError::UnknownPlugin { marketplace: m, plugin: p } => {
            let mut t = chars_of("marketplace '");
            append(&mut t, chars_of(m.as_str()).as_slice());
            append(&mut t, chars_of("' has no plugin named '").as_slice());
            append(&mut t, chars_of(p.as_str()).as_slice());
            append(&mut t, chars_of("' (see `local-code plugin list` for what '").as_slice());
            append(&mut t, chars_of(marketplace).as_slice());
            append(&mut t, chars_of("' offers)").as_slice());
            Some(string_from(t.as_slice()))
        },
        _ => None,
    }
}

/// A `<plugin>@<marketplace>` reference split at its `@`: both parts
/// non-empty and only one `@`.
pub open spec fn plugin_spec_parts(spec: Seq<char>) -> Option<(Seq<char>, Seq<char>)> {
    match split_once(spec, '@') {
        Some((p, m)) => if p.len() > 0 && m.len() > 0 && !has_char(m, '@') {
            Some((p, m))
        } else {
            None
        },
        None => None,
    }
}

/// Parses a `<plugin>@<marketplace>` install reference.
pub fn parse_plugin_spec(spec: &str) -> (r: Result<(String, String), String>)
    ensures
        match plugin_spec_parts(spec@) {
            Some((p, m)) => r matches Ok((a, b)) && a@ == p && b@ == m,
            None => r matches Err(e) && e@ == plugin_spec_message(),
        },
{
    match split_once_at(chars_of(spec).as_slice(), '@') {
        Some((p, m)) => if p.len() > 0 && m.len() > 0 && !contains_char(m.as_slice(), '@') {
            Ok((string_from(p.as_slice()), string_from(m.as_slice())))
        } else {
            Err("expected <plugin>@<marketplace> (e.g. code-formatter@acme-tools)".to_owned())
        },
        None => Err("expected <plugin>@<marketplace> (e.g. code-formatter@acme-tools)".to_owned()),
    }
}

/// One `  skill '<name>'` line per skill.
pub open spec fn skill_lines(names: Seq<String>) -> Seq<char> {
    framed("  skill '"@, names, "'\n"@)
}

/// What `plugin install` prints once the plugin's skills are installed.
pub fn install_report(plugin: &str, marketplace: &str, scope: Scope, installed: &[String]) -> (r:
    String)
    ensures
        r@ == "Installed plugin '"@ + plugin@ + "' from marketplace '"@ + marketplace@ + "' ("@
            + scope_name(scope) + "):\n"@ + skill_lines(installed@),
{
    let mut m = chars_of("Installed plugin '");
    append(&mut m, chars_of(plugin).as_slice());
    append(&mut m, chars_of("' from marketplace '").as_slice());
    append(&mut m, chars_of(marketplace).as_slice());
    append(&mut m, chars_of("' (").as_slice());
    append(&mut m, chars_of(scope_label(scope)).as_slice());
    append(&mut m, chars_of("):\n").as_slice());
    append_framed(&mut m, "  skill '", installed, "'\n");
    string_from(m.as_slice())
}

/// What `plugin remove` prints once the plugin's skills are removed.
pub fn remove(name: &str, scope: Scope, removed: &[String]) -> (r: String)
    ensures
        r@ == "Removed plugin '"@ + name@ + "' ("@ + scope_name(scope) + "):\n"@ + skill_lines(
            removed@,
        ),
{
    let mut m = chars_of("Removed plugin '");
    append(&mut m, chars_of(name).as_slice());
    append(&mut m, chars_of("' (").as_slice());
    append(&mut m, chars_of(scope_label(scope)).as_slice());
    append(&mut m, chars_of("):\n").as_slice());
    append_framed(&mut m, "  skill '", removed, "'\n");
    string_from(m.as_slice())
}

/// The printed names of some scopes.
pub open spec fn scope_names(scopes: Seq<Scope>) -> Seq<Seq<char>> {
    scopes.map_values(|s: Scope| scope_name(s))
}

/// Whether, and where, a plugin is installed: `not installed`, or
/// `installed (<scope>, ...)`.
pub open spec fn install_status(scopes: Seq<Scope>) -> Seq<char> {
    if scopes.len() == 0 {
        "not installed"@
    } else {
        "installed ("@ + join(scope_names(scopes), ", "@) + ")"@
    }
}

/// The row of an available plugin:
/// `<name>@<marketplace> · <description> · <status>`.
pub open spec fn available_row(p: AvailablePlugin) -> Seq<char> {
    p.name@ + "@"@ + p.marketplace@ + " · "@ + (match p.description {
        Some(d) => d@,
        None => "(no description)"@,
    }) + " · "@ + install_status(p.installed_scopes@) + "\n"@
}

/// The rows of available plugins, in order.
pub open spec fn available_rows(v: Seq<AvailablePlugin>) -> Seq<char>
    decreases v.len(),
{
    if v.len() == 0 {
        Seq::empty()
    } else {
        available_rows(v.drop_last()) + available_row(v.last())
    }
}

fn install_status_exec(scopes: &[Scope]) -> (r: Vec<char>)
    ensures
        r@ == install_status(scopes@),
{
    if scopes.len() == 0 {
        return chars_of("not installed");
    }
    let mut labels: Vec<Vec<char>> = Vec::new();
    let mut i: usize = 0;
    while i < scopes.len()
        invariant
            i <= scopes@.len(),
            labels@.len() == i,
            chars_views(labels@) =~= scope_names(scopes@.take(i as int)),
        decreases scopes@.len() - i,
    {
        let ghost before = labels@;
        let l = chars_of(scope_label(scopes[i]));
        labels.push(l);
        assert forall|j: int| 0 <= j <= i implies #[trigger] chars_views(labels@)[j] == scope_names(
            scopes@.take(i + 1),
        )[j] by {
            if j < i {
                assert(chars_views(before)[j] == scope_names(scopes@.take(i as int))[j]);
                assert(labels@[j] == before[j]);
            }
        }
        assert(chars_views(labels@) =~= scope_names(scopes@.take(i + 1)));
        i = i + 1;
    }
    assert(scopes@.take(scopes@.len() as int) =~= scopes@);
    let mut r = chars_of("installed (");
    append(&mut r, join_chars(&labels, chars_of(", ").as_slice()).as_slice());
    append(&mut r, chars_of(")").as_slice());
    r
}

fn available_row_exec(p: &AvailablePlugin) -> (r: Vec<char>)
    ensures
        r@ == available_row(*p),
{
    let mut r = chars_of(p.name.as_str());
    append(&mut r, chars_of("@").as_slice());
    append(&mut r, chars_of(p.marketplace.as_str()).as_slice());
    append(&mut r, chars_of(" · ").as_slice());
    match &p.description {
        Some(d) => append(&mut r, chars_of(d.as_str()).as_slice()),
        None => append(&mut r, chars_of("(no description)").as_slice()),
    }
    append(&mut r, chars_of(" · ").as_slice());
    append(&mut r, install_status_exec(p.installed_scopes.as_slice()).as_slice());
    append(&mut r, chars_of("\n").as_slice());
    r
}

/// What `plugin list` prints, given the registered marketplaces and the
/// plugins their catalogs offer.
pub fn list(marketplaces: &[RegisteredMarketplace], available: &[AvailablePlugin]) -> (r: String)
    ensures
        marketplaces@.len() == 0 ==> r@
            == "No marketplaces registered (add one with `local-code marketplace add`).\n"@,
        marketplaces@.len() > 0 && available@.len() == 0 ==> r@ == "No plugins available.\n"@,
        marketplaces@.len() > 0 && available@.len() > 0 ==> r@ == available_rows(available@),
{
    if marketplaces.len() == 0 {
        return "No marketplaces registered (add one with `local-code marketplace add`).\n".to_owned();
    }
    if available.len() == 0 {
        return "No plugins available.\n".to_owned();
    }
    let mut out: Vec<char> = Vec::new();
    let mut i: usize = 0;
    while i < available.len()
        invariant
            i <= available@.len(),
            out@ == available_rows(available@.take(i as int)),
        decreases available@.len() - i,
    {
        assert(available@.take(i + 1).drop_last() =~= available@.take(i as int));
        append(&mut out, available_row_exec(&available[i]).as_slice());
        i = i + 1;
    }
    assert(available@.take(available@.len() as int) =~= available@);
    string_from(out.as_slice())
}

/// How updating a plugin from one of its marketplaces went.
#[derive(Debug)]
pub enum UpdateOutcome {
    /// The update ran; what it did.
    Updated(PluginUpdateReport),
    /// The update failed, with the error's text.
    Failed(String),
}

/// What an update report prints: the updated, newly installed and removed
/// skills, or that the plugin is already up to date.
pub open spec fn report_text(name: Seq<char>, r: PluginUpdateReport) -> Seq<char> {
    framed("Updated skill '"@, r.updated@, "'\n"@) + framed(
        "Installed new skill '"@,
        r.added@,
        "'\n"@,
    ) + framed("Removed skill '"@, r.removed@, "' (no longer in the plugin)\n"@) + (if r.updated@.len()
        == 0 && r.added@.len() == 0 && r.removed@.len() == 0 {
        "Plugin '"@ + name + "' is already up to date\n"@
    } else {
        Seq::empty()
    })
}

/// What one outcome prints.
pub open spec fn outcome_text(name: Seq<char>, o: UpdateOutcome) -> Seq<char> {
    match o {
        UpdateOutcome::Updated(r) => report_text(name, r),
        UpdateOutcome::Failed(e) => "Failed to update plugin '"@ + name + "': "@ + e@ + "\n"@,
    }
}

/// What the outcomes print, in order.
pub open spec fn outcomes_text(name: Seq<char>, os: Seq<UpdateOutcome>) -> Seq<char>
    decreases os.len(),
{
    if os.len() == 0 {
        Seq::empty()
    } else {
        outcomes_text(name, os.drop_last()) + outcome_text(name, os.last())
    }
}

/// How many of the outcomes are failures.
pub open spec fn failures(os: Seq<UpdateOutcome>) -> nat
    decreases os.len(),
{
    if os.len() == 0 {
        0
    } else {
        failures(os.drop_last()) + if os.last() is Failed {
            1nat
        } else {
            0nat
        }
    }
}

proof fn lemma_failures_bounded(os: Seq<UpdateOutcome>)
    ensures
        failures(os) <= os.len(),
    decreases os.len(),
{
    if os.len() > 0 {
        lemma_failures_bounded(os.drop_last());
    }
}

fn report_text_exec(out: &mut Vec<char>, name: &str, r: &PluginUpdateReport)
    ensures
        final(out)@ == old(out)@ + report_text(name@, *r),
{
    append_framed(out, "Updated skill '", r.updated.as_slice(), "'\n");
    append_framed(out, "Installed new skill '", r.added.as_slice(), "'\n");
    append_framed(out, "Removed skill '", r.removed.as_slice(), "' (no longer in the plugin)\n");
    if r.updated.len() == 0 && r.added.len() == 0 && r.removed.len() == 0 {
        append(out, chars_of("Plugin '").as_slice());
        append(out, chars_of(name).as_slice());
        append(out, chars_of("' is already up to date\n").as_slice());
    }
}

/// What `plugin update` prints, one outcome per marketplace the plugin was
/// installed from, and whether the command fails: when no marketplace
/// holds it (nothing printed), or when any update failed.
pub fn update(name: &str, outcomes: &[UpdateOutcome]) -> (r: (String, Result<(), String>))
    ensures
        outcomes@.len() == 0 ==> r.0@.len() == 0 && (r.1 matches Err(e) && e@ == "no plugin named '"@
            + name@ + "' is installed in this scope"@),
        outcomes@.len() > 0 ==> r.0@ == outcomes_text(name@, outcomes@),
        outcomes@.len() > 0 && failures(outcomes@) == 0 ==> r.1 is Ok,
        outcomes@.len() > 0 && failures(outcomes@) > 0 ==> (r.1 matches Err(e) && e@ == decimal(
            failures(outcomes@),
        ) + " plugin update(s) failed"@),
{
    if outcomes.len() == 0 {
        let mut e = chars_of("no plugin named '");
        append(&mut e, chars_of(name).as_slice());
        append(&mut e, chars_of("' is installed in this scope").as_slice());
        return (String::new(), Err(string_from(e.as_slice())));
    }
    let mut out: Vec<char> = Vec::new();
    let mut failed: usize = 0;
    let mut i: usize = 0;
    while i < outcomes.len()
        invariant
            i <= outcomes@.len(),
            out@ == outcomes_text(name@, outcomes@.take(i as int)),
            failed == failures(outcomes@.take(i as int)),
        decreases outcomes@.len() - i,
    {
        assert(outcomes@.take(i + 1).drop_last() =~= outcomes@.take(i as int));
        proof {
            lemma_failures_bounded(outcomes@.take(i as int));
        }
        match &outcomes[i] {
            UpdateOutcome::Updated(rep) => report_text_exec(&mut out, name, rep),
            UpdateOutcome::Failed(e) => {
                append(&mut out, chars_of("Failed to update plugin '").as_slice());
                append(&mut out, chars_of(name).as_slice());
                append(&mut out, chars_of("': ").as_slice());
                append(&mut out, chars_of(e.as_str()).as_slice());
                append(&mut out, chars_of("\n").as_slice());
                failed = failed + 1;
            },
        }
        i = i + 1;
    }
    assert(outcomes@.take(outcomes@.len() as int) =~= outcomes@);
    let text = string_from(out.as_slice());
    if failed > 0 {
        let mut e = decimal_chars(failed);
        append(&mut e, chars_of(" plugin update(s) failed").as_slice());
        (text, Err(string_from(e.as_slice())))
    } else {
        (text, Ok(()))
    }
}

} // verus!
