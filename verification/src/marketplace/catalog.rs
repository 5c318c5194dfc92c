//! The catalog a marketplace publishes (`marketplace.json` in its plugin directory),
//! scoped to the fields this program acts on, with the validation its own
//! behaviour depends on: names usable as `plugin@marketplace` parts, and
//! plugin source paths that stay inside the marketplace.
use vstd::prelude::*;

use crate::config::layering::{find_key, key_index, Named};
use crate::text::{
    append, chars_of, contains_seq, has_infix, has_prefix, has_suffix, is_white_space, same,
    starts_with, ends_with, string_from, strip_prefix, stripped_prefix, trim, trim_end,
    trimmed, trimmed_end, white_space, wrapped, CharClass,
};

verus! {

/// The parsed catalog.
#[derive(Debug, Clone, PartialEq)]
pub struct MarketplaceCatalog {
    pub name: String,
    pub owner: CatalogOwner,
    /// Top-level `description`.
    pub description: Option<String>,
    pub metadata: CatalogMetadata,
    pub plugins: Vec<CatalogPlugin>,
}

#[derive(Debug, Clone, PartialEq)]
pub struct CatalogOwner {
    pub name: String,
    pub email: Option<String>,
}

#[derive(Debug, Clone, PartialEq)]
pub struct CatalogMetadata {
    /// The fallback description.
    pub description: Option<String>,
    /// Parsed for completeness; unused.
    pub version: Option<String>,
    /// The base directory of bare relative plugin sources (`pluginRoot`).
    pub plugin_root: Option<String>,
}

/// One plugin the catalog offers.
#[derive(Debug, Clone, PartialEq)]
pub struct CatalogPlugin {
    pub name: String,
    pub source: PluginSource,
    pub description: Option<String>,
    pub version: Option<String>,
    pub author: Option<CatalogOwner>,
    /// Custom skill-directory paths (one path, or a list).
    pub skills: Option<OneOrManyStrings>,
}

impl Named for CatalogPlugin {
    open spec fn key(&self) -> Seq<char> {
        self.name@
    }

    fn key_chars(&self) -> (r: Vec<char>) {
        chars_of(self.name.as_str())
    }
}

/// A field given as one string or a list of strings.
#[derive(Debug, Clone, PartialEq)]
pub enum OneOrManyStrings {
    One(String),
    Many(Vec<String>),
}

impl OneOrManyStrings {
    /// The strings, as a list.
    pub fn into_vec(self) -> (r: Vec<String>)
        ensures
            self matches OneOrManyStrings::One(s) ==> r@ == seq![s],
            self matches OneOrManyStrings::Many(v) ==> r@ == v@,
    {
        match self {
            OneOrManyStrings::One(s) => vec![s],
            OneOrManyStrings::Many(v) => v,
        }
    }
}

/// Where to fetch a plugin from: a path inside the marketplace, or a remote
/// source.
#[derive(Debug, Clone, PartialEq)]
pub enum PluginSource {
    Relative(String),
    Remote(RemotePluginSource),
}

#[derive(Debug, Clone, PartialEq)]
pub enum RemotePluginSource {
    Github { repo: String, git_ref: Option<String>, sha: Option<String> },
    Url { url: String, git_ref: Option<String>, sha: Option<String> },
    GitSubdir { url: String, path: String, git_ref: Option<String>, sha: Option<String> },
    /// Parsed so catalogs stay readable; installing one is refused.
    Npm { package: String, version: Option<String>, registry: Option<String> },
}

/// Why a catalog, or a path it supplies, was refused.
#[derive(Debug)]
pub enum CatalogError {
    /// The document did not parse; carries the parser's message.
    Parse(String),
    InvalidMarketplaceName(String),
    InvalidPluginName(String),
    /// A bare relative source without `pluginRoot`.
    InvalidRelativeSource(String),
    /// A path that is empty, absolute-looking, or has `..` or empty segments.
    UnsafeSourcePath(String),
}

impl CatalogError {
    /// The message shown to the user.
    pub fn message(&self) -> (r: String)
        ensures
            r@ == match self {
                CatalogError::Parse(m) => "failed to parse marketplace.json: "@ + m@,
                CatalogError::InvalidMarketplaceName(n) => "invalid marketplace name '"@ + n@
                    + "' (it becomes the `plugin@name` install suffix \u{2014} no spaces, '@', '/', '\\\\', or '..')"@,
                CatalogError::InvalidPluginName(n) => "invalid plugin name '"@ + n@
                    + "' (no spaces, '@', '/', '\\\\', or '..')"@,
                CatalogError::InvalidRelativeSource(s) => "relative plugin source '"@ + s@
                    + "' must start with \"./\" (or set metadata.pluginRoot in the marketplace)"@,
                CatalogError::UnsafeSourcePath(s) => "plugin source path '"@ + s@
                    + "' must not contain '..' segments or be absolute"@,
            },
    {
        match self {
            CatalogError::Parse(m) => {
                proof {
                    reveal_strlit("");
                }
                wrapped("failed to parse marketplace.json: ", m.as_str(), "")
            },
            CatalogError::InvalidMarketplaceName(n) => wrapped(
                "invalid marketplace name '",
                n.as_str(),
                "' (it becomes the `plugin@name` install suffix \u{2014} no spaces, '@', '/', '\\\\', or '..')",
            ),
            CatalogError::InvalidPluginName(n) => wrapped(
                "invalid plugin name '",
                n.as_str(),
                "' (no spaces, '@', '/', '\\\\', or '..')",
            ),
            CatalogError::InvalidRelativeSource(s) => wrapped(
                "relative plugin source '",
                s.as_str(),
                "' must start with \"./\" (or set metadata.pluginRoot in the marketplace)",
            ),
            CatalogError::UnsafeSourcePath(s) => wrapped(
                "plugin source path '",
                s.as_str(),
                "' must not contain '..' segments or be absolute",
            ),
        }
    }
}

/// Names usable as marketplace, plugin and skill identifiers: non-empty, no
/// white space, no `@`, `/` or `\`, and no `..`.
pub open spec fn valid_component(name: Seq<char>) -> bool {
    &&& name.len() > 0
    &&& forall|i: int|
        0 <= i < name.len() ==> {
            let c = #[trigger] name[i];
            !is_white_space(c) && c != '@' && c != '/' && c != '\\'
        }
    &&& !has_infix(name, ".."@)
}

/// Whether `name` is usable as a marketplace, plugin or skill identifier.
pub fn valid_component_name(name: &str) -> (r: bool)
    ensures
        r == valid_component(name@),
{
    let cs = chars_of(name);
    if cs.len() == 0 {
        return false;
    }
    let mut i: usize = 0;
    while i < cs.len()
        invariant
            i <= cs@.len(),
            cs@ == name@,
            forall|j: int|
                0 <= j < i ==> {
                    let c = #[trigger] cs@[j];
                    !is_white_space(c) && c != '@' && c != '/' && c != '\\'
                },
        decreases cs@.len() - i,
    {
        let c = cs[i];
        if white_space(c) || c == '@' || c == '/' || c == '\\' {
            return false;
        }
        i = i + 1;
    }
    !contains_seq(cs.as_slice(), chars_of("..").as_slice())
}

/// What makes a parsed catalog acceptable: its name and every plugin's name
/// are valid identifiers.
pub open spec fn first_invalid_plugin(plugins: Seq<CatalogPlugin>) -> Option<int> {
    if exists|i: int| 0 <= i < plugins.len() && !valid_component(plugins[i].name@) {
        Some(
            choose|i: int|
                0 <= i < plugins.len() && !valid_component(plugins[i].name@) && forall|j: int|
                    0 <= j < i ==> valid_component(plugins[j].name@),
        )
    } else {
        None
    }
}

/// Validates a parsed catalog: an invalid marketplace name is refused
/// first, then the first invalid plugin name.
pub fn validate_catalog(catalog: MarketplaceCatalog) -> (r: Result<MarketplaceCatalog, CatalogError>)
    ensures
        !valid_component(catalog.name@) ==> (r matches Err(CatalogError::InvalidMarketplaceName(n))
            && n@ == catalog.name@),
        valid_component(catalog.name@) ==> match first_invalid_plugin(catalog.plugins@) {
            Some(i) => r matches Err(CatalogError::InvalidPluginName(n)) && n@
                == catalog.plugins@[i].name@,
            None => r matches Ok(c) && c == catalog,
        },
{
    if !valid_component_name(catalog.name.as_str()) {
        return Err(CatalogError::InvalidMarketplaceName(catalog.name.clone()));
    }
    let mut i: usize = 0;
    while i < catalog.plugins.len()
        invariant
            i <= catalog.plugins@.len(),
            valid_component(catalog.name@),
            forall|j: int| 0 <= j < i ==> valid_component(catalog.plugins@[j].name@),
        decreases catalog.plugins@.len() - i,
    {
        if !valid_component_name(catalog.plugins[i].name.as_str()) {
            proof {
                let ghost k = choose|k: int|
                    0 <= k < catalog.plugins@.len() && !valid_component(catalog.plugins@[k].name@)
                        && forall|j: int| 0 <= j < k ==> valid_component(catalog.plugins@[j].name@);
                assert(k == i as int) by {
                    if k < i as int {
                    } else if k > i as int {
                        assert(valid_component(catalog.plugins@[i as int].name@));
                    }
                }
            }
            return Err(CatalogError::InvalidPluginName(catalog.plugins[i].name.clone()));
        }
        i = i + 1;
    }
    Ok(catalog)
}

impl MarketplaceCatalog {
    /// The effective description: the top-level one, else the metadata's.
    pub fn description(&self) -> (r: Option<&str>)
        ensures
            self.description matches Some(d) ==> r matches Some(x) && x@ == d@,
            self.description is None ==> match self.metadata.description {
                Some(d) => r matches Some(x) && x@ == d@,
                None => r is None,
            },
    {
        match &self.description {
            Some(d) => Some(d.as_str()),
            None => match &self.metadata.description {
                Some(d) => Some(d.as_str()),
                None => None,
            },
        }
    }

    /// The first plugin named `name`.
    pub fn plugin(&self, name: &str) -> (r: Option<&CatalogPlugin>)
        ensures
            match key_index(self.plugins@, name@) {
                Some(i) => r matches Some(p) && *p == self.plugins@[i],
                None => r is None,
            },
    {
        match find_key(self.plugins.as_slice(), chars_of(name).as_slice()) {
            Some(i) => Some(&self.plugins[i]),
            None => None,
        }
    }
}

/// Whether a normalized in-repo path is unsafe: empty, or with an empty or
/// `..` segment.
pub open spec fn unsafe_in_repo(p: Seq<char>) -> bool {
    ||| p.len() == 0
    ||| has_infix(p, "//"@)
    ||| p == ".."@
    ||| has_prefix(p, "../"@)
    ||| has_suffix(p, "/.."@)
    ||| has_infix(p, "/../"@)
}

/// The result of validating an in-repo path: refused when absolute (a
/// leading `/`); otherwise without its trailing `/`, refused when unsafe.
pub open spec fn in_repo_path(path: Seq<char>) -> Option<Seq<char>> {
    if path.len() > 0 && path[0] == '/' {
        None
    } else {
        let n = trim_end(path, CharClass::Exactly('/'));
        if unsafe_in_repo(n) {
            None
        } else {
            Some(n)
        }
    }
}

proof fn lemma_trim_end_last(s: Seq<char>, c: char)
    ensures
        trim_end(s, CharClass::Exactly(c)).len() > 0 ==> trim_end(s, CharClass::Exactly(c)).last() != c,
        trim_end(s, CharClass::Exactly(c)).len() <= s.len(),
        trim_end(s, CharClass::Exactly(c)) =~= s.take(trim_end(s, CharClass::Exactly(c)).len() as int),
    decreases s.len(),
{
    if s.len() > 0 && s.last() == c {
        lemma_trim_end_last(s.drop_last(), c);
        let t = trim_end(s.drop_last(), CharClass::Exactly(c));
        assert(s.drop_last().take(t.len() as int) =~= s.take(t.len() as int));
    }
}

/// An accepted in-repo path stays inside the repository: it is relative
/// (no leading `/`), has no empty segment and no `..` segment.
pub proof fn accepted_paths_stay_inside(path: Seq<char>)
    requires
        in_repo_path(path) is Some,
    ensures
        ({
            let n = in_repo_path(path)->0;
            &&& n.len() > 0
            &&& n[0] != '/'
            &&& n.last() != '/'
            &&& forall|i: int| 0 <= i < n.len() - 1 ==> !(#[trigger] n[i] == '/' && n[i + 1] == '/')
            &&& forall|i: int, j: int|
                0 <= i <= j <= n.len() && #[trigger] n.subrange(i, j) == ".."@ ==> !((i == 0 || n[i
                    - 1] == '/') && (j == n.len() || n[j] == '/'))
        }),
{
    reveal_strlit("..");
    reveal_strlit("//");
    reveal_strlit("../");
    reveal_strlit("/..");
    reveal_strlit("/../");
    let n = trim_end(path, CharClass::Exactly('/'));
    assert(n == in_repo_path(path)->0);
    lemma_trim_end_last(path, '/');
    assert(n[0] == path[0]);
    assert forall|i: int| 0 <= i < n.len() - 1 implies !(#[trigger] n[i] == '/' && n[i + 1] == '/') by {
        if n[i] == '/' && n[i + 1] == '/' {
            assert(n.subrange(i, i + 2) =~= "//"@);
            assert(has_infix(n, "//"@));
        }
    }
    assert forall|i: int, j: int|
        0 <= i <= j <= n.len() && #[trigger] n.subrange(i, j) == ".."@ implies !((i == 0 || n[i
            - 1] == '/') && (j == n.len() || n[j] == '/')) by {
        if (i == 0 || n[i - 1] == '/') && (j == n.len() || n[j] == '/') {
            reveal_strlit("..");
            let dd = n.subrange(i, j);
            assert(dd.len() == 2);
            assert(j == i + 2);
            assert(n[i] == dd[0] && dd[0] == '.');
            assert(n[i + 1] == dd[1] && dd[1] == '.');
            if i == 0 && j == n.len() {
                assert(n =~= ".."@);
            } else if i == 0 {
                assert(n.take(3) =~= "../"@);
            } else if j == n.len() {
                assert(n.skip(n.len() - 3) =~= "/.."@);
            } else {
                assert(n.subrange(i - 1, i - 1 + 4) =~= "/../"@);
                assert(has_infix(n, "/../"@));
            }
        }
    }
}

/// Validates and normalizes an in-repo path: no empty segments, no `..`,
/// not absolute (a trailing `/` is dropped).
pub fn validate_in_repo_path(path: &str) -> (r: Result<String, CatalogError>)
    ensures
        match in_repo_path(path@) {
            Some(n) => r matches Ok(s) && s@ == n,
            None => r matches Err(CatalogError::UnsafeSourcePath(p)) && p@ == path@,
        },
{
    let cs = chars_of(path);
    if cs.len() > 0 && cs[0] == '/' {
        return Err(CatalogError::UnsafeSourcePath(path.to_owned()));
    }
    let n = trimmed_end(cs.as_slice(), &CharClass::Exactly('/'));
    let bad = n.len() == 0 || contains_seq(n.as_slice(), chars_of("//").as_slice()) || same(
        n.as_slice(),
        chars_of("..").as_slice(),
    ) || starts_with(n.as_slice(), chars_of("../").as_slice()) || ends_with(
        n.as_slice(),
        chars_of("/..").as_slice(),
    ) || contains_seq(n.as_slice(), chars_of("/../").as_slice());
    if bad {
        Err(CatalogError::UnsafeSourcePath(path.to_owned()))
    } else {
        Ok(string_from(n.as_slice()))
    }
}

/// A relative plugin source joined as written: `./path` taken as is; a bare
/// path put under `pluginRoot` (without its `./` and trailing `/`); `None`
/// for a bare path without a root.
pub open spec fn joined_source(source: Seq<char>, plugin_root: Option<Seq<char>>) -> Option<
    Seq<char>,
> {
    match strip_prefix(source, "./"@) {
        Some(rest) => Some(rest),
        None => match plugin_root {
            Some(root) => {
                let r = match strip_prefix(root, "./"@) {
                    Some(x) => x,
                    None => root,
                };
                Some(trim_end(r, CharClass::Exactly('/')) + "/"@ + source)
            },
            None => None,
        },
    }
}

/// Resolves a relative plugin source to a normalized path under the
/// marketplace root; refused when it is bare without a `pluginRoot`, or
/// when it would leave the marketplace.
pub fn resolve_relative_source(source: &str, plugin_root: Option<&str>) -> (r: Result<
    String,
    CatalogError,
>)
    ensures
        match joined_source(source@, match plugin_root {
            Some(x) => Some(x@),
            None => None,
        }) {
            None => r matches Err(CatalogError::InvalidRelativeSource(s)) && s@ == source@,
            Some(j) => match in_repo_path(j) {
                Some(n) => r matches Ok(s) && s@ == n,
                None => r matches Err(CatalogError::UnsafeSourcePath(s)) && s@ == source@,
            },
        },
{
    let src = chars_of(source);
    let dot = chars_of("./");
    let joined = match stripped_prefix(src.as_slice(), dot.as_slice()) {
        Some(rest) => rest,
        None => match plugin_root {
            Some(root) => {
                let rc = chars_of(root);
                let r = match stripped_prefix(rc.as_slice(), dot.as_slice()) {
                    Some(x) => x,
                    None => rc,
                };
                let mut j = trimmed_end(r.as_slice(), &CharClass::Exactly('/'));
                append(&mut j, chars_of("/").as_slice());
                append(&mut j, src.as_slice());
                j
            },
            None => {
                return Err(CatalogError::InvalidRelativeSource(source.to_owned()));
            },
        },
    };
    let joined_str = string_from(joined.as_slice());
    match validate_in_repo_path(joined_str.as_str()) {
        Ok(n) => Ok(n),
        Err(_) => Err(CatalogError::UnsafeSourcePath(source.to_owned())),
    }
}

/// `rel` under the in-repo path `base` (`base` trimmed of `/`; empty means
/// the repository root).
pub open spec fn repo_path_join(base: Seq<char>, rel: Seq<char>) -> Seq<char> {
    let b = trim(base, CharClass::Exactly('/'));
    if b.len() == 0 {
        rel
    } else {
        b + "/"@ + rel
    }
}

/// Joins a marketplace-relative path onto a base in-repo path.
pub fn join_repo_path(base: &str, rel: &str) -> (r: String)
    ensures
        r@ == repo_path_join(base@, rel@),
{
    let b = trimmed(chars_of(base).as_slice(), &CharClass::Exactly('/'));
    if b.len() == 0 {
        rel.to_owned()
    } else {
        let mut j = b;
        append(&mut j, chars_of("/").as_slice());
        append(&mut j, chars_of(rel).as_slice());
        string_from(j.as_slice())
    }
}

} // verus!
