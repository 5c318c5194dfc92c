//! Installing plugin skills: which directories of a fetched plugin hold
//! skills, what each installed skill is named and records about its origin,
//! and how an update converges the installed skills on the plugin's current
//! ones. Fetching and writing files is the caller's; these are the
//! decisions in between.
use vstd::prelude::*;

use crate::marketplace::catalog::{
    in_repo_path, join_repo_path, joined_source, repo_path_join, resolve_relative_source,
    valid_component, valid_component_name, validate_in_repo_path, CatalogError, CatalogPlugin,
    MarketplaceCatalog, OneOrManyStrings, RemotePluginSource,
};
use crate::marketplace::registry::{RegisteredMarketplace, RegistryError};
use crate::marketplace::source::{
    parse_git_url, parse_git_url_spec, AddSpecError, GitUrlError, MarketplaceSource,
};
use crate::skills::types::{Scope, SkillSource, SkillSourceView};
use crate::sorting::{
    lemma_lt_irreflexive, lemma_lt_total, lemma_strictly_sorted_unique, seq_lt, sort_dedup, sort_strings, sorted, strictly_sorted,
};
use crate::skills::types::{FetchedFile, Host, InstalledSkillManifest, PluginProvenance};
use crate::text::{
    after_last, append, chars_of, has_char, has_prefix, rsplit_once_at, same, split_once,
    split_once_at, starts_with, string_from, strings_view, strip_prefix, stripped_prefix, trim,
    trimmed, CharClass,
};

verus! {

/// The paths of a list of fetched files.
pub open spec fn file_paths(files: Seq<FetchedFile>) -> Seq<Seq<char>> {
    files.map_values(|f: FetchedFile| f.relative_path@)
}

/// Whether directory `d` holds a skill file (`SKILL.md` or `SKILL.mdc`).
pub open spec fn has_skill_file(paths: Seq<Seq<char>>, d: Seq<char>) -> bool {
    paths.contains(d + "/SKILL.md"@) || paths.contains(d + "/SKILL.mdc"@)
}

/// The immediate subdirectory of `root` that path `p` lies in, if any.
pub open spec fn subdir_of(p: Seq<char>, root: Seq<char>) -> Option<Seq<char>> {
    match strip_prefix(p, root + "/"@) {
        Some(rest) => match split_once(rest, '/') {
            Some((first, _)) => Some(root + "/"@ + first),
            None => None,
        },
        None => None,
    }
}

/// `d` is an immediate subdirectory of `root` that holds a skill.
pub open spec fn is_skill_subdir(paths: Seq<Seq<char>>, root: Seq<char>, d: Seq<char>) -> bool {
    has_skill_file(paths, d) && exists|i: int|
        0 <= i < paths.len() && subdir_of(#[trigger] paths[i], root) == Some(d)
}

/// `s` without any number of leading copies of `p` (`trim_start_matches`).
pub open spec fn strip_all(s: Seq<char>, p: Seq<char>) -> Seq<char>
    decreases s.len(),
{
    if p.len() > 0 && has_prefix(s, p) {
        strip_all(s.skip(p.len() as int), p)
    } else {
        s
    }
}

/// A listed skill path as it is looked up: without leading `./` and
/// surrounding `/`.
pub open spec fn listed_path(raw: Seq<char>) -> Seq<char> {
    trim(strip_all(raw, "./"@), CharClass::Exactly('/'))
}

/// What one listed path contributes: the default scan for the plugin root
/// or `skills`; the path itself when it holds a skill; otherwise its
/// immediate skill subdirectories.
pub open spec fn picked_by(paths: Seq<Seq<char>>, listed: Seq<char>, d: Seq<char>) -> bool {
    if listed.len() == 0 || listed == "skills"@ {
        is_skill_subdir(paths, "skills"@, d)
    } else if has_skill_file(paths, listed) {
        d == listed
    } else {
        is_skill_subdir(paths, listed, d)
    }
}

/// The paths a catalog entry lists for its skills.
pub open spec fn listed_paths(skills: Option<OneOrManyStrings>) -> Seq<Seq<char>> {
    match skills {
        None => Seq::empty(),
        Some(OneOrManyStrings::One(s)) => seq![s@],
        Some(OneOrManyStrings::Many(v)) => strings_view(v@),
    }
}

/// `d` is picked by some listed path.
pub open spec fn listed_pick(paths: Seq<Seq<char>>, listed: Seq<Seq<char>>, d: Seq<char>) -> bool {
    exists|k: int| 0 <= k < listed.len() && picked_by(paths, listed_path(#[trigger] listed[k]), d)
}

/// The skill directories of a plugin: those the entry's listed paths pick,
/// or, when they pick none, the skill subdirectories of `skills/`.
pub open spec fn is_plugin_skill_dir(
    paths: Seq<Seq<char>>,
    listed: Seq<Seq<char>>,
    d: Seq<char>,
) -> bool {
    if exists|e: Seq<char>| listed_pick(paths, listed, e) {
        listed_pick(paths, listed, d)
    } else {
        is_skill_subdir(paths, "skills"@, d)
    }
}

/// When none of the paths a catalog entry lists picks a skill directory,
/// the entry's skill directories are those of the default scan: the two
/// lists [`find_skill_dirs`] gives, with the entry's paths and without
/// any, are the same list.
pub proof fn listed_paths_fall_back_to_default(
    files: Seq<Seq<char>>,
    listed: Seq<Seq<char>>,
    with_listed: Seq<Seq<char>>,
    without: Seq<Seq<char>>,
)
    requires
        !exists|e: Seq<char>| listed_pick(files, listed, e),
        strictly_sorted(with_listed),
        forall|d: Seq<char>| #[trigger] with_listed.contains(d) <==> is_plugin_skill_dir(files, listed, d),
        strictly_sorted(without),
        forall|d: Seq<char>|
            #[trigger] without.contains(d) <==> is_plugin_skill_dir(files, Seq::empty(), d),
    ensures
        with_listed == without,
{
    assert forall|d: Seq<char>| with_listed.contains(d) <==> without.contains(d) by {
        assert(is_plugin_skill_dir(files, listed, d) == is_skill_subdir(files, "skills"@, d));
        assert(!exists|e: Seq<char>| listed_pick(files, Seq::<Seq<char>>::empty(), e));
        assert(is_plugin_skill_dir(files, Seq::empty(), d) == is_skill_subdir(files, "skills"@, d));
    }
    lemma_strictly_sorted_unique(with_listed, without);
}

fn contains_string(v: &Vec<String>, x: &[char]) -> (r: bool)
    ensures
        r == strings_view(v@).contains(x@),
{
    let mut i: usize = 0;
    while i < v.len()
        invariant
            i <= v@.len(),
            forall|j: int| 0 <= j < i ==> (#[trigger] strings_view(v@)[j]) != x@,
        decreases v@.len() - i,
    {
        if same(chars_of(v[i].as_str()).as_slice(), x) {
            assert(strings_view(v@)[i as int] == x@);
            return true;
        }
        i = i + 1;
    }
    false
}

fn has_skill_file_exec(paths: &Vec<String>, d: &[char]) -> (r: bool)
    ensures
        r == has_skill_file(strings_view(paths@), d@),
{
    let mut a: Vec<char> = Vec::new();
    append(&mut a, d);
    append(&mut a, chars_of("/SKILL.md").as_slice());
    let mut b: Vec<char> = Vec::new();
    append(&mut b, d);
    append(&mut b, chars_of("/SKILL.mdc").as_slice());
    contains_string(paths, a.as_slice()) || contains_string(paths, b.as_slice())
}

fn subdir_of_exec(p: &[char], root: &[char]) -> (r: Option<Vec<char>>)
    ensures
        match r {
            Some(d) => subdir_of(p@, root@) == Some(d@),
            None => subdir_of(p@, root@) is None,
        },
{
    let mut prefix: Vec<char> = Vec::new();
    append(&mut prefix, root);
    prefix.push('/');
    assert(prefix@ =~= root@ + "/"@) by {
        reveal_strlit("/");
    }
    match stripped_prefix(p, prefix.as_slice()) {
        Some(rest) => match split_once_at(rest.as_slice(), '/') {
            Some((first, _)) => {
                let mut d = prefix;
                append(&mut d, first.as_slice());
                Some(d)
            },
            None => None,
        },
        None => None,
    }
}

/// The immediate subdirectories of `root` that hold a skill, possibly
/// repeated.
fn skill_subdirs_of(paths: &Vec<String>, root: &[char]) -> (r: Vec<String>)
    ensures
        forall|d: Seq<char>|
            #[trigger] strings_view(r@).contains(d) <==> is_skill_subdir(
                strings_view(paths@),
                root@,
                d,
            ),
{
    let ghost pv = strings_view(paths@);
    let mut out: Vec<String> = Vec::new();
    let mut i: usize = 0;
    while i < paths.len()
        invariant
            i <= paths@.len(),
            pv == strings_view(paths@),
            forall|d: Seq<char>|
                #[trigger] strings_view(out@).contains(d) <==> (has_skill_file(pv, d) && exists|
                    j: int,
                | 0 <= j < i && subdir_of(#[trigger] pv[j], root@) == Some(d)),
        decreases paths@.len() - i,
    {
        let p = chars_of(paths[i].as_str());
        assert(p@ == pv[i as int]);
        let ghost ob = strings_view(out@);
        match subdir_of_exec(p.as_slice(), root) {
            Some(d) => {
                if has_skill_file_exec(paths, d.as_slice()) {
                    out.push(string_from(d.as_slice()));
                    assert(strings_view(out@) =~= ob.push(d@));
                }
            },
            None => {},
        }
        proof {
            assert forall|e: Seq<char>| #[trigger] strings_view(out@).contains(e) <==> (
            has_skill_file(pv, e) && exists|j: int|
                0 <= j < i + 1 && subdir_of(#[trigger] pv[j], root@) == Some(e)) by {
                let nv = strings_view(out@);
                if nv.contains(e) && !ob.contains(e) {
                    let k = choose|k: int| 0 <= k < nv.len() && nv[k] == e;
                    if k < ob.len() {
                        assert(ob[k] == e);
                    }
                    assert(subdir_of(pv[i as int], root@) == Some(e));
                }
                if ob.contains(e) {
                    let k = choose|k: int| 0 <= k < ob.len() && ob[k] == e;
                    assert(nv[k] == e);
                }
                if has_skill_file(pv, e) && subdir_of(pv[i as int], root@) == Some(e) {
                    assert(nv[nv.len() - 1] == e);
                }
            }
        }
        i = i + 1;
    }
    out
}

fn strip_all_dot_slash(s: &[char]) -> (r: Vec<char>)
    ensures
        r@ == strip_all(s@, "./"@),
{
    let dot = chars_of("./");
    proof {
        reveal_strlit("./");
    }
    let mut cur: Vec<char> = Vec::new();
    append(&mut cur, s);
    while starts_with(cur.as_slice(), dot.as_slice())
        invariant
            dot@ == "./"@,
            dot@.len() == 2,
            strip_all(s@, "./"@) == strip_all(cur@, "./"@),
        decreases cur@.len(),
    {
        let n = cur.len();
        cur = crate::text::slice(cur.as_slice(), 2, n);
    }
    cur
}

/// The directories of a plugin that hold skills, in increasing order and
/// without repeats: by default the immediate subdirectories of `skills/`
/// holding a `SKILL.md` (or `SKILL.mdc`); when the catalog entry lists
/// skill paths, each is taken as a skill directory itself if it holds a
/// skill file, or scanned for skill subdirectories, falling back to the
/// default when the listed paths yield nothing.
pub fn find_skill_dirs(files: &[FetchedFile], entry: &CatalogPlugin) -> (r: Vec<String>)
    ensures
        strictly_sorted(strings_view(r@)),
        forall|d: Seq<char>|
            #[trigger] strings_view(r@).contains(d) <==> is_plugin_skill_dir(
                file_paths(files@),
                listed_paths(entry.skills),
                d,
            ),
{
    let ghost fp = file_paths(files@);
    let mut paths: Vec<String> = Vec::new();
    let mut i: usize = 0;
    while i < files.len()
        invariant
            i <= files@.len(),
            strings_view(paths@) == file_paths(files@.take(i as int)),
        decreases files@.len() - i,
    {
        let ghost before = strings_view(paths@);
        paths.push(files[i].relative_path.clone());
        assert(strings_view(paths@) =~= file_paths(files@.take(i + 1))) by {
            assert(file_paths(files@.take(i + 1)) =~= before.push(files@[i as int].relative_path@));
        }
        i = i + 1;
    }
    assert(files@.take(files@.len() as int) =~= files@);
    let ghost pv = strings_view(paths@);
    assert(pv == fp);
    let mut listed: Vec<String> = Vec::new();
    match &entry.skills {
        None => {},
        Some(OneOrManyStrings::One(s)) => {
            listed.push(s.clone());
        },
        Some(OneOrManyStrings::Many(v)) => {
            let mut j: usize = 0;
            while j < v.len()
                invariant
                    j <= v@.len(),
                    strings_view(listed@) == strings_view(v@.take(j as int)),
                decreases v@.len() - j,
            {
                let ghost lb = strings_view(listed@);
                listed.push(v[j].clone());
                assert(strings_view(listed@) =~= strings_view(v@.take(j + 1))) by {
                    assert(strings_view(v@.take(j + 1)) =~= lb.push(v@[j as int]@));
                }
                j = j + 1;
            }
            assert(v@.take(v@.len() as int) =~= v@);
        },
    }
    let ghost lv = strings_view(listed@);
    assert(lv =~= listed_paths(entry.skills));
    let skills_root = chars_of("skills");
    proof {
        reveal_strlit("skills");
    }
    let mut dirs: Vec<String> = Vec::new();
    let mut k: usize = 0;
    while k < listed.len()
        invariant
            k <= listed@.len(),
            lv == strings_view(listed@),
            pv == strings_view(paths@),
            skills_root@ == "skills"@,
            forall|d: Seq<char>|
                #[trigger] strings_view(dirs@).contains(d) <==> exists|q: int|
                    0 <= q < k && picked_by(pv, listed_path(#[trigger] lv[q]), d),
        decreases listed@.len() - k,
    {
        let raw = chars_of(listed[k].as_str());
        let stripped = strip_all_dot_slash(raw.as_slice());
        let l = trimmed(stripped.as_slice(), &CharClass::Exactly('/'));
        assert(l@ == listed_path(lv[k as int]));
        let ghost db = strings_view(dirs@);
        let default_scan = l.len() == 0 || same(l.as_slice(), skills_root.as_slice());
        let mut add: Vec<String> = if default_scan {
            skill_subdirs_of(&paths, skills_root.as_slice())
        } else if has_skill_file_exec(&paths, l.as_slice()) {
            let mut one: Vec<String> = Vec::new();
            one.push(string_from(l.as_slice()));
            assert(strings_view(one@) =~= seq![l@]);
            one
        } else {
            skill_subdirs_of(&paths, l.as_slice())
        };
        let ghost av = strings_view(add@);
        assert forall|d: Seq<char>| #[trigger] av.contains(d) <==> picked_by(pv, l@, d) by {
            if !default_scan && has_skill_file(pv, l@) {
                if av.contains(d) {
                    let q = choose|q: int| 0 <= q < av.len() && av[q] == d;
                }
                if d == l@ {
                    assert(av[0] == d);
                }
            }
        }
        dirs.append(&mut add);
        assert(strings_view(dirs@) =~= db + av);
        proof {
            assert forall|d: Seq<char>| #[trigger] strings_view(dirs@).contains(d) <==> exists|
                q: int,
            | 0 <= q < k + 1 && picked_by(pv, listed_path(#[trigger] lv[q]), d) by {
                let nv = strings_view(dirs@);
                if nv.contains(d) {
                    let t = choose|t: int| 0 <= t < nv.len() && nv[t] == d;
                    if t < db.len() {
                        assert(db[t] == d);
                        assert(db.contains(d));
                        let q = choose|q: int|
                            0 <= q < k && picked_by(pv, listed_path(#[trigger] lv[q]), d);
                        assert(picked_by(pv, listed_path(lv[q]), d));
                    } else {
                        assert(av[t - db.len()] == d);
                        assert(av.contains(d));
                        assert(picked_by(pv, listed_path(lv[k as int]), d));
                    }
                }
                if exists|q: int| 0 <= q < k + 1 && picked_by(pv, listed_path(#[trigger] lv[q]), d) {
                    let q = choose|q: int|
                        0 <= q < k + 1 && picked_by(pv, listed_path(#[trigger] lv[q]), d);
                    if q < k {
                        assert(db.contains(d));
                        let t = choose|t: int| 0 <= t < db.len() && db[t] == d;
                        assert(nv[t] == d);
                    } else {
                        assert(av.contains(d));
                        let t = choose|t: int| 0 <= t < av.len() && av[t] == d;
                        assert(nv[db.len() + t] == d);
                    }
                }
            }
        }
        k = k + 1;
    }
    proof {
        assert forall|d: Seq<char>| #[trigger] strings_view(dirs@).contains(d) <==> listed_pick(
            pv,
            lv,
            d,
        ) by {
            if strings_view(dirs@).contains(d) {
                let q = choose|q: int| 0 <= q < k && picked_by(pv, listed_path(#[trigger] lv[q]), d);
            }
        }
    }
    let ghost dv = strings_view(dirs@);
    let any = dirs.len() > 0;
    let chosen = if !any {
        skill_subdirs_of(&paths, skills_root.as_slice())
    } else {
        dirs
    };
    proof {
        assert(fp == pv);
        assert(listed_paths(entry.skills) == lv);
        if !any {
            assert forall|e: Seq<char>| !listed_pick(pv, lv, e) by {
                if listed_pick(pv, lv, e) {
                    assert(dv.contains(e));
                }
            }
        } else {
            let e = dv[0];
            assert(dv.contains(e));
            assert(listed_pick(pv, lv, e));
        }
        assert forall|d: Seq<char>| #[trigger] strings_view(chosen@).contains(d)
            <==> is_plugin_skill_dir(pv, lv, d) by {
            if any {
                assert(strings_view(chosen@) == dv);
            }
        }
    }
    let ghost cv = strings_view(chosen@);
    let r = sort_dedup(chosen);
    assert forall|d: Seq<char>| #[trigger] strings_view(r@).contains(d) <==> is_plugin_skill_dir(
        fp,
        listed_paths(entry.skills),
        d,
    ) by {
        assert(strings_view(r@).contains(d) <==> cv.contains(d));
    }
    r
}

/// Why installing, updating or removing a plugin was refused.
#[derive(Debug)]
pub enum MarketplaceError {
    Catalog(CatalogError),
    Registry(RegistryError),
    AddSpec(AddSpecError),
    GitUrl(GitUrlError),
    /// No `marketplace.json` in the marketplace's plugin directory.
    CatalogMissing(String),
    UnknownPlugin { marketplace: String, plugin: String },
    /// A plugin source of a kind that cannot be installed.
    UnsupportedSource { plugin: String, kind: String },
    /// The plugin has no skill directory.
    NoSkills(String),
    PluginDirMissing { plugin: String, path: String },
    InvalidSkillName(String),
    PluginNotInstalled(String),
    InvalidGithubRepo(String),
    /// The client for a host could not be built from its stored key.
    ClientBuild(String),
}

/// The install name of a skill directory: its last segment, when that is a
/// valid identifier.
pub fn skill_name_of(dir: &str) -> (r: Result<String, MarketplaceError>)
    ensures
        valid_component(after_last(dir@, '/')) ==> (r matches Ok(n) && n@ == after_last(dir@, '/')),
        !valid_component(after_last(dir@, '/')) ==> (r matches Err(
            MarketplaceError::InvalidSkillName(n),
        ) && n@ == after_last(dir@, '/')),
{
    let cs = chars_of(dir);
    let name = match rsplit_once_at(cs.as_slice(), '/') {
        Some((_, last)) => last,
        None => cs,
    };
    let n = string_from(name.as_slice());
    if valid_component_name(n.as_str()) {
        Ok(n)
    } else {
        Err(MarketplaceError::InvalidSkillName(n))
    }
}

/// The files under `prefix`, with the prefix removed from their paths.
pub open spec fn files_under_spec(files: Seq<FetchedFile>, prefix: Seq<char>) -> Seq<
    (Seq<char>, Seq<u8>),
>
    decreases files.len(),
{
    if files.len() == 0 {
        Seq::empty()
    } else {
        let rest = files_under_spec(files.drop_last(), prefix);
        match strip_prefix(files.last().relative_path@, prefix) {
            Some(p) => rest.push((p, files.last().bytes@)),
            None => rest,
        }
    }
}

/// The views of fetched files.
pub open spec fn fetched_view(files: Seq<FetchedFile>) -> Seq<(Seq<char>, Seq<u8>)> {
    files.map_values(|f: FetchedFile| (f.relative_path@, f.bytes@))
}

fn copy_bytes(b: &Vec<u8>) -> (r: Vec<u8>)
    ensures
        r@ == b@,
{
    let mut r: Vec<u8> = Vec::new();
    let mut i: usize = 0;
    while i < b.len()
        invariant
            i <= b@.len(),
            r@ == b@.take(i as int),
        decreases b@.len() - i,
    {
        r.push(b[i]);
        assert(r@ =~= b@.take(i + 1));
        i = i + 1;
    }
    assert(b@.take(b@.len() as int) =~= b@);
    r
}

/// The files of one skill directory, with paths relative to it.
pub fn files_under(files: &[FetchedFile], dir: &str) -> (r: Vec<FetchedFile>)
    ensures
        fetched_view(r@) == files_under_spec(files@, dir@ + "/"@),
{
    let mut prefix = chars_of(dir);
    append(&mut prefix, chars_of("/").as_slice());
    let mut out: Vec<FetchedFile> = Vec::new();
    let mut i: usize = 0;
    while i < files.len()
        invariant
            i <= files@.len(),
            prefix@ == dir@ + "/"@,
            fetched_view(out@) == files_under_spec(files@.take(i as int), prefix@),
        decreases files@.len() - i,
    {
        assert(files@.take(i + 1).drop_last() =~= files@.take(i as int));
        let f = &files[i];
        let ghost ob = fetched_view(out@);
        match stripped_prefix(chars_of(f.relative_path.as_str()).as_slice(), prefix.as_slice()) {
            Some(rest) => {
                out.push(
                    FetchedFile { relative_path: string_from(rest.as_slice()), bytes: copy_bytes(&f.bytes) },
                );
                assert(fetched_view(out@) =~= ob.push((rest@, f.bytes@)));
            },
            None => {},
        }
        i = i + 1;
    }
    assert(files@.take(files@.len() as int) =~= files@);
    out
}

/// Where fetched plugin content came from: what an installed skill's
/// manifest records. For a local marketplace the host fields are left
/// empty and `plugin_path` is the directory.
#[derive(Debug)]
pub struct ManifestCoords {
    pub host: Host,
    pub owner: String,
    pub repo: String,
    /// The in-repo path of the plugin root.
    pub plugin_path: String,
    pub git_ref: String,
    pub commit_sha: String,
    pub is_local: bool,
}

/// A plugin's files (paths relative to the plugin root) and their origin.
#[derive(Debug)]
pub struct PluginContent {
    pub files: Vec<FetchedFile>,
    pub coords: ManifestCoords,
}

/// The manifest of a skill installed from a plugin.
pub fn skill_manifest(coords: &ManifestCoords, skill_dir: &str, marketplace: &str, plugin: &str) -> (r:
    InstalledSkillManifest)
    ensures
        r.host == coords.host,
        r.owner@ == coords.owner@,
        r.repo@ == coords.repo@,
        r.path@ == repo_path_join(coords.plugin_path@, skill_dir@),
        r.git_ref@ == coords.git_ref@,
        r.commit_sha@ == coords.commit_sha@,
        r.plugin matches Some(p) && p.marketplace@ == marketplace@ && p.plugin@ == plugin@,
{
    InstalledSkillManifest {
        host: coords.host,
        owner: coords.owner.clone(),
        repo: coords.repo.clone(),
        path: join_repo_path(coords.plugin_path.as_str(), skill_dir),
        git_ref: coords.git_ref.clone(),
        commit_sha: coords.commit_sha.clone(),
        plugin: Some(
            PluginProvenance { marketplace: marketplace.to_owned(), plugin: plugin.to_owned() },
        ),
    }
}

/// The directories of planned skills.
pub open spec fn planned_dirs(v: Seq<PlannedSkill>) -> Seq<Seq<char>> {
    v.map_values(|p: PlannedSkill| p.dir@)
}

/// One skill of a plugin, ready to install.
#[derive(Debug)]
pub struct PlannedSkill {
    pub name: String,
    pub dir: String,
    pub files: Vec<FetchedFile>,
    pub manifest: InstalledSkillManifest,
}

/// `name` is the last segment of the first skill directory, in sorting
/// order, whose last segment is not a valid identifier.
pub open spec fn first_invalid_skill_dir(
    files: Seq<Seq<char>>,
    listed: Seq<Seq<char>>,
    name: Seq<char>,
) -> bool {
    exists|d: Seq<char>|
        #[trigger] is_plugin_skill_dir(files, listed, d) && !valid_component(after_last(d, '/'))
            && name == after_last(d, '/') && forall|e: Seq<char>|
            #[trigger] is_plugin_skill_dir(files, listed, e) && seq_lt(e, d) ==> valid_component(
                after_last(e, '/'),
            )
}

/// Plans the installation of a plugin's skills: one per skill directory, in
/// order, each named after its directory; refused when there is none, or at
/// the first directory whose name is not a valid identifier.
pub fn plan_plugin_skills(content: &PluginContent, entry: &CatalogPlugin, marketplace: &str) -> (r:
    Result<Vec<PlannedSkill>, MarketplaceError>)
    ensures
        r matches Ok(v) ==> {
            &&& v@.len() > 0
            &&& strictly_sorted(planned_dirs(v@))
            &&& forall|d: Seq<char>|
                #[trigger] planned_dirs(v@).contains(d) <==> is_plugin_skill_dir(
                    file_paths(content.files@),
                    listed_paths(entry.skills),
                    d,
                )
            &&& forall|i: int|
                0 <= i < v@.len() ==> {
                    let p = #[trigger] v@[i];
                    &&& valid_component(p.name@)
                    &&& p.name@ == after_last(p.dir@, '/')
                    &&& fetched_view(p.files@) == files_under_spec(content.files@, p.dir@ + "/"@)
                    &&& p.manifest.path@ == repo_path_join(content.coords.plugin_path@, p.dir@)
                    &&& p.manifest.commit_sha@ == content.coords.commit_sha@
                    &&& p.manifest.git_ref@ == content.coords.git_ref@
                    &&& p.manifest.plugin matches Some(pp) && pp.plugin@ == entry.name@
                        && pp.marketplace@ == marketplace@
                }
        },
        r matches Err(e) ==> (e matches MarketplaceError::NoSkills(n) && n@ == entry.name@
            && !exists|d: Seq<char>|
            is_plugin_skill_dir(file_paths(content.files@), listed_paths(entry.skills), d)) || (
        e matches MarketplaceError::InvalidSkillName(n) && first_invalid_skill_dir(
            file_paths(content.files@),
            listed_paths(entry.skills),
            n@,
        )),
        (exists|d: Seq<char>|
            is_plugin_skill_dir(file_paths(content.files@), listed_paths(entry.skills), d)) && (
        forall|d: Seq<char>|
            is_plugin_skill_dir(file_paths(content.files@), listed_paths(entry.skills), d)
                ==> #[trigger] valid_component(after_last(d, '/'))) ==> r is Ok,
{
    let dirs = find_skill_dirs(content.files.as_slice(), entry);
    if dirs.len() == 0 {
        proof {
            assert forall|d: Seq<char>|
                !is_plugin_skill_dir(
                    file_paths(content.files@),
                    listed_paths(entry.skills),
                    d,
                ) by {
                if is_plugin_skill_dir(file_paths(content.files@), listed_paths(entry.skills), d) {
                    assert(strings_view(dirs@).contains(d));
                }
            }
        }
        return Err(MarketplaceError::NoSkills(entry.name.clone()));
    }
    let ghost dv = strings_view(dirs@);
    let mut out: Vec<PlannedSkill> = Vec::new();
    let mut i: usize = 0;
    while i < dirs.len()
        invariant
            i <= dirs@.len(),
            dv == strings_view(dirs@),
            strictly_sorted(dv),
            forall|d: Seq<char>|
                #[trigger] dv.contains(d) <==> is_plugin_skill_dir(
                    file_paths(content.files@),
                    listed_paths(entry.skills),
                    d,
                ),
            out@.len() == i,
            forall|j: int| 0 <= j < i ==> (#[trigger] out@[j]).dir@ == dv[j],
            forall|j: int|
                0 <= j < i ==> {
                    let p = #[trigger] out@[j];
                    &&& valid_component(p.name@)
                    &&& p.name@ == after_last(p.dir@, '/')
                    &&& fetched_view(p.files@) == files_under_spec(content.files@, p.dir@ + "/"@)
                    &&& p.manifest.path@ == repo_path_join(content.coords.plugin_path@, p.dir@)
                    &&& p.manifest.commit_sha@ == content.coords.commit_sha@
                    &&& p.manifest.git_ref@ == content.coords.git_ref@
                    &&& p.manifest.plugin matches Some(pp) && pp.plugin@ == entry.name@
                        && pp.marketplace@ == marketplace@
                },
        decreases dirs@.len() - i,
    {
        let dir = &dirs[i];
        let name = match skill_name_of(dir.as_str()) {
            Ok(n) => n,
            Err(e) => {
                proof {
                    let fp = file_paths(content.files@);
                    let lp = listed_paths(entry.skills);
                    let d = dv[i as int];
                    assert(strings_view(dirs@).contains(d));
                    assert forall|e2: Seq<char>|
                        #[trigger] is_plugin_skill_dir(fp, lp, e2) && seq_lt(e2, d)
                            implies valid_component(after_last(e2, '/')) by {
                        assert(strings_view(dirs@).contains(e2));
                        let k = choose|k: int| 0 <= k < dv.len() && dv[k] == e2;
                        if k >= i {
                            if k == i {
                                lemma_lt_irreflexive(d);
                            } else {
                                assert(seq_lt(dv[i as int], dv[k]));
                                lemma_lt_total(d, e2);
                            }
                        }
                        assert(out@[k].dir@ == dv[k]);
                    }
                    assert(first_invalid_skill_dir(fp, lp, after_last(d, '/')));
                }
                return Err(e);
            },
        };
        let files = files_under(content.files.as_slice(), dir.as_str());
        let manifest = skill_manifest(&content.coords, dir.as_str(), marketplace, entry.name.as_str());
        out.push(PlannedSkill { name, dir: dir.clone(), files, manifest });
        i = i + 1;
    }
    assert(planned_dirs(out@) =~= dv);
    Ok(out)
}

/// Owner and name of a GitHub `owner/repo` (exactly one `/`, both parts
/// non-empty).
pub open spec fn github_coords_spec(repo: Seq<char>) -> Option<(Seq<char>, Seq<char>)> {
    match split_once(repo, '/') {
        Some((o, n)) => if o.len() > 0 && n.len() > 0 && !has_char(n, '/') {
            Some((o, n))
        } else {
            None
        },
        None => None,
    }
}

/// Splits a catalog's GitHub `owner/repo`; refused, naming the plugin, when
/// it is not of that shape.
pub fn github_repo_coords(plugin_name: &str, repo: &str) -> (r: Result<
    (String, String),
    MarketplaceError,
>)
    ensures
        match github_coords_spec(repo@) {
            Some((o, n)) => r matches Ok((a, b)) && a@ == o && b@ == n,
            None => r matches Err(MarketplaceError::InvalidGithubRepo(m)) && m@ == plugin_name@
                + ": "@ + repo@,
        },
{
    match split_once_at(chars_of(repo).as_slice(), '/') {
        Some((o, n)) => if o.len() > 0 && n.len() > 0 && !crate::text::contains_char(
            n.as_slice(),
            '/',
        ) {
            return Ok((string_from(o.as_slice()), string_from(n.as_slice())));
        },
        None => {},
    }
    let mut m = chars_of(plugin_name);
    append(&mut m, chars_of(": ").as_slice());
    append(&mut m, chars_of(repo).as_slice());
    Err(MarketplaceError::InvalidGithubRepo(string_from(m.as_slice())))
}

/// Whether an installed skill came from the plugin `plugin` (of any
/// marketplace).
pub open spec fn from_plugin(m: InstalledSkillManifest, plugin: Seq<char>) -> bool {
    m.plugin matches Some(p) && p.plugin@ == plugin
}

/// The names of the installed skills that came from `plugin`, in order.
pub open spec fn plugin_skill_names(
    installed: Seq<(String, InstalledSkillManifest)>,
    plugin: Seq<char>,
) -> Seq<Seq<char>>
    decreases installed.len(),
{
    if installed.len() == 0 {
        Seq::empty()
    } else {
        let rest = plugin_skill_names(installed.drop_last(), plugin);
        if from_plugin(installed.last().1, plugin) {
            rest.push(installed.last().0@)
        } else {
            rest
        }
    }
}

/// `plugin remove`: the installed skills (name and manifest) of the scope
/// that came from `plugin_name`, sorted by name; refused when there is
/// none.
pub fn remove_plugin(installed: &[(String, InstalledSkillManifest)], plugin_name: &str) -> (r:
    Result<Vec<String>, MarketplaceError>)
    ensures
        plugin_skill_names(installed@, plugin_name@).len() == 0 ==> (r matches Err(
            MarketplaceError::PluginNotInstalled(n),
        ) && n@ == plugin_name@),
        plugin_skill_names(installed@, plugin_name@).len() > 0 ==> (r matches Ok(v) && sorted(
            strings_view(v@),
        ) && strings_view(v@).to_multiset() == plugin_skill_names(
            installed@,
            plugin_name@,
        ).to_multiset()),
{
    let target = chars_of(plugin_name);
    let mut names: Vec<String> = Vec::new();
    let mut i: usize = 0;
    while i < installed.len()
        invariant
            i <= installed@.len(),
            target@ == plugin_name@,
            strings_view(names@) == plugin_skill_names(installed@.take(i as int), plugin_name@),
        decreases installed@.len() - i,
    {
        assert(installed@.take(i + 1).drop_last() =~= installed@.take(i as int));
        let ghost nb = strings_view(names@);
        match &installed[i].1.plugin {
            Some(p) => {
                if same(chars_of(p.plugin.as_str()).as_slice(), target.as_slice()) {
                    names.push(installed[i].0.clone());
                    assert(strings_view(names@) =~= nb.push(installed@[i as int].0@));
                }
            },
            None => {},
        }
        i = i + 1;
    }
    assert(installed@.take(installed@.len() as int) =~= installed@);
    if names.len() == 0 {
        return Err(MarketplaceError::PluginNotInstalled(plugin_name.to_owned()));
    }
    Ok(sort_strings(names))
}

/// The distinct marketplaces recorded by the installed skills of `plugin`,
/// in the order first seen.
pub open spec fn plugin_marketplaces(
    installed: Seq<(String, InstalledSkillManifest)>,
    plugin: Seq<char>,
) -> Seq<Seq<char>>
    decreases installed.len(),
{
    if installed.len() == 0 {
        Seq::empty()
    } else {
        let rest = plugin_marketplaces(installed.drop_last(), plugin);
        match installed.last().1.plugin {
            Some(p) => if p.plugin@ == plugin && !rest.contains(p.marketplace@) {
                rest.push(p.marketplace@)
            } else {
                rest
            },
            None => rest,
        }
    }
}

/// The marketplaces the installed skills of `plugin_name` came from: where
/// `plugin update` re-fetches it.
pub fn installed_plugin_marketplaces(
    installed: &[(String, InstalledSkillManifest)],
    plugin_name: &str,
) -> (r: Vec<String>)
    ensures
        strings_view(r@) == plugin_marketplaces(installed@, plugin_name@),
{
    let target = chars_of(plugin_name);
    let mut names: Vec<String> = Vec::new();
    let mut i: usize = 0;
    while i < installed.len()
        invariant
            i <= installed@.len(),
            target@ == plugin_name@,
            strings_view(names@) == plugin_marketplaces(installed@.take(i as int), plugin_name@),
        decreases installed@.len() - i,
    {
        assert(installed@.take(i + 1).drop_last() =~= installed@.take(i as int));
        let ghost nb = strings_view(names@);
        match &installed[i].1.plugin {
            Some(p) => {
                if same(chars_of(p.plugin.as_str()).as_slice(), target.as_slice())
                    && !contains_string(&names, chars_of(p.marketplace.as_str()).as_slice()) {
                    names.push(p.marketplace.clone());
                    assert(strings_view(names@) =~= nb.push(p.marketplace@));
                }
            },
            None => {},
        }
        i = i + 1;
    }
    assert(installed@.take(installed@.len() as int) =~= installed@);
    names
}

/// Whether an installed skill came from `plugin` of `marketplace`.
pub open spec fn from_marketplace_plugin(
    m: InstalledSkillManifest,
    marketplace: Seq<char>,
    plugin: Seq<char>,
) -> bool {
    m.plugin matches Some(p) && p.marketplace@ == marketplace && p.plugin@ == plugin
}

/// The manifest of the installed skill `name` from `plugin` of
/// `marketplace`, if there is one (the first such entry).
pub open spec fn installed_from(
    installed: Seq<(String, InstalledSkillManifest)>,
    marketplace: Seq<char>,
    plugin: Seq<char>,
    name: Seq<char>,
) -> Option<InstalledSkillManifest>
    decreases installed.len(),
{
    if installed.len() == 0 {
        None
    } else if installed[0].0@ == name && from_marketplace_plugin(
        installed[0].1,
        marketplace,
        plugin,
    ) {
        Some(installed[0].1)
    } else {
        installed_from(installed.drop_first(), marketplace, plugin, name)
    }
}

/// What an update does to one skill of the fresh plugin.
#[derive(Debug, Clone, Copy, PartialEq, Eq, Structural)]
pub enum UpdateStep {
    /// Installed and already at the fetched commit and ref.
    UpToDate,
    /// Installed: its files are swapped for the fetched ones.
    Swap,
    /// New in the plugin: installed.
    Install,
}

/// The step for a skill of the fresh plugin: a new one is installed; an
/// installed one is up to date when the content is remote and its manifest
/// records the fetched commit and ref, and swapped otherwise.
pub open spec fn update_step(existing: Option<InstalledSkillManifest>, coords: ManifestCoords) -> UpdateStep {
    match existing {
        None => UpdateStep::Install,
        Some(m) => if !coords.is_local && m.commit_sha@ == coords.commit_sha@ && m.git_ref@
            == coords.git_ref@ {
            UpdateStep::UpToDate
        } else {
            UpdateStep::Swap
        },
    }
}

/// What an update did, per skill.
#[derive(Debug, Clone, PartialEq, Eq)]
pub struct PluginUpdateReport {
    /// Installed skills whose files were swapped.
    pub updated: Vec<String>,
    /// Skills the plugin gained, now installed.
    pub added: Vec<String>,
    /// Installed skills the plugin no longer has, removed.
    pub removed: Vec<String>,
    /// Skills already at the fetched commit.
    pub up_to_date: Vec<String>,
}

/// The names of the planned skills whose step is `step`, in order.
pub open spec fn names_with_step(
    installed: Seq<(String, InstalledSkillManifest)>,
    marketplace: Seq<char>,
    plugin: Seq<char>,
    planned: Seq<PlannedSkill>,
    coords: ManifestCoords,
    step: UpdateStep,
) -> Seq<Seq<char>>
    decreases planned.len(),
{
    if planned.len() == 0 {
        Seq::empty()
    } else {
        let rest = names_with_step(installed, marketplace, plugin, planned.drop_last(), coords, step);
        let n = planned.last().name@;
        if update_step(installed_from(installed, marketplace, plugin, n), coords) == step {
            rest.push(n)
        } else {
            rest
        }
    }
}

/// The installed skills of `plugin` of `marketplace` whose names the fresh
/// plugin no longer has, in order.
pub open spec fn vanished(
    installed: Seq<(String, InstalledSkillManifest)>,
    marketplace: Seq<char>,
    plugin: Seq<char>,
    fresh: Seq<Seq<char>>,
) -> Seq<Seq<char>>
    decreases installed.len(),
{
    if installed.len() == 0 {
        Seq::empty()
    } else {
        let rest = vanished(installed.drop_last(), marketplace, plugin, fresh);
        let (n, m) = installed.last();
        if from_marketplace_plugin(m, marketplace, plugin) && !fresh.contains(n@) {
            rest.push(n@)
        } else {
            rest
        }
    }
}

/// The names of planned skills.
pub open spec fn planned_names(v: Seq<PlannedSkill>) -> Seq<Seq<char>> {
    v.map_values(|p: PlannedSkill| p.name@)
}

/// Whether any installed skill came from `plugin` of `marketplace`: an
/// update is refused otherwise, before anything is fetched.
pub fn plugin_is_installed(
    installed: &[(String, InstalledSkillManifest)],
    marketplace: &str,
    plugin: &str,
) -> (r: bool)
    ensures
        r == exists|i: int|
            0 <= i < installed@.len() && from_marketplace_plugin(
                #[trigger] installed@[i].1,
                marketplace@,
                plugin@,
            ),
{
    let mk = chars_of(marketplace);
    let pl = chars_of(plugin);
    let mut i: usize = 0;
    while i < installed.len()
        invariant
            i <= installed@.len(),
            mk@ == marketplace@,
            pl@ == plugin@,
            forall|j: int|
                0 <= j < i ==> !from_marketplace_plugin(
                    #[trigger] installed@[j].1,
                    marketplace@,
                    plugin@,
                ),
        decreases installed@.len() - i,
    {
        match &installed[i].1.plugin {
            Some(p) => {
                if same(chars_of(p.marketplace.as_str()).as_slice(), mk.as_slice()) && same(
                    chars_of(p.plugin.as_str()).as_slice(),
                    pl.as_slice(),
                ) {
                    return true;
                }
            },
            None => {},
        }
        i = i + 1;
    }
    false
}

/// The first step of `plugin update`: refused with
/// [`MarketplaceError::PluginNotInstalled`] when no installed skill of the
/// scope came from `plugin` of `marketplace`, before the catalog is fetched
/// or any skill directory touched.
pub fn check_plugin_update(
    installed: &[(String, InstalledSkillManifest)],
    marketplace: &str,
    plugin: &str,
) -> (r: Result<(), MarketplaceError>)
    ensures
        (exists|i: int|
            0 <= i < installed@.len() && from_marketplace_plugin(
                #[trigger] installed@[i].1,
                marketplace@,
                plugin@,
            )) ==> r is Ok,
        !(exists|i: int|
            0 <= i < installed@.len() && from_marketplace_plugin(
                #[trigger] installed@[i].1,
                marketplace@,
                plugin@,
            )) ==> (r matches Err(MarketplaceError::PluginNotInstalled(n)) && n@ == plugin@),
{
    if plugin_is_installed(installed, marketplace, plugin) {
        Ok(())
    } else {
        Err(MarketplaceError::PluginNotInstalled(plugin.to_owned()))
    }
}

fn find_installed(
    installed: &[(String, InstalledSkillManifest)],
    marketplace: &[char],
    plugin: &[char],
    name: &[char],
) -> (r: Option<usize>)
    ensures
        match r {
            Some(i) => i < installed@.len() && installed_from(
                installed@,
                marketplace@,
                plugin@,
                name@,
            ) == Some(installed@[i as int].1),
            None => installed_from(installed@, marketplace@, plugin@, name@) is None,
        },
{
    let mut i: usize = 0;
    assert(installed@.skip(0) =~= installed@);
    while i < installed.len()
        invariant
            i <= installed@.len(),
            installed_from(installed@, marketplace@, plugin@, name@) == installed_from(
                installed@.skip(i as int),
                marketplace@,
                plugin@,
                name@,
            ),
        decreases installed@.len() - i,
    {
        assert(installed@.skip(i as int)[0] == installed@[i as int]);
        assert(installed@.skip(i as int).drop_first() =~= installed@.skip(i + 1));
        let (n, m) = &installed[i];
        if same(chars_of(n.as_str()).as_slice(), name) {
            match &m.plugin {
                Some(p) => {
                    if same(chars_of(p.marketplace.as_str()).as_slice(), marketplace) && same(
                        chars_of(p.plugin.as_str()).as_slice(),
                        plugin,
                    ) {
                        return Some(i);
                    }
                },
                None => {},
            }
        }
        i = i + 1;
    }
    None
}

fn contains_chars(v: &Vec<Vec<char>>, x: &[char]) -> (r: bool)
    ensures
        r == crate::text::chars_views(v@).contains(x@),
{
    let mut i: usize = 0;
    while i < v.len()
        invariant
            i <= v@.len(),
            forall|j: int| 0 <= j < i ==> (#[trigger] crate::text::chars_views(v@)[j]) != x@,
        decreases v@.len() - i,
    {
        if same(v[i].as_slice(), x) {
            assert(crate::text::chars_views(v@)[i as int] == x@);
            return true;
        }
        i = i + 1;
    }
    false
}

/// Plans an update of `plugin` from `marketplace` against the freshly
/// planned skills: the step of each fresh skill, in order, and the report,
/// which also lists the installed skills of the plugin that it no longer
/// has (to be removed).
pub fn plan_update(
    installed: &[(String, InstalledSkillManifest)],
    marketplace: &str,
    plugin: &str,
    planned: &[PlannedSkill],
    coords: &ManifestCoords,
) -> (r: (Vec<UpdateStep>, PluginUpdateReport))
    ensures
        r.0@.len() == planned@.len(),
        forall|i: int|
            0 <= i < planned@.len() ==> #[trigger] r.0@[i] == update_step(
                installed_from(installed@, marketplace@, plugin@, planned@[i].name@),
                *coords,
            ),
        strings_view(r.1.updated@) == names_with_step(
            installed@,
            marketplace@,
            plugin@,
            planned@,
            *coords,
            UpdateStep::Swap,
        ),
        strings_view(r.1.added@) == names_with_step(
            installed@,
            marketplace@,
            plugin@,
            planned@,
            *coords,
            UpdateStep::Install,
        ),
        strings_view(r.1.up_to_date@) == names_with_step(
            installed@,
            marketplace@,
            plugin@,
            planned@,
            *coords,
            UpdateStep::UpToDate,
        ),
        strings_view(r.1.removed@) == vanished(
            installed@,
            marketplace@,
            plugin@,
            planned_names(planned@),
        ),
{
    let mk = chars_of(marketplace);
    let pl = chars_of(plugin);
    let mut steps: Vec<UpdateStep> = Vec::new();
    let mut updated: Vec<String> = Vec::new();
    let mut added: Vec<String> = Vec::new();
    let mut up_to_date: Vec<String> = Vec::new();
    let mut fresh: Vec<Vec<char>> = Vec::new();
    let mut i: usize = 0;
    while i < planned.len()
        invariant
            i <= planned@.len(),
            mk@ == marketplace@,
            pl@ == plugin@,
            steps@.len() == i,
            forall|j: int|
                0 <= j < i ==> #[trigger] steps@[j] == update_step(
                    installed_from(installed@, marketplace@, plugin@, planned@[j].name@),
                    *coords,
                ),
            strings_view(updated@) == names_with_step(
                installed@,
                marketplace@,
                plugin@,
                planned@.take(i as int),
                *coords,
                UpdateStep::Swap,
            ),
            strings_view(added@) == names_with_step(
                installed@,
                marketplace@,
                plugin@,
                planned@.take(i as int),
                *coords,
                UpdateStep::Install,
            ),
            strings_view(up_to_date@) == names_with_step(
                installed@,
                marketplace@,
                plugin@,
                planned@.take(i as int),
                *coords,
                UpdateStep::UpToDate,
            ),
            crate::text::chars_views(fresh@) == planned_names(planned@.take(i as int)),
        decreases planned@.len() - i,
    {
        let p = &planned[i];
        let name = chars_of(p.name.as_str());
        assert(planned@.take(i + 1).drop_last() =~= planned@.take(i as int));
        assert(planned@.take(i + 1).last() == planned@[i as int]);
        let step = match find_installed(installed, mk.as_slice(), pl.as_slice(), name.as_slice()) {
            None => UpdateStep::Install,
            Some(k) => {
                let m = &installed[k].1;
                if !coords.is_local && same(
                    chars_of(m.commit_sha.as_str()).as_slice(),
                    chars_of(coords.commit_sha.as_str()).as_slice(),
                ) && same(
                    chars_of(m.git_ref.as_str()).as_slice(),
                    chars_of(coords.git_ref.as_str()).as_slice(),
                ) {
                    UpdateStep::UpToDate
                } else {
                    UpdateStep::Swap
                }
            },
        };
        let ghost ub = strings_view(updated@);
        let ghost ab = strings_view(added@);
        let ghost db = strings_view(up_to_date@);
        let ghost fb = crate::text::chars_views(fresh@);
        match step {
            UpdateStep::Swap => {
                updated.push(p.name.clone());
                assert(strings_view(updated@) =~= ub.push(p.name@));
            },
            UpdateStep::Install => {
                added.push(p.name.clone());
                assert(strings_view(added@) =~= ab.push(p.name@));
            },
            UpdateStep::UpToDate => {
                up_to_date.push(p.name.clone());
                assert(strings_view(up_to_date@) =~= db.push(p.name@));
            },
        }
        steps.push(step);
        fresh.push(name);
        assert(crate::text::chars_views(fresh@) =~= fb.push(p.name@));
        assert(planned_names(planned@.take(i + 1)) =~= planned_names(planned@.take(i as int)).push(
            p.name@,
        ));
        i = i + 1;
    }
    assert(planned@.take(planned@.len() as int) =~= planned@);
    let ghost fv = crate::text::chars_views(fresh@);
    let mut removed: Vec<String> = Vec::new();
    let mut j: usize = 0;
    while j < installed.len()
        invariant
            j <= installed@.len(),
            mk@ == marketplace@,
            pl@ == plugin@,
            fv == crate::text::chars_views(fresh@),
            fv == planned_names(planned@),
            strings_view(removed@) == vanished(installed@.take(j as int), marketplace@, plugin@, fv),
        decreases installed@.len() - j,
    {
        assert(installed@.take(j + 1).drop_last() =~= installed@.take(j as int));
        let (n, m) = &installed[j];
        let ghost rb = strings_view(removed@);
        match &m.plugin {
            Some(p) => {
                if same(chars_of(p.marketplace.as_str()).as_slice(), mk.as_slice()) && same(
                    chars_of(p.plugin.as_str()).as_slice(),
                    pl.as_slice(),
                ) && !contains_chars(&fresh, chars_of(n.as_str()).as_slice()) {
                    removed.push(n.clone());
                    assert(strings_view(removed@) =~= rb.push(n@));
                }
            },
            None => {},
        }
        j = j + 1;
    }
    assert(installed@.take(installed@.len() as int) =~= installed@);
    (steps, PluginUpdateReport { updated, added, removed, up_to_date })
}

/// The commit a fetched catalog was resolved at (remote marketplaces), so
/// a plugin's files come from the same commit as the catalog listing it.
#[derive(Debug)]
pub struct CatalogPin {
    pub commit_sha: Option<String>,
}

/// Where a remotely sourced plugin is fetched from: the repository, the
/// directory inside it, and the pinned commit if the catalog gives one.
#[derive(Debug)]
pub struct HostedTarget {
    pub source: SkillSource,
    pub subdir: String,
    pub sha: Option<String>,
}

pub open spec fn opt_str(o: Option<String>) -> Option<Seq<char>> {
    match o {
        Some(s) => Some(s@),
        None => None,
    }
}

fn copy_opt(o: &Option<String>) -> (r: Option<String>)
    ensures
        opt_str(r) == opt_str(*o),
{
    match o {
        Some(s) => Some(s.clone()),
        None => None,
    }
}

/// Resolves a remote plugin source to the repository and directory to
/// fetch: GitHub `owner/repo`; a git URL; a git URL with a directory inside
/// it; an npm package is refused.
pub fn remote_plugin_target(plugin_name: &str, remote: &RemotePluginSource) -> (r: Result<
    HostedTarget,
    MarketplaceError,
>)
    ensures
        remote matches RemotePluginSource::Npm { .. } ==> (r matches Err(
            MarketplaceError::UnsupportedSource { plugin, kind },
        ) && plugin@ == plugin_name@ && kind@ == "npm"@),
        remote matches RemotePluginSource::Github { repo, git_ref, sha } ==> match github_coords_spec(
            repo@,
        ) {
            Some((o, n)) => r matches Ok(t) && t.source@ == (SkillSourceView {
                host: Host::GitHub,
                owner: o,
                repo: n,
                path: Seq::empty(),
                git_ref: opt_str(*git_ref),
            }) && t.subdir@.len() == 0 && opt_str(t.sha) == opt_str(*sha),
            None => r matches Err(MarketplaceError::InvalidGithubRepo(_)),
        },
        remote matches RemotePluginSource::Url { url, git_ref, sha } ==> match parse_git_url_spec(
            url@,
        ) {
            Some(src) => r matches Ok(t) && t.source@ == (SkillSourceView {
                git_ref: opt_str(*git_ref),
                ..src
            }) && t.subdir@.len() == 0 && opt_str(t.sha) == opt_str(*sha),
            None => r matches Err(MarketplaceError::GitUrl(_)),
        },
        remote matches RemotePluginSource::GitSubdir { url, path, git_ref, sha } ==> match (
            parse_git_url_spec(url@),
            in_repo_path(path@),
        ) {
            (Some(src), Some(sub)) => r matches Ok(t) && t.source@ == (SkillSourceView {
                git_ref: opt_str(*git_ref),
                ..src
            }) && t.subdir@ == sub && opt_str(t.sha) == opt_str(*sha),
            (None, _) => r matches Err(MarketplaceError::GitUrl(_)),
            (Some(_), None) => r matches Err(MarketplaceError::Catalog(_)),
        },
{
    match remote {
        RemotePluginSource::Github { repo, git_ref, sha } => {
            let (owner, name) = github_repo_coords(plugin_name, repo.as_str())?;
            Ok(
                HostedTarget {
                    source: SkillSource {
                        host: Host::GitHub,
                        owner,
                        repo: name,
                        path: String::new(),
                        git_ref: copy_opt(git_ref),
                    },
                    subdir: String::new(),
                    sha: copy_opt(sha),
                },
            )
        },
        RemotePluginSource::Url { url, git_ref, sha } => {
            let mut source = match parse_git_url(url.as_str()) {
                Ok(s) => s,
                Err(e) => {
                    return Err(MarketplaceError::GitUrl(e));
                },
            };
            source.git_ref = copy_opt(git_ref);
            Ok(HostedTarget { source, subdir: String::new(), sha: copy_opt(sha) })
        },
        RemotePluginSource::GitSubdir { url, path, git_ref, sha } => {
            let mut source = match parse_git_url(url.as_str()) {
                Ok(s) => s,
                Err(e) => {
                    return Err(MarketplaceError::GitUrl(e));
                },
            };
            source.git_ref = copy_opt(git_ref);
            let subdir = match validate_in_repo_path(path.as_str()) {
                Ok(s) => s,
                Err(e) => {
                    return Err(MarketplaceError::Catalog(e));
                },
            };
            Ok(HostedTarget { source, subdir, sha: copy_opt(sha) })
        },
        RemotePluginSource::Npm { .. } => Err(
            MarketplaceError::UnsupportedSource {
                plugin: plugin_name.to_owned(),
                kind: "npm".to_owned(),
            },
        ),
    }
}

/// How the ref and commit of a hosted plugin are settled before fetching.
#[derive(Debug)]
pub enum RefPlan {
    /// An explicit commit: it is both the recorded ref and the commit.
    Pinned { sha: String },
    /// A ref: recorded as given, its commit resolved by the host.
    Ref { git_ref: String },
    /// Neither: the default branch is the ref, its head the commit.
    DefaultBranch,
}

/// The ref plan of a hosted plugin: an explicit commit wins over a ref.
pub fn hosted_ref_plan(sha: &Option<String>, git_ref: &Option<String>) -> (r: RefPlan)
    ensures
        sha matches Some(s) ==> (r matches RefPlan::Pinned { sha: x } && x@ == s@),
        sha is None ==> (git_ref matches Some(g) ==> (r matches RefPlan::Ref { git_ref: x } && x@
            == g@)),
        sha is None && git_ref is None ==> r is DefaultBranch,
{
    match sha {
        Some(s) => RefPlan::Pinned { sha: s.clone() },
        None => match git_ref {
            Some(g) => RefPlan::Ref { git_ref: g.clone() },
            None => RefPlan::DefaultBranch,
        },
    }
}

/// Where a plugin inside its own marketplace is fetched from.
#[derive(Debug)]
pub enum RelativeTarget {
    /// A directory of the marketplace's repository, at the catalog's commit.
    Hosted {
        host: Host,
        owner: String,
        repo: String,
        repo_path: String,
        git_ref: String,
        commit_sha: String,
    },
    /// A directory under a local marketplace.
    Local { dir: String },
}

/// Resolves a relative plugin source against its marketplace: the source
/// path (validated to stay inside the marketplace) under the marketplace's
/// root, at the commit the catalog was read at for a remote marketplace.
pub fn relative_plugin_target(
    marketplace: &RegisteredMarketplace,
    plugin_root: Option<&str>,
    source: &str,
    pin: &CatalogPin,
) -> (r: Result<RelativeTarget, MarketplaceError>)
    requires
        marketplace.source is Remote ==> pin.commit_sha is Some,
    ensures
        match joined_source(source@, opt_str_ref(plugin_root)) {
            None => r matches Err(MarketplaceError::Catalog(CatalogError::InvalidRelativeSource(s)))
                && s@ == source@,
            Some(j) => match in_repo_path(j) {
                None => r matches Err(MarketplaceError::Catalog(CatalogError::UnsafeSourcePath(s)))
                    && s@ == source@,
                Some(rel) => match marketplace.source {
                    MarketplaceSource::Remote { host, owner, repo, path, git_ref } => r matches Ok(
                        RelativeTarget::Hosted { host: h, owner: o, repo: rp, repo_path, git_ref: g, commit_sha },
                    ) && h == host && o@ == owner@ && rp@ == repo@ && repo_path@ == repo_path_join(
                        path@,
                        rel,
                    ) && g@ == git_ref@ && opt_str(pin.commit_sha) == Some(commit_sha@),
                    MarketplaceSource::Local { path } => r matches Ok(RelativeTarget::Local { dir })
                        && dir@ == crate::text::join_path(path@, rel),
                },
            },
        },
{
    let rel = match resolve_relative_source(source, plugin_root) {
        Ok(r) => r,
        Err(e) => {
            return Err(MarketplaceError::Catalog(e));
        },
    };
    match &marketplace.source {
        MarketplaceSource::Remote { host, owner, repo, path, git_ref } => {
            let commit_sha = match &pin.commit_sha {
                Some(c) => c.clone(),
                None => String::new(),
            };
            Ok(
                RelativeTarget::Hosted {
                    host: *host,
                    owner: owner.clone(),
                    repo: repo.clone(),
                    repo_path: join_repo_path(path.as_str(), rel.as_str()),
                    git_ref: git_ref.clone(),
                    commit_sha,
                },
            )
        },
        MarketplaceSource::Local { path } => {
            let dir = crate::text::join_path_chars(
                chars_of(path.as_str()).as_slice(),
                chars_of(rel.as_str()).as_slice(),
            );
            Ok(RelativeTarget::Local { dir: string_from(dir.as_slice()) })
        },
    }
}

pub open spec fn opt_str_ref(o: Option<&str>) -> Option<Seq<char>> {
    match o {
        Some(s) => Some(s@),
        None => None,
    }
}

/// The position of the catalog document among the files of a marketplace's
/// plugin directory.
pub fn find_catalog_file(files: &[FetchedFile]) -> (r: Option<usize>)
    ensures
        match r {
            Some(i) => i < files@.len() && files@[i as int].relative_path@ == "marketplace.json"@
                && forall|j: int|
                0 <= j < i ==> files@[j].relative_path@ != "marketplace.json"@,
            None => forall|j: int|
                0 <= j < files@.len() ==> files@[j].relative_path@ != "marketplace.json"@,
        },
{
    let target = chars_of("marketplace.json");
    let mut i: usize = 0;
    while i < files.len()
        invariant
            i <= files@.len(),
            target@ == "marketplace.json"@,
            forall|j: int| 0 <= j < i ==> files@[j].relative_path@ != "marketplace.json"@,
        decreases files@.len() - i,
    {
        if same(chars_of(files[i].relative_path.as_str()).as_slice(), target.as_slice()) {
            return Some(i);
        }
        i = i + 1;
    }
    None
}

/// One row of `plugin list`: a plugin a registered marketplace offers, and
/// the scopes it is installed in.
#[derive(Debug, Clone, PartialEq, Eq)]
pub struct AvailablePlugin {
    pub marketplace: String,
    pub name: String,
    pub description: Option<String>,
    pub installed_scopes: Vec<Scope>,
}

/// The scopes holding at least one skill of `plugin` from `marketplace`:
/// the project scope first.
pub fn installed_scopes(
    project: &[(String, InstalledSkillManifest)],
    global: &[(String, InstalledSkillManifest)],
    marketplace: &str,
    plugin: &str,
) -> (r: Vec<Scope>)
    ensures
        r@ == (if exists|i: int|
            0 <= i < project@.len() && from_marketplace_plugin(
                #[trigger] project@[i].1,
                marketplace@,
                plugin@,
            ) {
            seq![Scope::Project]
        } else {
            Seq::empty()
        }) + (if exists|i: int|
            0 <= i < global@.len() && from_marketplace_plugin(
                #[trigger] global@[i].1,
                marketplace@,
                plugin@,
            ) {
            seq![Scope::Global]
        } else {
            Seq::empty()
        }),
{
    let mut r: Vec<Scope> = Vec::new();
    if plugin_is_installed(project, marketplace, plugin) {
        r.push(Scope::Project);
    }
    if plugin_is_installed(global, marketplace, plugin) {
        r.push(Scope::Global);
    }
    proof {
        assert(r@ =~= (if exists|i: int|
            0 <= i < project@.len() && from_marketplace_plugin(
                #[trigger] project@[i].1,
                marketplace@,
                plugin@,
            ) {
            seq![Scope::Project]
        } else {
            Seq::empty()
        }) + (if exists|i: int|
            0 <= i < global@.len() && from_marketplace_plugin(
                #[trigger] global@[i].1,
                marketplace@,
                plugin@,
            ) {
            seq![Scope::Global]
        } else {
            Seq::empty()
        }));
    }
    r
}

/// The plugins one marketplace's catalog offers, in catalog order, each
/// with the scopes it is installed in.
pub fn available_plugins(
    marketplace: &str,
    catalog: &MarketplaceCatalog,
    project: &[(String, InstalledSkillManifest)],
    global: &[(String, InstalledSkillManifest)],
) -> (r: Vec<AvailablePlugin>)
    ensures
        r@.len() == catalog.plugins@.len(),
        forall|i: int|
            0 <= i < r@.len() ==> {
                let a = #[trigger] r@[i];
                &&& a.marketplace@ == marketplace@
                &&& a.name@ == catalog.plugins@[i].name@
                &&& opt_str(a.description) == opt_str(catalog.plugins@[i].description)
            },
{
    let mut out: Vec<AvailablePlugin> = Vec::new();
    let mut i: usize = 0;
    while i < catalog.plugins.len()
        invariant
            i <= catalog.plugins@.len(),
            out@.len() == i,
            forall|j: int|
                0 <= j < i ==> {
                    let a = #[trigger] out@[j];
                    &&& a.marketplace@ == marketplace@
                    &&& a.name@ == catalog.plugins@[j].name@
                    &&& opt_str(a.description) == opt_str(catalog.plugins@[j].description)
                },
        decreases catalog.plugins@.len() - i,
    {
        let p = &catalog.plugins[i];
        let scopes = installed_scopes(project, global, marketplace, p.name.as_str());
        out.push(
            AvailablePlugin {
                marketplace: marketplace.to_owned(),
                name: p.name.clone(),
                description: copy_opt(&p.description),
                installed_scopes: scopes,
            },
        );
        i = i + 1;
    }
    out
}

} // verus!
