//! What `/init` learns of a project: a capped sample of its file paths, how
//! many files it has, and the contents of its recognized build manifests.
//! The walk itself (respecting `.gitignore`) is the caller's; each file it
//! finds is recorded here.
use vstd::prelude::*;

use crate::text::{after_last, chars_of, rsplit_once_at, same};

verus! {

/// The survey of a project.
#[derive(Debug, Clone, PartialEq)]
pub struct ProjectSurvey {
    /// The first file paths found (relative), at most 500.
    pub file_paths: Vec<String>,
    /// Path and contents of each recognized manifest.
    pub manifests: Vec<(String, String)>,
    /// How many files were found in all.
    pub total_files_seen: usize,
}

impl Default for ProjectSurvey {
    fn default() -> (r: ProjectSurvey)
        ensures
            r.file_paths@.len() == 0,
            r.manifests@.len() == 0,
            r.total_files_seen == 0,
    {
        ProjectSurvey { file_paths: Vec::new(), manifests: Vec::new(), total_files_seen: 0 }
    }
}

/// The most file paths a survey keeps.
pub open spec fn max_files_listed() -> nat {
    500
}

/// The file names recognized as build manifests.
pub open spec fn is_manifest_name(name: Seq<char>) -> bool {
    ||| name == "Cargo.toml"@
    ||| name == "package.json"@
    ||| name == "pyproject.toml"@
    ||| name == "requirements.txt"@
    ||| name == "go.mod"@
    ||| name == "Gemfile"@
    ||| name == "pom.xml"@
    ||| name == "build.gradle"@
}

/// Whether a file is a recognized build manifest, by its file name (the
/// last segment of its path).
pub fn is_manifest(relative_path: &str) -> (r: bool)
    ensures
        r == is_manifest_name(after_last(relative_path@, '/')),
{
    let cs = chars_of(relative_path);
    let name = match rsplit_once_at(cs.as_slice(), '/') {
        Some((_, last)) => last,
        None => cs,
    };
    let n = name.as_slice();
    same(n, chars_of("Cargo.toml").as_slice()) || same(n, chars_of("package.json").as_slice())
        || same(n, chars_of("pyproject.toml").as_slice()) || same(
        n,
        chars_of("requirements.txt").as_slice(),
    ) || same(n, chars_of("go.mod").as_slice()) || same(n, chars_of("Gemfile").as_slice()) || same(
        n,
        chars_of("pom.xml").as_slice(),
    ) || same(n, chars_of("build.gradle").as_slice())
}

impl ProjectSurvey {
    /// Records one file found by the walk: counted, and listed while fewer
    /// than 500 are.
    pub fn record_file(&mut self, relative_path: String)
        requires
            old(self).total_files_seen < usize::MAX,
        ensures
            final(self).total_files_seen == old(self).total_files_seen + 1,
            final(self).manifests == old(self).manifests,
            old(self).file_paths@.len() < max_files_listed() ==> final(self).file_paths@ == old(
                self,
            ).file_paths@.push(relative_path),
            old(self).file_paths@.len() >= max_files_listed() ==> final(self).file_paths@ == old(
                self,
            ).file_paths@,
    {
        if self.file_paths.len() < 500 {
            self.file_paths.push(relative_path);
        }
        self.total_files_seen = self.total_files_seen + 1;
    }

    /// Records the contents of a manifest.
    pub fn record_manifest(&mut self, relative_path: String, contents: String)
        ensures
            final(self).manifests@ == old(self).manifests@.push((relative_path, contents)),
            final(self).file_paths == old(self).file_paths,
            final(self).total_files_seen == old(self).total_files_seen,
    {
        self.manifests.push((relative_path, contents));
    }
}

} // verus!
