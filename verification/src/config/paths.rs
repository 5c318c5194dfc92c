//! Where configuration and state live: a per-user configuration directory,
//! a machine-local per-user state directory, and `.local-code` under the
//! project root.
use vstd::prelude::*;

use crate::text::{chars_of, join_path, join_path_chars, string_from};

verus! {

/// The directories this program reads and writes.
#[derive(Debug, Clone, PartialEq)]
pub struct Paths {
    /// The per-user configuration directory (the platform's convention).
    pub user_config_dir: String,
    /// `<project_root>/.local-code`, always project-local.
    pub project_config_dir: String,
    /// The per-user, machine-local state directory: sessions live here.
    pub user_state_dir: String,
}

/// Why the directories could not be resolved.
#[derive(Debug)]
pub enum PathsError {
    /// The platform offers no per-user directories.
    NoProjectDirs,
}

impl Paths {
    /// The paths from the platform's per-user directories and the project
    /// root: the state directory where the platform has one, the
    /// machine-local data directory otherwise (never a roaming one, since
    /// sessions name paths of this machine).
    pub fn from_dirs(
        config_dir: &str,
        state_dir: Option<&str>,
        data_local_dir: &str,
        project_root: &str,
    ) -> (r: Paths)
        ensures
            r.user_config_dir@ == config_dir@,
            r.user_state_dir@ == match state_dir {
                Some(s) => s@,
                None => data_local_dir@,
            },
            r.project_config_dir@ == join_path(project_root@, ".local-code"@),
    {
        let state = match state_dir {
            Some(s) => s.to_owned(),
            None => data_local_dir.to_owned(),
        };
        let project = join_path_chars(
            chars_of(project_root).as_slice(),
            chars_of(".local-code").as_slice(),
        );
        Paths {
            user_config_dir: config_dir.to_owned(),
            project_config_dir: string_from(project.as_slice()),
            user_state_dir: state,
        }
    }
}

} // verus!
