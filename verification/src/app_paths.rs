//! Path helpers as the application commands use them: thin forms of the
//! functions in [`crate::paths`], for callers that already resolved the
//! home directory and environment.

use vstd::prelude::*;

use crate::paths;

verus! {

/// The environment subdirectory name for a build profile.
pub fn env_name(debug_build: bool) -> (r: &'static str)
    ensures
        debug_build ==> r@ == "dev"@,
        !debug_build ==> r@ == "prod"@,
{
    paths::env_name(debug_build)
}

/// The root data directory.
pub fn data_dir(home: &str, env: &str) -> (r: String)
    ensures
        r@ == paths::spec_data_dir(home@, env@),
{
    paths::data_dir(home, env)
}

/// The database file path.
pub fn db_path(home: &str, env: &str) -> (r: String)
    ensures
        r@ == paths::spec_data_dir(home@, env@) + "/codelane.db"@,
{
    paths::db_path(home, env)
}

/// The lanes storage directory.
pub fn lanes_dir(home: &str, env: &str) -> (r: String)
    ensures
        r@ == paths::spec_data_dir(home@, env@) + "/lanes"@,
{
    paths::lanes_dir(home, env)
}

/// The worktree path for a project and branch.
pub fn worktree_path(home: &str, env: &str, project_name: &str, branch: &str) -> (r: String)
    ensures
        r@ == paths::spec_data_dir(home@, env@) + "/worktrees/"@ + project_name@ + "/"@
            + paths::spec_safe_branch(branch@),
{
    paths::worktree_path(home, env, project_name, branch)
}

} // verus!
