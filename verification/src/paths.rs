//! Path construction for the application's on-disk layout.
//!
//! All data lives under `<home>/.codelane/<env>/`, where `<env>` is `dev`
//! for debug builds and `prod` for release builds, so that the two never
//! share databases, worktrees, settings, or lane state. These functions
//! build the path text; reading the home directory and creating the
//! directories is the host's part.

use vstd::prelude::*;

use crate::text::{append_str, push_char};

verus! {

/// The data directory for a home directory and environment name.
pub open spec fn spec_data_dir(home: Seq<char>, env: Seq<char>) -> Seq<char> {
    home + "/.codelane/"@ + env
}

/// A branch name made path-safe: every `/` becomes `-`.
pub open spec fn spec_safe_branch(branch: Seq<char>) -> Seq<char> {
    branch.map_values(|c: char| if c == '/' { '-' } else { c })
}

/// The environment subdirectory name for a build profile.
pub fn env_name(debug_build: bool) -> (r: &'static str)
    ensures
        debug_build ==> r@ == "dev"@,
        !debug_build ==> r@ == "prod"@,
{
    if debug_build {
        "dev"
    } else {
        "prod"
    }
}

/// The root data directory for the given environment.
pub fn data_dir(home: &str, env: &str) -> (r: String)
    ensures
        r@ == spec_data_dir(home@, env@),
{
    let mut r = home.to_owned();
    append_str(&mut r, "/.codelane/");
    append_str(&mut r, env);
    proof {
        assert(r@ =~= spec_data_dir(home@, env@));
    }
    r
}

/// The settings file path for the given environment.
pub fn settings_path(home: &str, env: &str) -> (r: String)
    ensures
        r@ == spec_data_dir(home@, env@) + "/settings.json"@,
{
    let mut r = data_dir(home, env);
    append_str(&mut r, "/settings.json");
    r
}

/// The database file path for the given environment.
pub fn db_path(home: &str, env: &str) -> (r: String)
    ensures
        r@ == spec_data_dir(home@, env@) + "/codelane.db"@,
{
    let mut r = data_dir(home, env);
    append_str(&mut r, "/codelane.db");
    r
}

/// The lanes storage directory for the given environment.
pub fn lanes_dir(home: &str, env: &str) -> (r: String)
    ensures
        r@ == spec_data_dir(home@, env@) + "/lanes"@,
{
    let mut r = data_dir(home, env);
    append_str(&mut r, "/lanes");
    r
}

/// A branch name with every `/` replaced by `-`.
pub fn safe_branch_name(branch: &str) -> (r: String)
    ensures
        r@ == spec_safe_branch(branch@),
{
    let n = branch.unicode_len();
    let mut r = String::new();
    let mut i: usize = 0;
    while i < n
        invariant
            i <= n,
            n == branch@.len(),
            r@ == spec_safe_branch(branch@).take(i as int),
        decreases n - i,
    {
        let c = branch.get_char(i);
        if c == '/' {
            push_char(&mut r, '-');
        } else {
            push_char(&mut r, c);
        }
        proof {
            assert(r@ =~= spec_safe_branch(branch@).take(i + 1));
        }
        i += 1;
    }
    proof {
        assert(spec_safe_branch(branch@).take(n as int) =~= spec_safe_branch(branch@));
    }
    r
}

/// The worktree path for a project and branch, with the branch name made
/// path-safe.
pub fn worktree_path(home: &str, env: &str, project_name: &str, branch: &str) -> (r: String)
    ensures
        r@ == spec_data_dir(home@, env@) + "/worktrees/"@ + project_name@ + "/"@ + spec_safe_branch(
            branch@,
        ),
{
    let mut r = data_dir(home, env);
    append_str(&mut r, "/worktrees/");
    append_str(&mut r, project_name);
    append_str(&mut r, "/");
    let safe = safe_branch_name(branch);
    append_str(&mut r, safe.as_str());
    proof {
        assert(r@ =~= spec_data_dir(home@, env@) + "/worktrees/"@ + project_name@ + "/"@
            + spec_safe_branch(branch@));
    }
    r
}

/// The shared hook events directory, not environment-specific: hook
/// scripts write transient JSON event files here.
pub fn hook_events_dir(home: &str) -> (r: String)
    ensures
        r@ == home@ + "/.codelane/hook-events"@,
{
    let mut r = home.to_owned();
    append_str(&mut r, "/.codelane/hook-events");
    proof {
        assert(r@ =~= home@ + "/.codelane/hook-events"@);
    }
    r
}

/// The hook events directory of one lane.
pub fn lane_hook_events_dir(home: &str, lane_id: &str) -> (r: String)
    ensures
        r@ == home@ + "/.codelane/hook-events"@ + "/"@ + lane_id@,
{
    let mut r = hook_events_dir(home);
    append_str(&mut r, "/");
    append_str(&mut r, lane_id);
    proof {
        assert(r@ =~= home@ + "/.codelane/hook-events"@ + "/"@ + lane_id@);
    }
    r
}

/// The directory where hook scripts are stored, per environment.
pub fn hook_scripts_dir(home: &str, env: &str) -> (r: String)
    ensures
        r@ == spec_data_dir(home@, env@) + "/hook-scripts"@,
{
    let mut r = data_dir(home, env);
    append_str(&mut r, "/hook-scripts");
    r
}

} // verus!
