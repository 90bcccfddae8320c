//! Paths of the per-folder artifacts, derived from the working folder path.
//!
//! Folder paths are plain strings and are never normalized: two spellings of
//! the same directory are two different folders throughout the subsystem.

use vstd::prelude::*;
use vstd::string::StringExecFns;
use crate::text::dash_for_slash;
use crate::text::project_dir_name;

verus! {

/// The per-folder state directory: the working folder with `/.trellico`
/// appended.
pub fn trellico_dir(folder_path: &str) -> (r: String)
    ensures
        r@ == folder_path@ + "/.trellico"@,
{
    let s = String::from_str(folder_path);
    s.concat("/.trellico")
}

/// The directory of plan files, under the state directory.
pub fn plans_dir(folder_path: &str) -> (r: String)
    ensures
        r@ == folder_path@ + "/.trellico"@ + "/plans"@,
{
    let s = trellico_dir(folder_path);
    s.concat("/plans")
}

/// The directory of task-PRD entries, under the state directory.
pub fn ralph_dir(folder_path: &str) -> (r: String)
    ensures
        r@ == folder_path@ + "/.trellico"@ + "/ralph"@,
{
    let s = trellico_dir(folder_path);
    s.concat("/ralph")
}

/// The session-links file, under the state directory.
pub fn session_links_path(folder_path: &str) -> (r: String)
    ensures
        r@ == folder_path@ + "/.trellico"@ + "/session-links.json"@,
{
    let s = trellico_dir(folder_path);
    s.concat("/session-links.json")
}

/// The iterations file, under the state directory.
pub fn ralph_iterations_path(folder_path: &str) -> (r: String)
    ensures
        r@ == folder_path@ + "/.trellico"@ + "/ralph-iterations.json"@,
{
    let s = trellico_dir(folder_path);
    s.concat("/ralph-iterations.json")
}

/// The file that holds one named plan: `<plans dir>/<name>.md`.
pub fn plan_file_path(folder_path: &str, plan_name: &str) -> (r: String)
    ensures
        r@ == folder_path@ + "/.trellico"@ + "/plans"@ + "/"@ + plan_name@ + ".md"@,
{
    let s = plans_dir(folder_path);
    let s = s.concat("/");
    let s = s.concat(plan_name);
    s.concat(".md")
}

/// The manifest file of one named task-PRD entry:
/// `<ralph dir>/<name>/prd.json`.
pub fn prd_file_path(folder_path: &str, prd_name: &str) -> (r: String)
    ensures
        r@ == folder_path@ + "/.trellico"@ + "/ralph"@ + "/"@ + prd_name@ + "/prd.json"@,
{
    let s = ralph_dir(folder_path);
    let s = s.concat("/");
    let s = s.concat(prd_name);
    s.concat("/prd.json")
}

/// The transcript file an agent keeps for one session of one folder, under
/// the user's home directory: the folder path is flattened into a directory
/// name by turning every `/` into `-`.
pub fn session_history_path(home: &str, folder_path: &str, session_id: &str) -> (r: String)
    ensures
        r@ == home@ + "/.pilot/projects/"@ + dash_for_slash(folder_path@) + "/"@ + session_id@
            + ".jsonl"@,
{
    let s = String::from_str(home).concat("/.pilot/projects/");
    let p = project_dir_name(folder_path);
    let s = s.concat(p.as_str());
    let s = s.concat("/");
    let s = s.concat(session_id);
    s.concat(".jsonl")
}

} // verus!
