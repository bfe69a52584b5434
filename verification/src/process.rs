//! Running the mihomo core: the events a running core reports, and the
//! command line it is started with, by the app itself or by the helper
//! service.

use vstd::prelude::*;

use crate::paths::{path_parent, std_path_parent};
use crate::text::{owned, views};

verus! {

/// What a running mihomo process reports.
#[derive(Debug, Clone)]
pub enum CoreEvent {
    Started { pid: u32 },
    Log { line: String, is_stderr: bool },
    Exited { code: Option<i32> },
}

/// mihomo's arguments: `-d <dir> -f <config>`.
pub open spec fn core_args(dir: Seq<char>, config: Seq<char>) -> Seq<Seq<char>> {
    seq!["-d"@, dir, "-f"@, config]
}

/// The arguments mihomo is started with: its home directory and its
/// config file.
pub fn mihomo_args(dir: &str, config: &str) -> (r: Vec<String>)
    ensures
        views(r@) == core_args(dir@, config@),
{
    let r = vec![owned("-d"), owned(dir), owned("-f"), owned(config)];
    assert(views(r@) =~= core_args(dir@, config@));
    r
}

/// The app starts the core only once a profile has been activated into
/// `runtime.yaml`.
pub fn check_runtime_config(config_exists: bool) -> (r: Result<(), String>)
    ensures
        config_exists ==> r is Ok,
        !config_exists ==> (r matches Err(m) && m@
            == "runtime.yaml not found: activate a profile first"@),
{
    if !config_exists {
        return Err(owned("runtime.yaml not found: activate a profile first"));
    }
    Ok(())
}

/// The service starts at most one core.
pub fn check_not_running(running: bool) -> (r: Result<(), String>)
    ensures
        !running ==> r is Ok,
        running ==> (r matches Err(m) && m@ == "core is already running"@),
{
    if running {
        return Err(owned("core is already running"));
    }
    Ok(())
}

/// The directory the service runs the core in, given the config file's
/// parent: that parent, so that the core's relative paths (rule providers
/// and the like) resolve next to it; `.` when the config has no parent.
pub open spec fn core_dir_from(parent: Option<Seq<char>>) -> Seq<char> {
    match parent {
        Some(p) => p,
        None => "."@,
    }
}

/// The directory the service runs the core in for a config file.
pub open spec fn core_dir_for(config: Seq<char>) -> Seq<char> {
    core_dir_from(std_path_parent(config))
}

/// The arguments the service starts the core with, given the config file
/// and its parent directory.
pub fn core_args_with_parent(parent: Option<&str>, config: &str) -> (r: Vec<String>)
    ensures
        views(r@) == core_args(
            core_dir_from(
                match parent {
                    Some(p) => Some(p@),
                    None => None,
                },
            ),
            config@,
        ),
{
    match parent {
        Some(p) => mihomo_args(p, config),
        None => {
            let dot = owned(".");
            mihomo_args(dot.as_str(), config)
        },
    }
}

/// The arguments the service starts the core with for a config file.
pub fn service_core_args(config: &str) -> (r: Vec<String>)
    ensures
        views(r@) == core_args(core_dir_for(config@), config@),
{
    match path_parent(config) {
        Some(p) => core_args_with_parent(Some(p.as_str()), config),
        None => core_args_with_parent(None, config),
    }
}

} // verus!
