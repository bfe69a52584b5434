//! Installing the helper service under launchd: the plist that keeps the
//! daemon alive, the commands that put it in place, the root check, and
//! the service binary's command line.

use vstd::prelude::*;

use crate::ipc::{LAUNCHD_LABEL, LAUNCHD_PLIST_PATH};
use crate::manager::debug_exit_code;
use crate::text::{chars_of, dec, owned, push_decimal, push_str, str_eq, string_of};

verus! {

pub const PLIST_HEAD: &'static str = "<?xml version=\"1.0\" encoding=\"UTF-8\"?>\n<!DOCTYPE plist PUBLIC \"-//Apple//DTD PLIST 1.0//EN\" \"http://www.apple.com/DTDs/PropertyList-1.0.dtd\">\n<plist version=\"1.0\">\n<dict>\n    <key>Label</key>\n    <string>";

pub const PLIST_MID: &'static str = "</string>\n    <key>ProgramArguments</key>\n    <array>\n        <string>";

pub const PLIST_TAIL: &'static str = "</string>\n        <string>run</string>\n    </array>\n    <key>RunAtLoad</key>\n    <true/>\n    <key>KeepAlive</key>\n    <true/>\n    <key>StandardOutPath</key>\n    <string>/var/log/clashr-service.out.log</string>\n    <key>StandardErrorPath</key>\n    <string>/var/log/clashr-service.err.log</string>\n</dict>\n</plist>\n";

/// The launchd plist that runs `exe run` at load and keeps it alive, with
/// its output in `/var/log/clashr-service.{out,err}.log`.
pub open spec fn plist_text(exe: Seq<char>) -> Seq<char> {
    PLIST_HEAD@ + LAUNCHD_LABEL@ + PLIST_MID@ + exe + PLIST_TAIL@
}

/// The launchd plist for the service binary at `exe`.
pub fn launchd_plist(exe: &str) -> (r: String)
    ensures
        r@ == plist_text(exe@),
{
    let mut v = chars_of(PLIST_HEAD);
    push_str(&mut v, LAUNCHD_LABEL);
    push_str(&mut v, PLIST_MID);
    push_str(&mut v, exe);
    push_str(&mut v, PLIST_TAIL);
    string_of(v.as_slice())
}

/// Why installing or uninstalling the service failed.
pub open spec fn not_root_message(euid: u32) -> Seq<char> {
    "must run as root (current euid="@ + dec(euid as nat) + ")"@
}

/// Installing needs root: the effective user id must be 0.
pub fn require_root(euid: u32) -> (r: Result<(), String>)
    ensures
        euid == 0 ==> r is Ok,
        euid != 0 ==> (r matches Err(m) && m@ == not_root_message(euid)),
{
    if euid != 0 {
        let mut v = chars_of("must run as root (current euid=");
        push_decimal(&mut v, euid as u64);
        push_str(&mut v, ")");
        return Err(string_of(v.as_slice()));
    }
    Ok(())
}

/// A command line: program and arguments.
pub open spec fn command_view(c: Seq<String>) -> Seq<Seq<char>> {
    c.map_values(|s: String| s@)
}

/// After the plist is written: owner `root:wheel`, mode `644` (launchd
/// refuses anything else), then `launchctl load -w`.
pub open spec fn install_steps() -> Seq<Seq<Seq<char>>> {
    seq![
        seq!["chown"@, "root:wheel"@, LAUNCHD_PLIST_PATH@],
        seq!["chmod"@, "644"@, LAUNCHD_PLIST_PATH@],
        seq!["launchctl"@, "load"@, "-w"@, LAUNCHD_PLIST_PATH@],
    ]
}

fn command(parts: &[&str]) -> (r: Vec<String>)
    ensures
        command_view(r@) == parts@.map_values(|s: &str| s@),
{
    let mut r: Vec<String> = Vec::new();
    let mut i: usize = 0;
    while i < parts.len()
        invariant
            i <= parts@.len(),
            command_view(r@) == parts@.take(i as int).map_values(|s: &str| s@),
        decreases parts.len() - i,
    {
        let ghost before = r@;
        let item = owned(parts[i]);
        r.push(item);
        assert(parts@.take(i + 1) == parts@.take(i as int).push(parts@[i as int]));
        assert(command_view(r@) =~= command_view(before).push(item@));
        assert(command_view(r@) =~= parts@.take(i + 1).map_values(|s: &str| s@));
        i = i + 1;
    }
    assert(parts@.take(parts@.len() as int) == parts@);
    r
}

/// The commands that finish an install, in order; each must succeed.
pub fn install_commands() -> (r: Vec<Vec<String>>)
    ensures
        r@.len() == 3,
        forall|i: int| 0 <= i < 3 ==> command_view(#[trigger] r@[i]@) == install_steps()[i],
{
    let a = command(&["chown", "root:wheel", LAUNCHD_PLIST_PATH]);
    let b = command(&["chmod", "644", LAUNCHD_PLIST_PATH]);
    let c = command(&["launchctl", "load", "-w", LAUNCHD_PLIST_PATH]);
    proof {
        assert(command_view(a@) =~= install_steps()[0]);
        assert(command_view(b@) =~= install_steps()[1]);
        assert(command_view(c@) =~= install_steps()[2]);
    }
    vec![a, b, c]
}

/// Message for a failed install step (`step` counts from 0).
pub open spec fn step_failure(step: int, code: Option<i32>) -> Seq<char> {
    if step == 0 {
        "chown plist failed"@
    } else if step == 1 {
        "chmod plist failed"@
    } else {
        "launchctl load failed (exit "@ + debug_exit_code(code) + ")"@
    }
}

/// The error an install reports when step `step` exits unsuccessfully
/// with `code`.
pub fn install_step_failure(step: usize, code: Option<i32>) -> (r: String)
    requires
        step < 3,
    ensures
        r@ == step_failure(step as int, code),
{
    if step == 0 {
        owned("chown plist failed")
    } else if step == 1 {
        owned("chmod plist failed")
    } else {
        let mut v = chars_of("launchctl load failed (exit ");
        crate::manager::push_debug_exit_code(&mut v, code);
        push_str(&mut v, ")");
        string_of(v.as_slice())
    }
}

/// The best-effort command that stops the daemon before its plist is
/// removed.
pub fn uninstall_command() -> (r: Vec<String>)
    ensures
        command_view(r@) == seq!["launchctl"@, "unload"@, "-w"@, LAUNCHD_PLIST_PATH@],
{
    let r = command(&["launchctl", "unload", "-w", LAUNCHD_PLIST_PATH]);
    assert(command_view(r@) =~= seq!["launchctl"@, "unload"@, "-w"@, LAUNCHD_PLIST_PATH@]);
    r
}

/// Installs the service: the variant for platforms other than macOS,
/// which have no launchd, so it fails. The macOS variant is in the app: it
/// checks `require_root`, writes `launchd_plist` and runs
/// `install_commands`.
pub fn install() -> (r: Result<(), String>)
    ensures
        r matches Err(m) && m@ == "install is not implemented on this platform yet"@,
{
    Err(owned("install is not implemented on this platform yet"))
}

/// Uninstalls the service: the variant for platforms other than macOS, so
/// it fails. The macOS variant is in the app: it runs `uninstall_command`
/// and removes the plist.
pub fn uninstall() -> (r: Result<(), String>)
    ensures
        r matches Err(m) && m@ == "uninstall is not implemented on this platform yet"@,
{
    Err(owned("uninstall is not implemented on this platform yet"))
}

/// Is the service installed? The variant for platforms other than macOS:
/// never. The macOS variant in the app tests whether the plist exists.
pub fn is_installed() -> (r: bool)
    ensures
        !r,
{
    false
}

/// What the service binary was asked to do.
#[derive(Debug, Clone, PartialEq, Eq)]
pub enum ServiceCommand {
    Run,
    Install,
    Uninstall,
    Status,
    Unknown(String),
}

/// Parses the service binary's first argument.
pub fn parse_command(arg: Option<&str>) -> (r: ServiceCommand)
    ensures
        arg is None ==> r == ServiceCommand::Run,
        arg matches Some(a) ==> (if a@ == "run"@ {
            r == ServiceCommand::Run
        } else if a@ == "install"@ {
            r == ServiceCommand::Install
        } else if a@ == "uninstall"@ {
            r == ServiceCommand::Uninstall
        } else if a@ == "status"@ {
            r == ServiceCommand::Status
        } else {
            r matches ServiceCommand::Unknown(s) && s@ == a@
        }),
{
    match arg {
        None => ServiceCommand::Run,
        Some(a) => {
            if str_eq(a, "run") {
                ServiceCommand::Run
            } else if str_eq(a, "install") {
                ServiceCommand::Install
            } else if str_eq(a, "uninstall") {
                ServiceCommand::Uninstall
            } else if str_eq(a, "status") {
                ServiceCommand::Status
            } else {
                ServiceCommand::Unknown(owned(a))
            }
        },
    }
}

/// What `status` prints.
pub fn status_line(installed: bool) -> (r: &'static str)
    ensures
        installed ==> r@ == "installed"@,
        !installed ==> r@ == "not installed"@,
{
    if installed {
        "installed"
    } else {
        "not installed"
    }
}

/// The usage line printed after an unknown subcommand.
pub fn usage_line() -> (r: &'static str)
    ensures
        r@ == "usage: clashr-service [run|install|uninstall|status]"@,
{
    "usage: clashr-service [run|install|uninstall|status]"
}

/// Hands the daemon's socket to the admin group so that admin users can
/// connect: the variant for platforms other than macOS, which have no such
/// group, so there is nothing to do.
pub fn chown_to_admin_group(path: &str) -> (r: Result<(), String>)
    ensures
        r is Ok,
{
    Ok(())
}

} // verus!
