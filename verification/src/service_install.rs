//! Installing and removing the helper service from the app: on macOS an
//! `osascript` dialog asks for an administrator's password and runs the
//! service binary's `install` or `uninstall` with elevated rights.

use vstd::prelude::*;

use crate::text::{chars_of, contains, find_chars, owned, push_str, string_of};

verus! {

/// The AppleScript that runs `'<binary>' <subcommand>` as administrator,
/// with a prompt that names the subcommand. The quotes keep spaces in the
/// path safe.
pub open spec fn admin_script_text(binary: Seq<char>, subcommand: Seq<char>) -> Seq<char> {
    "do shell script \"'"@ + binary + "' "@ + subcommand
        + "\" with administrator privileges with prompt \"ClashR needs admin privileges to "@
        + subcommand + " its helper service.\""@
}

/// The script handed to `osascript -e`.
pub fn admin_script(binary: &str, subcommand: &str) -> (r: String)
    ensures
        r@ == admin_script_text(binary@, subcommand@),
{
    let mut v = chars_of("do shell script \"'");
    push_str(&mut v, binary);
    push_str(&mut v, "' ");
    push_str(&mut v, subcommand);
    push_str(&mut v, "\" with administrator privileges with prompt \"ClashR needs admin privileges to ");
    push_str(&mut v, subcommand);
    push_str(&mut v, " its helper service.\"");
    string_of(v.as_slice())
}

/// How an elevated run ended, from `osascript`'s exit status and its
/// standard error: a cancelled password dialog is reported as such, any
/// other failure with the error text.
pub open spec fn admin_result(success: bool, stderr: Seq<char>, subcommand: Seq<char>) -> Result<
    (),
    Seq<char>,
> {
    if success {
        Ok(())
    } else if contains(stderr, "User canceled"@) {
        Err("user cancelled"@)
    } else {
        Err(subcommand + " failed: "@ + stderr)
    }
}

/// Turns `osascript`'s outcome into the result of the elevated run.
pub fn admin_outcome(success: bool, stderr: &str, subcommand: &str) -> (r: Result<(), String>)
    ensures
        match admin_result(success, stderr@, subcommand@) {
            Ok(()) => r is Ok,
            Err(m) => r matches Err(e) && e@ == m,
        },
{
    if success {
        return Ok(());
    }
    let sv = chars_of(stderr);
    let pat = chars_of("User canceled");
    match find_chars(sv.as_slice(), pat.as_slice()) {
        Some(_) => {
            proof {
                crate::text::lemma_find(sv@, pat@);
            }
            Err(owned("user cancelled"))
        },
        None => {
            proof {
                crate::text::lemma_find(sv@, pat@);
            }
            let mut v = chars_of(subcommand);
            push_str(&mut v, " failed: ");
            push_str(&mut v, stderr);
            Err(string_of(v.as_slice()))
        },
    }
}

/// Installs the helper service with an administrator prompt: the variant
/// for platforms other than macOS, which have no such prompt, so it fails.
/// On macOS the script is `admin_script` and its outcome `admin_outcome`.
pub fn install_with_admin_prompt() -> (r: Result<(), String>)
    ensures
        r matches Err(m) && m@ == "service install is only implemented on macOS for now"@,
{
    Err(owned("service install is only implemented on macOS for now"))
}

/// Removes the helper service with an administrator prompt: the variant
/// for platforms other than macOS, so it fails. On macOS the script is
/// `admin_script` and its outcome `admin_outcome`.
pub fn uninstall_with_admin_prompt() -> (r: Result<(), String>)
    ensures
        r matches Err(m) && m@ == "service uninstall is only implemented on macOS for now"@,
{
    Err(owned("service uninstall is only implemented on macOS for now"))
}

/// Is the daemon reachable? It is exactly when its socket file exists
/// (`socket_present`, a cheap check made on every render).
pub fn is_service_running(socket_present: bool) -> (r: bool)
    ensures
        r == socket_present,
{
    socket_present
}

/// Is the service's launchd plist in place? The variant for platforms other
/// than macOS: never. On macOS the app tests whether the plist exists.
pub fn is_service_installed() -> (r: bool)
    ensures
        !r,
{
    false
}

} // verus!
