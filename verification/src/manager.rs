//! The coarse core status that the UI watches, how each lifecycle
//! operation of the core manager moves it, and what the manager hands the
//! helper service (the shared config and geodata copies).

use vstd::prelude::*;

use crate::ipc::CoreState;
use crate::paths::{
    join, path_extension, path_file_name, path_join, std_path_extension, std_path_file_name,
};
use crate::text::{chars_of, dec, owned, push_decimal, push_str, str_eq, string_of};

verus! {

/// Coarse state surface that the UI watches.
#[derive(Debug, Clone)]
pub enum CoreStatus {
    Stopped,
    Starting,
    Running { pid: u32 },
    Stopping,
    Failed { reason: String },
}

impl Default for CoreStatus {
    fn default() -> (s: Self)
        ensures
            s matches CoreStatus::Stopped,
    {
        CoreStatus::Stopped
    }
}

/// The status that mirrors a state reported by the service.
pub open spec fn status_of_state(state: CoreState) -> CoreStatus {
    match state {
        CoreState::Stopped => CoreStatus::Stopped,
        CoreState::Starting => CoreStatus::Starting,
        CoreState::Running { pid } => CoreStatus::Running { pid },
        CoreState::Stopping => CoreStatus::Stopping,
        CoreState::Failed { reason } => CoreStatus::Failed { reason },
    }
}

/// Translates the service's wire-format state into the local status.
pub fn ipc_state_to_status(state: CoreState) -> (s: CoreStatus)
    ensures
        s == status_of_state(state),
{
    match state {
        CoreState::Stopped => CoreStatus::Stopped,
        CoreState::Starting => CoreStatus::Starting,
        CoreState::Running { pid } => CoreStatus::Running { pid },
        CoreState::Stopping => CoreStatus::Stopping,
        CoreState::Failed { reason } => CoreStatus::Failed { reason },
    }
}

/// `{:?}` of an exit code: `Some(<n>)` or `None`.
pub open spec fn debug_exit_code(code: Option<i32>) -> Seq<char> {
    match code {
        Some(n) => "Some("@ + (if n < 0 {
            seq!['-'] + dec((-n) as nat)
        } else {
            dec(n as nat)
        }) + ")"@,
        None => "None"@,
    }
}

/// Appends `{:?}` of an exit code.
pub fn push_debug_exit_code(out: &mut Vec<char>, code: Option<i32>)
    ensures
        final(out)@ == old(out)@ + debug_exit_code(code),
{
    match code {
        Some(n) => {
            push_str(out, "Some(");
            if n < 0 {
                out.push('-');
                let a: u64 = (0i64 - n as i64) as u64;
                push_decimal(out, a);
            } else {
                push_decimal(out, n as u64);
            }
            push_str(out, ")");
        },
        None => push_str(out, "None"),
    }
}

/// Reason recorded when mihomo exits while it should be running.
pub open spec fn unexpected_exit_reason(code: Option<i32>) -> Seq<char> {
    "mihomo exited unexpectedly (code="@ + debug_exit_code(code) + ")"@
}

/// Is the core running or on its way up?
pub open spec fn is_up(s: CoreStatus) -> bool {
    s is Running || s is Starting
}

/// What a direct (in-process) start does first.
#[derive(Debug, Clone, Copy, PartialEq, Eq, Structural)]
pub enum StartDecision {
    /// The core is already running or starting: nothing to do.
    AlreadyUp,
    /// Spawn the binary; the status is now `Starting`.
    Spawn,
    /// No mihomo binary was found; the status is unchanged.
    BinaryMissing,
}

/// What a config reload does.
#[derive(Debug, Clone, Copy, PartialEq, Eq, Structural)]
pub enum ReloadDecision {
    /// The core is not running: start it instead.
    Start,
    /// Ask mihomo's controller to reload; restart if that fails.
    HotReload,
}

/// The core manager's status and the transitions each operation makes.
pub struct CoreLifecycle {
    status: CoreStatus,
}

impl CoreLifecycle {
    pub closed spec fn view_status(&self) -> CoreStatus {
        self.status
    }

    /// A manager that has not started anything.
    pub fn new() -> (s: Self)
        ensures
            s.view_status() matches CoreStatus::Stopped,
    {
        CoreLifecycle { status: CoreStatus::Stopped }
    }

    /// Current status.
    pub fn status(&self) -> (s: CoreStatus)
        ensures
            s == self.view_status(),
    {
        self.status.clone_status()
    }

    /// Direct start, first half: nothing to do when already up, refuse when
    /// no binary was located, else move to `Starting`.
    pub fn begin_direct_start(&mut self, binary_found: bool) -> (d: StartDecision)
        ensures
            is_up(old(self).view_status()) ==> d == StartDecision::AlreadyUp && final(self).view_status() == old(self).view_status(),
            !is_up(old(self).view_status()) && !binary_found ==> d == StartDecision::BinaryMissing
                && final(self).view_status() == old(self).view_status(),
            !is_up(old(self).view_status()) && binary_found ==> d == StartDecision::Spawn && final(self).view_status() matches CoreStatus::Starting,
    {
        match self.status {
            CoreStatus::Running { .. } | CoreStatus::Starting => StartDecision::AlreadyUp,
            _ => {
                if binary_found {
                    self.status = CoreStatus::Starting;
                    StartDecision::Spawn
                } else {
                    StartDecision::BinaryMissing
                }
            },
        }
    }

    /// Direct start, second half: the spawned pid, or the failure text.
    pub fn finish_direct_start(&mut self, outcome: Result<u32, String>)
        ensures
            match outcome {
                Ok(pid) => final(self).view_status() == (CoreStatus::Running { pid }),
                Err(e) => final(self).view_status() == (CoreStatus::Failed { reason: e }),
            },
    {
        match outcome {
            Ok(pid) => self.status = CoreStatus::Running { pid },
            Err(reason) => self.status = CoreStatus::Failed { reason },
        }
    }

    /// Start through the service, first half: always moves to `Starting`
    /// (a previous run is replaced by the service's restart).
    pub fn begin_service_start(&mut self)
        ensures
            final(self).view_status() matches CoreStatus::Starting,
    {
        self.status = CoreStatus::Starting;
    }

    /// Start through the service, second half: the state the service
    /// reported, or the failure text.
    pub fn finish_service_start(&mut self, outcome: Result<CoreState, String>)
        ensures
            match outcome {
                Ok(state) => final(self).view_status() == status_of_state(state),
                Err(e) => final(self).view_status() == (CoreStatus::Failed { reason: e }),
            },
    {
        match outcome {
            Ok(state) => self.status = ipc_state_to_status(state),
            Err(reason) => self.status = CoreStatus::Failed { reason },
        }
    }

    /// A binary could not be located for a start through the service.
    pub fn fail(&mut self, reason: String)
        ensures
            final(self).view_status() == (CoreStatus::Failed { reason }),
    {
        self.status = CoreStatus::Failed { reason };
    }

    /// After stopping the local child and the service's: always `Stopped`.
    pub fn mark_stopped(&mut self)
        ensures
            final(self).view_status() matches CoreStatus::Stopped,
    {
        self.status = CoreStatus::Stopped;
    }

    /// Reload: hot-reload only a running core; anything else is started.
    pub fn reload_decision(&self) -> (d: ReloadDecision)
        ensures
            d == (if self.view_status() is Running {
                ReloadDecision::HotReload
            } else {
                ReloadDecision::Start
            }),
    {
        match self.status {
            CoreStatus::Running { .. } => ReloadDecision::HotReload,
            _ => ReloadDecision::Start,
        }
    }

    /// mihomo exited: expected when stopping or stopped, a failure otherwise.
    pub fn mark_exited(&mut self, code: Option<i32>)
        ensures
            (old(self).view_status() is Stopping || old(self).view_status() is Stopped) ==> final(self).view_status() matches CoreStatus::Stopped,
            !(old(self).view_status() is Stopping || old(self).view_status() is Stopped) ==> (final(self).view_status() matches CoreStatus::Failed { reason } && reason@
                == unexpected_exit_reason(code)),
    {
        match self.status {
            CoreStatus::Stopping | CoreStatus::Stopped => {
                self.status = CoreStatus::Stopped;
            },
            _ => {
                let mut m = chars_of("mihomo exited unexpectedly (code=");
                push_debug_exit_code(&mut m, code);
                push_str(&mut m, ")");
                self.status = CoreStatus::Failed { reason: string_of(m.as_slice()) };
            },
        }
    }
}

impl CoreStatus {
    /// A copy of this status.
    pub fn clone_status(&self) -> (c: CoreStatus)
        ensures
            c == *self,
    {
        match self {
            CoreStatus::Stopped => CoreStatus::Stopped,
            CoreStatus::Starting => CoreStatus::Starting,
            CoreStatus::Running { pid } => CoreStatus::Running { pid: *pid },
            CoreStatus::Stopping => CoreStatus::Stopping,
            CoreStatus::Failed { reason } => CoreStatus::Failed { reason: reason.clone() },
        }
    }
}

/// Why the core cannot be started when no mihomo binary was found.
pub fn binary_missing_message() -> (r: &'static str)
    ensures
        r@ == "mihomo binary not found. Set MIHOMO_PATH env var, place ./mihomo next to ClashR, or install mihomo on PATH"@,
{
    "mihomo binary not found. Set MIHOMO_PATH env var, place ./mihomo next to ClashR, or install mihomo on PATH"
}

/// Folder readable by the root-owned service, where the config and the
/// geodata are copied before the service starts the core (the user's
/// own folders may be closed to root).
pub const SHARED_DIR: &'static str = "/tmp/clashr";

/// The config the service is handed.
pub fn shared_config_path() -> (r: String)
    ensures
        r@ == path_join(SHARED_DIR@, "runtime.yaml"@),
{
    join(SHARED_DIR, "runtime.yaml")
}

/// Folders searched for geodata to copy: the data directory, then Clash
/// Verge's data folder under the system data directory when there is one.
pub open spec fn geodata_dirs(data_dir: Seq<char>, system_data: Option<Seq<char>>) -> Seq<Seq<char>> {
    seq![data_dir] + match system_data {
        Some(d) => seq![path_join(d, "io.github.clash-verge-rev.clash-verge-rev"@)],
        None => Seq::empty(),
    }
}

/// The folders searched for geodata, in order.
pub fn geodata_sources(data_dir: &str, system_data: &Option<String>) -> (r: Vec<String>)
    ensures
        crate::text::views(r@) == geodata_dirs(
            data_dir@,
            match system_data {
                Some(d) => Some(d@),
                None => None,
            },
        ),
{
    let mut r: Vec<String> = vec![owned(data_dir)];
    if let Some(d) = system_data {
        r.push(join(d.as_str(), "io.github.clash-verge-rev.clash-verge-rev"));
    }
    assert(crate::text::views(r@) =~= geodata_dirs(
        data_dir@,
        match system_data {
            Some(d) => Some(d@),
            None => None,
        },
    ));
    r
}

/// Is an extension that of a geodata file (`mmdb`, `dat` or `metadb`)?
pub open spec fn is_geodata_ext(ext: Option<Seq<char>>) -> bool {
    match ext {
        Some(e) => e == "mmdb"@ || e == "dat"@ || e == "metadb"@,
        None => false,
    }
}

/// Is a file geodata?
pub open spec fn is_geodata(path: Seq<char>) -> bool {
    is_geodata_ext(std_path_extension(path))
}

/// Where a file with extension `ext` and file name `name` is copied to when
/// it is geodata: the shared folder, under its own name.
pub open spec fn geodata_target_of(ext: Option<Seq<char>>, name: Option<Seq<char>>) -> Option<Seq<char>> {
    if is_geodata_ext(ext) {
        match name {
            Some(n) => Some(path_join(SHARED_DIR@, n)),
            None => None,
        }
    } else {
        None
    }
}

/// Where a file is copied to when it is geodata.
pub open spec fn geodata_target(path: Seq<char>) -> Option<Seq<char>> {
    geodata_target_of(std_path_extension(path), std_path_file_name(path))
}

/// The copy target of a file, given its extension and file name.
pub fn geodata_target_from(ext: Option<&str>, name: Option<&str>) -> (r: Option<String>)
    ensures
        match geodata_target_of(
            match ext {
                Some(e) => Some(e@),
                None => None,
            },
            match name {
                Some(n) => Some(n@),
                None => None,
            },
        ) {
            Some(t) => r matches Some(x) && x@ == t,
            None => r is None,
        },
{
    let geo = match ext {
        Some(e) => str_eq(e, "mmdb") || str_eq(e, "dat") || str_eq(e, "metadb"),
        None => false,
    };
    if !geo {
        return None;
    }
    match name {
        Some(n) => Some(join(SHARED_DIR, n)),
        None => None,
    }
}

/// The copy target of a file of a geodata folder, if it is geodata (it is
/// copied only when the target does not exist yet).
pub fn geodata_copy_target(path: &str) -> (r: Option<String>)
    ensures
        match geodata_target(path@) {
            Some(t) => r matches Some(x) && x@ == t,
            None => r is None,
        },
{
    let ext = path_extension(path);
    let name = path_file_name(path);
    let e: Option<&str> = match &ext {
        Some(x) => Some(x.as_str()),
        None => None,
    };
    let n: Option<&str> = match &name {
        Some(x) => Some(x.as_str()),
        None => None,
    };
    geodata_target_from(e, n)
}

/// How the core picks up a freshly downloaded active profile.
#[derive(Debug, Clone, Copy, PartialEq, Eq, Structural)]
pub enum ActivationAction {
    /// The core is not up: start it.
    Start,
    /// The core is up (or on its way): restart it.
    Restart,
}

/// After the active profile was downloaded and activated: a stopped or
/// failed core is started, any other is restarted.
pub fn activation_action(status: &CoreStatus) -> (r: ActivationAction)
    ensures
        r == (if *status is Stopped || *status is Failed {
            ActivationAction::Start
        } else {
            ActivationAction::Restart
        }),
{
    match status {
        CoreStatus::Stopped | CoreStatus::Failed { .. } => ActivationAction::Start,
        _ => ActivationAction::Restart,
    }
}

/// What follows the controller's answer to a hot reload.
#[derive(Debug, Clone, Copy, PartialEq, Eq, Structural)]
pub enum ReloadFollowUp {
    /// The config was reloaded: nothing more to do.
    Done,
    /// The reload failed: restart the core.
    Restart,
}

/// After asking a running core to reload: a 2xx answer ends the reload;
/// any other status, or no answer at all (`None`: the controller could
/// not be reached), falls back to a restart.
pub fn reload_follow_up(http_status: Option<u16>) -> (r: ReloadFollowUp)
    ensures
        r == (match http_status {
            Some(code) => if 200 <= code < 300 {
                ReloadFollowUp::Done
            } else {
                ReloadFollowUp::Restart
            },
            None => ReloadFollowUp::Restart,
        }),
{
    match http_status {
        Some(code) => if 200 <= code && code < 300 {
            ReloadFollowUp::Done
        } else {
            ReloadFollowUp::Restart
        },
        None => ReloadFollowUp::Restart,
    }
}

} // verus!
