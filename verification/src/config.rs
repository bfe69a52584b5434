//! The app's own settings file (`<config dir>/clashr/config.json`) and its
//! defaults.

use vstd::prelude::*;

use crate::paths::{join, opt_view, path_join};

verus! {

/// mihomo connection settings.
#[derive(Debug, Clone)]
pub struct ClashCoreConfig {
    pub mixed_port: u16,
    pub external_controller: String,
    pub secret: Option<String>,
    pub config_path: Option<String>,
}

/// System integration switches.
#[derive(Debug, Clone, Copy, PartialEq, Eq, Structural)]
pub struct SystemConfig {
    pub system_proxy: bool,
    pub tun_mode: bool,
    pub auto_launch: bool,
}

/// Look and language.
#[derive(Debug, Clone)]
pub struct AppearanceConfig {
    pub theme: String,
    pub language: String,
}

/// All settings of the app.
#[derive(Debug, Clone)]
pub struct AppConfig {
    pub clash_core: ClashCoreConfig,
    pub system: SystemConfig,
    pub appearance: AppearanceConfig,
}

/// The settings of a first run.
pub open spec fn is_default_config(c: AppConfig) -> bool {
    &&& c.clash_core.mixed_port == 7890
    &&& c.clash_core.external_controller@ == "127.0.0.1:9090"@
    &&& c.clash_core.secret is None
    &&& c.clash_core.config_path is None
    &&& c.system == SystemConfig { system_proxy: false, tun_mode: false, auto_launch: false }
    &&& c.appearance.theme@ == "dark"@
    &&& c.appearance.language@ == "en"@
}

impl Default for AppConfig {
    fn default() -> (c: Self)
        ensures
            is_default_config(c),
    {
        AppConfig {
            clash_core: ClashCoreConfig {
                mixed_port: 7890,
                external_controller: crate::text::owned("127.0.0.1:9090"),
                secret: None,
                config_path: None,
            },
            system: SystemConfig { system_proxy: false, tun_mode: false, auto_launch: false },
            appearance: AppearanceConfig {
                theme: crate::text::owned("dark"),
                language: crate::text::owned("en"),
            },
        }
    }
}

/// `dirs_next::config_dir`, as text: the user's configuration directory
/// when the system tells one. It depends on the environment, so nothing
/// is stated of it.
#[verifier::external_body]
fn system_config_dir() -> Option<String> {
    dirs_next::config_dir().map(|p| p.to_string_lossy().into_owned())
}

/// `<base>/clashr`, with `.` for an unknown base.
pub open spec fn config_dir_in(base: Option<Seq<char>>) -> Seq<char> {
    path_join(
        match base {
            Some(b) => b,
            None => "."@,
        },
        "clashr"@,
    )
}

impl AppConfig {
    /// The app's configuration directory under the given system
    /// configuration directory.
    pub fn config_dir_from(base: &Option<String>) -> (r: String)
        ensures
            r@ == config_dir_in(opt_view(*base)),
    {
        match base {
            Some(b) => join(b.as_str(), "clashr"),
            None => join(".", "clashr"),
        }
    }

    /// The app's configuration directory.
    pub fn config_dir() -> (r: String)
        ensures
            exists|base: Option<Seq<char>>| r@ == config_dir_in(base),
    {
        let base = system_config_dir();
        Self::config_dir_from(&base)
    }

    /// Path of the settings file.
    pub fn config_path() -> (r: String)
        ensures
            exists|base: Option<Seq<char>>| r@ == path_join(config_dir_in(base), "config.json"@),
    {
        let dir = Self::config_dir();
        join(dir.as_str(), "config.json")
    }

    /// The settings read from the file: what parsed, or the defaults when
    /// the file is missing or unreadable.
    pub fn from_loaded(parsed: Option<AppConfig>) -> (c: AppConfig)
        ensures
            match parsed {
                Some(p) => c == p,
                None => is_default_config(c),
            },
    {
        match parsed {
            Some(p) => p,
            None => AppConfig::default(),
        }
    }
}

/// Top-level app state holding the settings.
pub struct AppState {
    pub config: AppConfig,
}

impl AppState {
    /// The state for the settings that were loaded.
    pub fn new(config: AppConfig) -> (s: Self)
        ensures
            s.config == config,
    {
        AppState { config }
    }
}

} // verus!
