//! Themes and the user's saved preferences: where they live, which files
//! of the themes folder are themes, and the order in which theme names are
//! offered.

use vstd::prelude::*;

use crate::order::{sort_by_name, sorted_by_name};
use crate::paths::{join, path_extension, path_join, std_path_extension};
use crate::text::{str_eq, views};

verus! {

/// Persisted UI preferences.
#[derive(Debug, Clone)]
pub struct Preferences {
    /// The chosen theme, if any.
    pub theme_name: Option<String>,
    /// Whether the system proxy was on.
    pub system_proxy_enabled: bool,
    /// The chosen UI language, if any.
    pub language: Option<String>,
}

impl Default for Preferences {
    fn default() -> (r: Self)
        ensures
            r.theme_name is None,
            !r.system_proxy_enabled,
            r.language is None,
    {
        Preferences { theme_name: None, system_proxy_enabled: false, language: None }
    }
}

impl Preferences {
    /// `preferences.json` in the data directory.
    pub fn path(data_dir: &str) -> (r: String)
        ensures
            r@ == path_join(data_dir@, "preferences.json"@),
    {
        join(data_dir, "preferences.json")
    }
}

/// The `themes` folder of the resources directory.
pub fn themes_dir(resources_dir: &str) -> (r: String)
    ensures
        r@ == path_join(resources_dir@, "themes"@),
{
    join(resources_dir, "themes")
}

/// A file of the themes folder is loaded when its extension is `json`.
pub open spec fn is_theme_path(path: Seq<char>) -> bool {
    std_path_extension(path) == Some("json"@)
}

/// Whether a file of the themes folder is a theme.
pub fn is_theme_file(path: &str) -> (r: bool)
    ensures
        r == is_theme_path(path@),
{
    match path_extension(path) {
        Some(e) => str_eq(e.as_str(), "json"),
        None => false,
    }
}

/// The theme names in the order they are offered: sorted.
pub fn sorted_theme_names(names: Vec<String>) -> (r: Vec<String>)
    ensures
        sorted_by_name(r@),
        r@.to_multiset() == names@.to_multiset(),
        r@.len() == names@.len(),
{
    sort_by_name(names)
}

/// The theme to apply at start: the saved one when it is registered,
/// otherwise none (the registry's default light theme is used).
pub fn startup_theme(prefs: &Preferences, registered: &Vec<String>) -> (r: Option<String>)
    ensures
        match prefs.theme_name {
            Some(n) => if views(registered@).contains(n@) {
                r matches Some(x) && x@ == n@
            } else {
                r is None
            },
            None => r is None,
        },
{
    match &prefs.theme_name {
        Some(n) => {
            let mut i: usize = 0;
            while i < registered.len()
                invariant
                    i <= registered@.len(),
                    prefs.theme_name == Some(*n),
                    forall|k: int| 0 <= k < i ==> registered@[k]@ != n@,
                decreases registered.len() - i,
            {
                if str_eq(registered[i].as_str(), n.as_str()) {
                    assert(views(registered@)[i as int] == n@);
                    return Some(crate::text::owned(n.as_str()));
                }
                i = i + 1;
            }
            assert(!views(registered@).contains(n@)) by {
                if views(registered@).contains(n@) {
                    let k = choose|k: int| 0 <= k < registered@.len() && #[trigger] views(registered@)[k] == n@;
                    assert(registered@[k]@ != n@);
                }
            }
            None
        },
        None => None,
    }
}

/// Light or dark appearance.
#[derive(Debug, Clone, Copy, PartialEq, Eq, Structural)]
pub enum ThemeMode {
    Light,
    Dark,
}

/// The app-wide appearance.
#[derive(Debug, Clone, Copy, PartialEq, Eq, Structural)]
pub struct AppTheme {
    pub mode: ThemeMode,
}

/// The appearance at start: dark.
pub fn init() -> (r: AppTheme)
    ensures
        r.mode == ThemeMode::Dark,
{
    AppTheme { mode: ThemeMode::Dark }
}

/// The other mode.
pub open spec fn other_mode(m: ThemeMode) -> ThemeMode {
    match m {
        ThemeMode::Light => ThemeMode::Dark,
        ThemeMode::Dark => ThemeMode::Light,
    }
}

/// Switches between light and dark.
pub fn toggle_theme(theme: &mut AppTheme)
    ensures
        final(theme).mode == other_mode(old(theme).mode),
{
    theme.mode = match theme.mode {
        ThemeMode::Light => ThemeMode::Dark,
        ThemeMode::Dark => ThemeMode::Light,
    };
}

/// Is the appearance dark?
pub fn is_dark(theme: &AppTheme) -> (r: bool)
    ensures
        r == (theme.mode == ThemeMode::Dark),
{
    match theme.mode {
        ThemeMode::Dark => true,
        ThemeMode::Light => false,
    }
}

/// Switching twice gives back the mode one started with.
pub proof fn lemma_toggle_theme_twice(m: ThemeMode)
    ensures
        other_mode(other_mode(m)) == m,
{
}

} // verus!
