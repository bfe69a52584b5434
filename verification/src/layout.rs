//! The window's navigation: the pages of the sidebar, their labels, and
//! the status badge of the core.

use vstd::prelude::*;

use crate::i18n::{t, translation, Locale};
use crate::manager::CoreStatus;

verus! {

/// A page of the main window.
#[derive(Debug, Clone, Copy, PartialEq, Eq, Structural)]
pub enum Page {
    Home,
    Proxies,
    Profiles,
    Connections,
    Rules,
    Logs,
    Settings,
}

/// Switching from page `was` to page `to` refreshes the proxy list when it
/// enters the Proxies page, so that a list gone stale (after a profile
/// switch) is read again from the core.
pub fn switch_refreshes(was: Page, to: Page) -> (r: bool)
    ensures
        r == (to == Page::Proxies && was != Page::Proxies),
{
    to == Page::Proxies && was != Page::Proxies
}

/// The translation key of a page's label.
pub open spec fn page_key(p: Page) -> Seq<char> {
    match p {
        Page::Home => "nav.home"@,
        Page::Proxies => "nav.proxies"@,
        Page::Profiles => "nav.profiles"@,
        Page::Connections => "nav.connections"@,
        Page::Rules => "nav.rules"@,
        Page::Logs => "nav.logs"@,
        Page::Settings => "nav.settings"@,
    }
}

/// The pages, in sidebar order.
pub open spec fn page_order() -> Seq<Page> {
    seq![
        Page::Home,
        Page::Proxies,
        Page::Profiles,
        Page::Connections,
        Page::Rules,
        Page::Logs,
        Page::Settings,
    ]
}

impl Page {
    /// The translation key of this page's label.
    pub fn label_key(&self) -> (r: &'static str)
        ensures
            r@ == page_key(*self),
    {
        match self {
            Page::Home => "nav.home",
            Page::Proxies => "nav.proxies",
            Page::Profiles => "nav.profiles",
            Page::Connections => "nav.connections",
            Page::Rules => "nav.rules",
            Page::Logs => "nav.logs",
            Page::Settings => "nav.settings",
        }
    }

    /// This page's label in `locale`.
    pub fn label(&self, locale: &Locale) -> (r: &'static str)
        ensures
            r@ == translation(*locale, page_key(*self)),
    {
        t(locale, self.label_key())
    }

    /// Every page, in sidebar order.
    pub fn all() -> (r: Vec<Page>)
        ensures
            r@ == page_order(),
    {
        let r = vec![
            Page::Home,
            Page::Proxies,
            Page::Profiles,
            Page::Connections,
            Page::Rules,
            Page::Logs,
            Page::Settings,
        ];
        assert(r@ =~= page_order());
        r
    }
}

/// The colour family of the status badge.
#[derive(Debug, Clone, Copy, PartialEq, Eq, Structural)]
pub enum StatusTone {
    /// Grey: stopped.
    Idle,
    /// Amber: starting or stopping.
    Busy,
    /// Green: running.
    Good,
    /// Red: failed.
    Bad,
}

/// The translation key of a status.
pub open spec fn status_key(s: CoreStatus) -> Seq<char> {
    match s {
        CoreStatus::Stopped => "status.stopped"@,
        CoreStatus::Starting => "status.starting"@,
        CoreStatus::Running { .. } => "status.running"@,
        CoreStatus::Stopping => "status.stopping"@,
        CoreStatus::Failed { .. } => "status.failed"@,
    }
}

/// The colour family of a status.
pub open spec fn status_tone_of(s: CoreStatus) -> StatusTone {
    match s {
        CoreStatus::Stopped => StatusTone::Idle,
        CoreStatus::Starting => StatusTone::Busy,
        CoreStatus::Running { .. } => StatusTone::Good,
        CoreStatus::Stopping => StatusTone::Busy,
        CoreStatus::Failed { .. } => StatusTone::Bad,
    }
}

/// The status badge: its text in `locale` and its colour family.
pub fn status_label(status: &CoreStatus, locale: &Locale) -> (r: (&'static str, StatusTone))
    ensures
        r.0@ == translation(*locale, status_key(*status)),
        r.1 == status_tone_of(*status),
{
    match status {
        CoreStatus::Stopped => (t(locale, "status.stopped"), StatusTone::Idle),
        CoreStatus::Starting => (t(locale, "status.starting"), StatusTone::Busy),
        CoreStatus::Running { .. } => (t(locale, "status.running"), StatusTone::Good),
        CoreStatus::Stopping => (t(locale, "status.stopping"), StatusTone::Busy),
        CoreStatus::Failed { .. } => (t(locale, "status.failed"), StatusTone::Bad),
    }
}

} // verus!
