//! The menu of the system-tray icon.

use vstd::prelude::*;

use crate::text::str_eq;

verus! {

/// What the user picked in the tray menu.
#[derive(Debug, Clone, Copy, PartialEq, Eq, Structural)]
pub enum TrayEvent {
    Show,
    Quit,
}

/// The event of a click on the menu item with id `id`, given the ids of
/// the "Show Window" and "Quit" items; clicks on anything else are no
/// event.
pub fn tray_event_for(id: &str, show_id: &str, quit_id: &str) -> (r: Option<TrayEvent>)
    ensures
        id@ == show_id@ ==> r == Some(TrayEvent::Show),
        id@ != show_id@ && id@ == quit_id@ ==> r == Some(TrayEvent::Quit),
        id@ != show_id@ && id@ != quit_id@ ==> r is None,
{
    if str_eq(id, show_id) {
        Some(TrayEvent::Show)
    } else if str_eq(id, quit_id) {
        Some(TrayEvent::Quit)
    } else {
        None
    }
}

} // verus!
