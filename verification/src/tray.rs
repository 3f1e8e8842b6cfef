//! The system tray item: its identity and its menu.

use vstd::prelude::*;
use crate::text::owned;

verus! {

/// What the tray asks the launcher to do.
#[derive(Clone, Copy, Debug, PartialEq, Eq, Structural)]
pub enum Event {
    Open,
    Settings,
    Quit,
}

/// The pixel sizes of the tray icon.
pub const ICON_SIZES: [i32; 4] = [16, 22, 32, 48];

/// The tray item's id.
pub fn tray_id() -> (r: String)
    ensures
        r@ == "spotter"@,
{
    owned("spotter")
}

/// The tray item's title.
pub fn tray_title() -> (r: String)
    ensures
        r@ == "Spotter"@,
{
    owned("Spotter")
}

/// The tray item's themed icon name: none, the drawn icon is used.
pub fn tray_icon_name() -> (r: String)
    ensures
        r@ == ""@,
{
    owned("")
}

/// The event sent when the tray item is activated.
pub fn activate_event() -> (r: Event)
    ensures
        r == Event::Open,
{
    Event::Open
}

/// An entry of the tray menu.
#[derive(Debug, PartialEq, Eq)]
pub enum MenuEntry {
    /// An item with a label and themed icon that sends an event.
    Item { label: String, icon_name: String, event: Event },
    Separator,
}

/// The view of a menu entry: `None` for a separator.
pub open spec fn entry_view(e: MenuEntry) -> Option<(Seq<char>, Seq<char>, Event)> {
    match e {
        MenuEntry::Item { label, icon_name, event } => Some((label@, icon_name@, event)),
        MenuEntry::Separator => None,
    }
}

/// The tray menu: open, settings, a separator, quit.
pub open spec fn menu_spec() -> Seq<Option<(Seq<char>, Seq<char>, Event)>> {
    seq![
        Some(("Open Spotter"@, "system-search"@, Event::Open)),
        Some(("Settings"@, "preferences-system"@, Event::Settings)),
        None,
        Some(("Quit"@, "application-exit"@, Event::Quit)),
    ]
}

/// The tray menu entries, in order.
pub fn menu_entries() -> (r: Vec<MenuEntry>)
    ensures
        r@.map_values(|e: MenuEntry| entry_view(e)) == menu_spec(),
{
    let mut r: Vec<MenuEntry> = Vec::new();
    r.push(
        MenuEntry::Item {
            label: owned("Open Spotter"),
            icon_name: owned("system-search"),
            event: Event::Open,
        },
    );
    r.push(
        MenuEntry::Item {
            label: owned("Settings"),
            icon_name: owned("preferences-system"),
            event: Event::Settings,
        },
    );
    r.push(MenuEntry::Separator);
    r.push(
        MenuEntry::Item {
            label: owned("Quit"),
            icon_name: owned("application-exit"),
            event: Event::Quit,
        },
    );
    assert(r@.map_values(|e: MenuEntry| entry_view(e)) =~= menu_spec());
    r
}

} // verus!
