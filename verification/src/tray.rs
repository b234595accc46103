//! Events the system-tray menu can raise for the caller's event loop.

use vstd::prelude::*;

verus! {

/// What the user did with the tray icon or its menu.
#[derive(Debug, Clone, Copy, PartialEq, Eq, Structural)]
pub enum TrayEvent {
    Show,
    LeftClick,
    Settings,
    Exit,
}

} // verus!
