//! The decision logic of a Wayland status bar: the tray-item registry of the
//! StatusNotifierWatcher service, the addresses of tray items on the session
//! bus, the menus that tray items publish, and the small state machines of
//! the bar's widgets.

pub mod address;
pub mod decimal;
pub mod menu;
pub mod watcher;
pub mod widgets;


