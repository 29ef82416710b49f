# seashell

A status bar for Wayland compositors, built with GTK 4 and D-Bus.

- `src/` is the verified library: the registry of the
  `org.kde.StatusNotifierWatcher` service (`watcher`), the addresses of tray
  items on the bus (`address`), the menus and action groups that tray items
  publish over `com.canonical.dbusmenu` (`menu`), decimal notation of ids
  (`decimal`), and the decisions of the bar's widgets (`widgets`). Each
  public function states its result in its contract; the `law_*` proof
  functions state what holds across calls.
- `app/` is the program around it: the GTK widgets, the D-Bus interface and
  proxies (zbus), and the bus connections.
- `tests/` runs the library on concrete values.
