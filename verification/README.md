# autolon

A local autoclicker for Linux (Wayland first, KDE preferred): three speed
slots cycled by a global hotkey (F6 by default), an emergency stop (F7), a
settings window with a test canvas, a tray icon and an optional pointer
overlay.

Layout:

- `src/` — the verified library (Verus): configuration rules and upgrades,
  the clicker state machine and the decision taken for each daemon command,
  the socket protocol's decisions, hotkey routing and device recognition,
  backend selection, desktop-file contents, the tray icon and indicator
  pixel routines, and the settings window's local logic. Every function
  carries a contract; the `law_*` proof functions state properties that span
  several functions.
- `tests/` — tests of the library on concrete values.
- `app/` — the program around it: command line, configuration file and
  socket I/O, uinput/X11 input, evdev/KDE/portal hotkeys, D-Bus and Wayland
  overlay, tray and GTK window.
