# TrayGuardian

A small Windows companion. A bubble bobs in the corner of the desktop; a click on it, or
Ctrl+Shift+T, slides in a quick panel with buttons, the master volume and the battery. A
watchdog looks once after start-up whether the notification area of the taskbar is there,
and restarts the shell if it is not. `--install` enters the program among those that start
with the user's session.

- `src/` is the core, verified with Verus: what every message leads to, every frame of the
  animations, every pixel of the bubble. It never calls the system.
- `app/` is the program around it, on the `windows` crate. `app/driver.rs` runs the core's
  procedures and knows nothing of Windows; `app/win32.rs` and `app/canvas.rs` are compiled
  on Windows only, and embed the icon `assets/handyman.jpg`.
- `tests/` runs the core on concrete values, and compares its whole-number arithmetic with
  floating point.
