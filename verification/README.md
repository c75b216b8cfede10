# mouse_cursor_mover

A macOS menu-bar utility that keeps the machine awake by moving the mouse cursor
to a random point every five seconds while it is started.

- `src/` is the verified library (Verus):
  - `lcg.rs`: the 64-bit linear congruential generator behind the random
    targets, seeded from the wall clock;
  - `lcg_period.rs`: the generator's full period of 2^64 and its uniform
    output;
  - `icon.rs`: the drawn 22×22 tray icons (green disc / gray ring), in exact
    integer geometry;
  - `icon_files.rs`: icon files on disk: which to try, which one is used, the
    message when none can be;
  - `tray.rs`: the tray's decisions: Start/Stop/Quit menus, the Cmd+Option+S
    shortcut, the 250 ms debounce of toggles;
  - `mover.rs`: the cursor mover's pause / jump / glide cycle as a state machine.
- `app/` is the program around it: the event loop (winit), the tray (tray-icon),
  the global shortcut (global-hotkey), file reads, mouse control through
  CoreGraphics, threads and floating-point scaling.
- `tests/` runs the library on concrete values.
