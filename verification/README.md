# win-night-shift

A Windows tray utility for Night Light (on/off and strength), light/dark mode
and start-with-Windows, built as a verified library and a thin host program.

- `src/` — the library, verified with Verus:
  - `blob` — the CloudStore blob format: embedded timestamp codec and its
    advance rule, the on/off state toggle, the colour-temperature field
    (find, edit, insert), the known-layout check, the settings template.
  - `nightlight` — the strength scale, reading state and strength from blobs,
    choosing among several settings keys, classifying and collecting keys,
    and what to write where.
  - `preview` — bookkeeping of the live colour-temperature preview.
  - `flyout` — panel show/hide rules, control values, write throttling,
    placement.
  - `theme`, `autostart`, `tray` — dark-mode values, the start-up command
    line, icon pixel conversion.
  - `text`, `clock` — character-sequence helpers and the wall clock.
- `app/` — the program: registry access, the display channel, the registry
  watcher, the tray icon and the WinUI panel, each handing plain values to the
  library and carrying out what it returns.
- `tests/` — tests of the library.
