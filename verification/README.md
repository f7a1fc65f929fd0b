# Spaceadom, verified core

Spaceadom turns Space into a launcher key on Windows: hold Space and a
letter to open an app, a folder or a site, with a Guide HUD ring on screen
and a middle-button icon ring for the mouse.

This crate is the part of it that decides things, written in Verus and
proved against its contracts:

- `src/repeat.rs` — which keys are down, so auto-repeat is recognised.
- `src/pointer.rs` — pointer activation: the shared snapshot, the hold
  tracker's guards, dwell and arming, the Space-abort handshake, the aim
  throttle.
- `src/middle_ring.rs`, `src/config.rs` — the ring's names, shapes,
  favourites and entries from the profile's bindings.
- `src/overlay_boot.rs`, `src/boot.rs` — start-up decisions.
- `src/packaged.rs`, `src/portable.rs` — Store identity, the logon task and
  where the data lives.
- `src/picker.rs`, `src/icon.rs` — the app picker's worker rules, the scan's
  output, and icons as base64 PNG.
- `src/release_notes.rs` — the What's New notes.
- `src/text.rs` — the string helpers the rest is built on.

`app/` is the program around it: threads, files, child processes, the clock,
and the floating-point geometry of the rings. `tests/` runs the library.
