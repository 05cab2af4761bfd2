# WorkBuddy theme switcher

An offline image-theme studio and theme keeper for WorkBuddy on Windows.

- `src/` is the verified core, written in Verus. Every function there carries a
  contract that Verus proves: the theme library's paths and revision numbering, the
  save and recovery decisions, the trial lease and window-close rules, the automatic
  keeper's retry policy, the renderer debugging protocol, the runtime's diagnostics,
  catalog and registry parsing, canonical Base64, colour spellings and the regional
  design bounds. Public proof functions state the laws that hold across calls (for
  example that Base64 decoding inverts encoding, that a closed trial can never be
  renewed, or that a chosen revision number is never reused).
- `tests/` runs the core on concrete values.
- `app/` is the Tauri application around the core: windows, commands, files,
  processes, the debugging socket, image decoding and the colour arithmetic. It hands
  the core plain values and acts on its answers.

The core calls three outside crates through small trusted wrappers whose contracts
are stated in their doc comments: SHA-256 (`sha2`), URL parsing (`url`) and random
identifiers (`uuid`); one more wrapper appends a character to a `String`.
