# klipo

The core of Klipo, a clipboard manager: the clipboard history, how captures
are recognised as Klipo's own writes, the paste flow, shortcut settings and
bindings, desktop-capability reporting and the startup sequence. The
functions in `src/` are verified with Verus against their
`requires`/`ensures` contracts, except the few small wrappers around outside
crates (the MD5 digest, the PNG thumbnail, base64, shortcut parsing and
`String::push`), whose contracts are trusted and say what those crates do.

Layout:

- `src/` — the verified library, one module per concern (`storage`,
  `self_write`, `system_clipboard`, `commands`, `shortcuts`, `settings`,
  `desktop`, `startup`, `window`, `input`, `tray`, `single_instance`,
  `logging`, `preview`, `digest`, `clipboard`, `paste`, `text`).
  Public `proof fn`s state the library's laws, such as "a recorded capture
  is first and found by its hash" or "a verified write is recognised as
  Klipo's own until its marker expires".
- `tests/` — ordinary Rust tests of the library, with fake platform
  adapters.
- `app/` — the desktop shell: Tauri commands and windows, the native
  clipboard, SQLite persistence, enigo input and the log files, all calling
  into the library for their decisions.
