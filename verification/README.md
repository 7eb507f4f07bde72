# Forward Slash Windows

A verified library for using Linux-style WSL paths on Windows: `/Ubuntu/home/me`
stands for `\\wsl.localhost\Ubuntu\home\me`, and `/` for the place the user chose.

- `src/` is the library. Every function states what it returns in `requires` and
  `ensures`, and Verus proves it. The files named `*_laws.rs`, and the functions named
  `law_*` elsewhere, state what holds across functions.
  - Paths: `text`, `path`, `percent`, `target`, `navigation`.
  - Settings: `settings`, `settings_write`, `package`, `system`, `powershell_policy`.
  - Updates: `update`, `sha256`, `verification`, `options`, `helper`, `report`,
    `appinstall`, `store`, `relaunch`, `gc`, `install`.
  - The settings window: `window_state`, `window_model`, `window_view`, `update_reply`,
    `state_watch`, `exit_watchdog`, `tray`, `instance`.
- `app/` is the program around it: the registry, processes, the network, the Store and
  the window itself. It reads plain values, asks the library what to do, and does it.
- `tests/` runs the library on concrete values.

What the library takes on trust is declared in it: some of std's string functions,
Unicode upper case, and the digest of the `sha2` crate.
