# rust_browser

The core of a small desktop web browser whose behaviour is proved with Verus.

- `src/` is the verified library: blocklist parsing and URL blocking (with
  `url` for URL parsing), blocklist profiles and the assembly of blocklist
  sources, navigation state and history, bookmarks in a `sled` database,
  readable page previews extracted with `scraper`, the browser shell's tab
  state machine and view model, and the HTML building blocks of the shell.
- `app/` is the command-line program around it: reading files and the
  environment, fetching blocklists and pages with `reqwest`, storing settings
  as JSON with `serde_json`, and printing simulated navigations.
- `tests/` exercises the library through its public API.

Calls into outside crates go through a few trusted wrappers, each documented
where it is declared; everything else in `src/` is verified.
