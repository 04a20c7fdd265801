# accountability

A desktop accountability tracker: it records which application window and
which browser tab had the user's attention and for how long, counts that time
against daily limits per block category, tells the browser extension when a
tab should be blocked, and renders Markdown session reports.

## Layout

- `src/` is the library, written in Verus and verified:
  - `tracking.rs`: the session tracker that turns window polls into opened and
    closed application sessions;
  - `bridge.rs`: the decisions taken for each message a tab-event client
    sends, and a model of the store's open tab sessions per source;
  - `dashboard.rs`: the daily counts the dashboard shows;
  - `matching.rs`, `quota.rs`, `defaults.rs`: keyword and domain matching,
    daily usage per category, and the block decision;
  - `report.rs`: merging, ordering and rendering session reports;
  - `keys.rs`, `storage.rs`, `clock.rs`, `shell.rs`: database key handling,
    stored keyword lists, day boundaries, window placement, tray decisions
    and the messages shown for failures;
  - `laws.rs`: properties that span several functions;
  - `text.rs`: verified string helpers.
- `app/` is the unverified shell: SQLite storage, the polling thread, the
  WebSocket server, and the Tauri commands, tray and shortcut. It calls the
  library for every decision.
- `tests/` exercises the library on concrete values.

The desktop shell in `app/` is written against Tauri 2 and its opener and
global-shortcut plugins. Those crates are not listed in `Cargo.toml`, which
keeps the dependency tree small, so the shell does not build from this
manifest alone; the library and its tests do not depend on them.
