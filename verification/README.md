# ghost_browser

The state and rules of a small tabbed web browser, verified with Verus.

- `src/text.rs` — character-sequence helpers (prefix/suffix/infix tests, Unicode
  whitespace trimming, left-to-right replacement, decimal rendering).
- `src/input.rs` — what typed input resolves to: refused schemes, normalized URLs, bare
  host names, searches; which page a new tab opens; the browser's internal pages.
- `src/model.rs` — tabs, history entries, bookmarks, settings, the whole state and their
  views.
- `src/tabs.rs` — opening, switching, cycling and closing tabs, with the tab-strip
  consistency laws.
- `src/history.rs` — recording visits, retitling, removal and search.
- `src/bookmarks.rs` — adding, removing and toggling bookmarks.
- `src/shortcuts.rs` — the window's keyboard shortcuts.
- `src/startup.rs` — rendering flags and session restore requests.
- `app/` — the Tauri application: windows, webviews, files and events, calling the
  library for every decision.
