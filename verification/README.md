# pasteharbor

The verified core of a clipboard-history service for GNOME: a daemon stores
copied text and images in SQLite and serves them over D-Bus; a window lists,
searches and restores them.

- `src/` is the library, verified with Verus:
  - `privacy`: which copied text is never stored (marked sensitive, blank,
    or shaped like a secret token);
  - `preview`: the single-line preview of a text, and its laws;
  - `capture`: the limits on stored content, the BLAKE3 content key that
    detects duplicates, and the columns of new text and image entries;
  - `settings`: shared names and types, the history-size limits, and how the
    size is written to and read back from storage;
  - `query`: listing limits, search patterns, schema upgrades, error texts;
  - `format`: size and timestamp labels, entry subtitles and icons;
  - `view`: decisions of the history window (request, refresh cache, status);
  - `service`: decisions of the daemon (data directory, front-end program,
    watchdog);
  - `text`: white space, trimming, decimal digits, building strings.
- `app/` is the daemon itself: SQLite through sqlx, the D-Bus interface
  through zbus, and the main loop. The crate holds no GTK window: the
  decisions of the history window that do not depend on widgets are in
  `view` and `format`, for a front end to call.
- `tests/` runs the library on concrete values.
