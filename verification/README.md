# cosmic-caldav

A CalDAV calendar for the COSMIC desktop: a panel applet that shows a month,
the events of the selected day, and a form to add, edit and delete events,
and a settings window to add CalDAV accounts (Nextcloud, Google, Outlook 365)
and browse their calendars.

The calendar logic is a Verus-verified library; the programs around it are
ordinary Rust.

## Layout

- `src/` — the verified library (`cosmic_caldav`):
  - `text.rs`, `time.rs` — characters, decimal and date/time text, the
    proleptic Gregorian calendar, and the time-zone conversions done by chrono
    and chrono-tz;
  - `ical.rs`, `vevent.rs` — iCalendar TEXT escaping, line unfolding, reading
    VEVENTs and writing the calendar object of an event;
  - `ical_laws.rs` — that an event written by `build_ical_event` reads back
    as that event;
  - `xml.rs` — reading WebDAV multistatus responses (quick-xml tokens);
  - `href.rs`, `caldav.rs` — which server URLs and hrefs may be used, the
    requests the client sends and how the answers are judged;
  - `config.rs` — the configured accounts;
  - `order.rs` — the stable sort of events by start time;
  - `app.rs`, `applet.rs` — the settings window's and the panel applet's
    state machines: each message changes the state and yields a command.
- `tests/` — tests of the library.
- `app/` — the programs: COSMIC widgets, HTTP with reqwest, the
  configuration file and the system keyring. `cosmic-caldav` starts the
  settings window, `cosmic-caldav applet` the panel applet.
