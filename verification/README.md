# nexo_poller_google_calendar

A Google Calendar v3 incremental-sync poller for Nexo agents. Each tick fetches
the events that changed since the stored sync token, renders a message per event
from a template and publishes it to the outbound channel.

The decisions of a tick are a library verified with Verus (`src/`):

- `urlencode` — percent-encoding of calendar ids, sync tokens and timestamps,
  with proofs that safe strings are unchanged, that the output is URL-safe and
  that percent-decoding gives back the UTF-8 bytes (so encoding is injective).
- `event` — the event fields the poller reads and `render_event_template`.
- `tick` — the events URL, the sync cursor (with its round-trip law), the
  outbound topic, the JSON message framing and `plan_tick`, which decides what a
  tick publishes and acknowledges (nothing on the first tick; cancelled events
  skipped when configured).
- `clock` — the current time as RFC 3339 UTC text, with a clock before the
  epoch or out of range handed back as a value instead of a panic.
- `classify` — permanent vs. transient Calendar failures.
- `config`, `startup`, `text` — job configuration defaults, process start-up
  decisions and the string primitives the rest is built on.

`app/` is the subprocess around it: broker subscription, credential lookup, the
OAuth client, the HTTP call and publishing.

`app/` also needs the crate `nexo-plugin-google` (the OAuth client), which
`Cargo.toml` leaves out to keep the dependency tree small (it adds about 150
packages on top of `nexo-poller`'s); add it there to build `app/`.
The `--print-manifest` text in `app/main.rs` states the plugin's manifest
fields directly, since the packaging file that normally holds them is not part
of this crate.
