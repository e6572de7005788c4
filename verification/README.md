# plex_exporter

A Prometheus exporter for Plex Media Server. The library (`src/`) holds the
exporter's logic, verified with Verus; the binary (`app/`) does the network,
clock and metric-registry work around it.

- `src/plex/sessions.rs` — playback session tracking: state changes, accumulated
  play time, the estimate of data sent, pruning of finished sessions, and the
  per-scrape samples (label values, play time, active state, transcode state).
- `src/plex/client.rs` — the client configuration (the server URL, parsed by
  the url crate, and the token), request URLs, and what a response status
  means.
- `src/plex/server.rs` — libraries from `/media/providers`, item counts,
  bandwidth statistics (which updates to count and in what order), label
  values, wall-clock seconds.
- `src/plex/library.rs`, `src/plex/models.rs` — the data the logic reads.
- `src/metrics.rs` — the label sets of every metric.
- `src/text.rs` — decimal formatting of integers.

Times in the library are nanoseconds on a monotonic clock and data amounts are
kilobit-nanoseconds (bitrate in kbit/s times nanoseconds), so that all of the
arithmetic is exact; `app/` converts to seconds and bytes when it sets metrics.

The tracked sessions are a `Vec` of (id, entry) pairs whose ids are kept
unique, viewed as a map from id to entry. Verus's specification of `HashMap`
is of use with integer keys only: with `String` keys it yields no facts about
lookups or inserts, so a `HashMap<String, _>` could not carry the contracts of
`Sessions`. The order of the pairs is the order in which sessions were first
seen, and the contracts state it.
