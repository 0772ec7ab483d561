# alvr_streamer

Verified core of the ALVR streamer's Linux-side helpers: the pipeline
profiler, the dashboard's Hard Config tab model, session solidification,
default audio device routing, and client discovery.

Layout:

- `src/` — the library, written in Verus and proved:
  - `stage.rs` — profiler stages and levels, level parsing;
  - `agg.rs` — per-stage duration window and its percentiles;
  - `profiler.rs` — profiler state: span ring, recording, summaries;
  - `span.rs` — RAII spans, the C begin/end table, clock conversion, settings;
  - `session.rs`, `hard_config.rs` — session model, solidify, presets and the
    Hard Config tab;
  - `audio.rs` — device-name matching, restore file, PipeWire buffer layout;
  - `discovery.rs` — discovery packets, address choice, client table;
  - `connect.rs` — the control connection's retry policy, as a step function
    that the caller drives with the outcome of each attempt;
  - `text.rs` — string helpers and their specifications.
- `tests/` — tests of the library.
- `app/` — the runtime around it: environment, files, processes, sockets,
  PipeWire streams, the egui tab, global state and the C interface.

The client table (`discovery::Clients`) holds discovered clients as a vector
of (hostname, address) pairs under the invariant that no hostname occurs
twice, and its view is the map from hostname to address. A `HashMap` keyed by
`String` is what a table of this kind usually is, but Verus proves nothing of
such a map's contents after an insert, while the vector gives the insert rule
(an IPv4 address is never replaced by an IPv6 one) an exact, proved contract.
The table is small (one entry per client on the network), so the linear
lookup costs nothing that matters.
