# hls_inspect

A verified library for inspecting HTTP Live Streaming presentations: validating playlists
against RFC 8216bis, decoding the ISO-BMFF boxes and PlayReady objects found in media and
initialisation segments, and planning the timing and live-edge measurements that a player
makes.

The library (`src/`) is written in Verus. Each public function states what it returns in its
`ensures`, over spec functions on plain values, and Verus proves the code against it.

- `validator/`: the attribute-list grammar of HLS tags, URL resolution and variable
  substitution, the findings model and every rule that needs no network, Interstitials,
  Low-Latency HLS, SCTE-35 ad breaks, ISO 8601 date-times, and the plan of which media
  playlists a stream leads to. The rules read playlists as plain facts; reading a whole
  playlist into that model (with its floating-point durations) is done in `app/`.
- `mp4_parsing/`, `bytes.rs`, `bits.rs`: box framing and the decoders of individual boxes.
- `mp4_probe.rs`: the best-effort scan of media segments, and the probe of init segments,
  whose box headers are read with mp4-atom.
- `playready/`: PlayReady objects and their WRM headers, read with quick_xml.
- `query_codec.rs`, `response.rs`, `network.rs`, `live.rs`, `timing.rs`: request contexts,
  responses, live-edge bookkeeping and the planning of timing measurements.

Calls into outside crates (`url`, `percent-encoding`, `quick-xml`, `mp4-atom`) and into
parts of std that vstd does not specify go through small trusted wrappers. Big-endian bit
reading, which the original did with `bitter`, is a few lines of spec and is written and
proved here. Each wrapper's doc comment
says what its contract claims of the call.

`app/` is ordinary Rust around the library: fetching over `web_sys`, and the parts of the
model that are floating point (segment durations, timestamps, drift tolerances).
