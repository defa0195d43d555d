# browser_port

The BrowserPort agent relays media from a browser extension to local
outputs (NDI, Spout, Syphon) over one WebSocket port. This crate holds its
logic as a library verified with Verus, and a thin program around it.

## Layout

- `src/` — the verified library
  - `nal.rs`, `h264.rs`, `nal_laws.rs`: H.264 framing (Annex B and AVCC),
    decoder configuration records, payload normalization, and the laws
    that relate the conversions
  - `chunk.rs`: the binary chunk header, audio deinterleaving, BGRX frames
  - `pixel.rs`, `bmp.rs`: NV12/YUY2 to BGRA, output sizing, BMP snapshots
  - `decoder.rs`: the per-player decode decisions (keyframe waits, stalls,
    decoder hand-over, the texture fast path) as a state machine
  - `software.rs`: the OpenH264 decoder behind a small trusted boundary
  - `helper.rs`: the helper's command line, codec filter, chunk queue
  - `relay.rs`: the relay's connections and player routes, in hash maps
  - `stream.rs`: what the relay tracks of each player's stream, and the
    stats report it sends
  - `session.rs`, `outputs.rs`: handshake, message routing (the JSON text
    read with `serde_json` behind named trusted items), output switches and
    the Spout watchdog
  - `backend.rs`, `text.rs`, `wide.rs`: switches, names, UTF-16 text
- `app/` — sockets, processes, timers, JSON and the NDI SDK
- `tests/` — tests of the library on concrete values
