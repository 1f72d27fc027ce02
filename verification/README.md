# oaat — Open Advanced Audio Transport

A controller streams PCM/DSD/FLAC audio to one or more endpoints over UDP,
negotiates formats and playback over a length-prefixed JSON control channel
on TCP, and keeps endpoint clocks aligned with a four-timestamp exchange.

## Layout

- `src/` — the library, written in Verus and verified:
  - wire formats: `format`, `bytes_be`, `wire` (audio and clock-sync
    packets), `codec` (control framing), `capability` (DNS-SD capability
    strings), `message`;
  - protocol decisions: `session`, `endpoint_session`, `endpoint_transport`,
    `negotiation` (accept, counter or reject a proposed format; gapless
    ready or reformat), `protocol` (datagrams, packet schedule, clock
    responder, event and response routing, controller handshake),
    `conformance`;
  - controller state: `keyed` (lists read as finite maps), `zone`
    (membership, volume, audio recipients, sequencing), `fec` (XOR parity
    groups), `manager`;
  - endpoint side: `sync` (PTS drift, clock domains), `output` (sample
    layouts, volume, drift correction), `devices`, `mixer`, `config`,
    `web_ui`, `c_api`;
  - `wav` (reading WAV headers) and `tls` (certificate fingerprints).
- `tests/` — integration tests of the library.
- `app/` — the `oaat` command: sockets, processes, TLS setup, mDNS, the
  HTTP status page, the C interface and the parts that compute in floating
  point (clock filtering, sine generation, software volume on the ALSA
  path, FLAC decoding).
