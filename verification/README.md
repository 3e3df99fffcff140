# rmr_core

The core of a Klipper API server, written in Verus: the rules are proved
against their contracts, the I/O around them is plain Rust.

- `src/` — the verified library:
  - `config/parser.rs`: reading `[server]`, `[klippy]` and `[database]`
    settings out of a configuration file's text or a parsed INI document,
    with defaults and home-directory paths;
  - `klippy/codec.rs`: newline framing of the Klippy socket stream, with
    each decoded line checked to be JSON text;
  - `klippy/client.rs`: the connection state machine (request ids, awaited
    replies, status notifications) and the reconnect backoff;
  - `json.rs`: the JSON tree the connection reads and writes;
  - `web/middleware.rs`: the request authorization rule: trusted networks
    (held as address octets and a prefix), forwarded client addresses and
    API keys;
  - `files/analyzer.rs`: the G-code metadata scan: layer markers, the
    slicer's print time comment (seconds or `1h 2m 3s`) and move heights;
  - `ai_monitor.rs`: camera frame comparison;
  - `text.rs`: character-level helpers (trim, split, integer parsing).
- `app/` — the daemon: sockets, channels, HTTP and WebSocket handlers,
  database access, file I/O and everything that computes with floating
  point.
- `tests/` — tests of the library.
