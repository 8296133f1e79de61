# cs2_radar

A radar for CS2 that reads the game's memory through memflow and serves
snapshots to browsers over STOMP on a WebSocket.

- `src/` is the verified library (Verus):
  - `offsets.rs`, `hex.rs`: the offset table, a JSON object of hexadecimal strings.
  - `scan.rs`: one radar snapshot as a state machine that asks for each memory
    read in turn and decides on what comes back.
  - `snapshot.rs`: the snapshot stated directly over a model of memory, and the
    proof that the scan computes it and always finishes.
  - `stomp.rs`: CONNECT/SUBSCRIBE handling and MESSAGE framing.
  - `bytes.rs`, `text.rs`, `verbosity.rs`: little-endian decoding, C strings,
    character search, and the `-v` count to log level.
- `app/main.rs` is the program: arguments, memflow, the read loop, the clock,
  JSON output and the web server.
- `tests/` runs the library on concrete values.
