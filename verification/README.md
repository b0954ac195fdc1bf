# logos_engine

The Logos engine serves requests to project stored Logos documents to Rust.
Its decisions are a verified library under `src/`:

- `frame`: the length-prefixed framing of the engine socket (little-endian)
  and of the SEMA storage socket (big-endian), with their round-trip laws.
- `hash`: parsing a content hash from 64 hexadecimal digits.
- `protocol`: the requests, replies and storage messages as plain values.
- `nexus`: how a request is answered through storage, and how a projected
  module and its published event are assembled.
- `sema`: the numbering and the steps of one exchange with SEMA.
- `signal`: the admission counter of the engine's front door.
- `command`, `relay`: the executable's command line and the daemon's socket
  decisions.

`app/` holds the executable: the actors, the sockets and the calls into the
storage, Nomos and projection crates.
