# shooter

Game logic of a 2D top-down multiplayer shooter for the web: a tick-based
authoritative server and a browser client that talk over a WebSocket with a
binary protocol.

- `src/` — the library, verified with Verus:
  - `protocol` — the messages (`C2s`, `S2c`, `Input`, `Snapshot`, `PlayerState`);
  - `arena` — how one input moves a player, and the arena's bounds;
  - `server` — connected players, identifiers, ticks and snapshots;
  - `client` — held controls, input sequence numbers, the assigned identifier
    and the last snapshot.
- `app/` — the programs around it: the axum/tokio server, the postcard
  encoding of the messages, and the browser glue of the wasm client.
- `tests/` — tests of the library.
