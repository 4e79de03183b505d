# armature-websocket

WebSocket servers and clients: connections, rooms, broadcasting, heartbeats and
idle timeouts. What the library decides is proved with Verus.

- `src/` is the verified library. It does no I/O. A server's connection is a
  state machine (`Session`), and so are the writers and the client's reader:
  each is told what happened and says what to do next. Rooms and connections
  take exclusive references; sharing them is left to the caller.
- `app/` runs the library: sockets, tasks, locks, the handler trait, JSON and
  logging.
- `tests/` runs the library on concrete values.

The laws that relate several operations are proof functions in
`broadcast_laws.rs`, `room_laws.rs` and `session_laws.rs`, and at the end of
`client.rs`, `connection.rs`, `message.rs` and `writer.rs`.

What the library calls outside itself stands behind small trusted functions,
each next to the logic that needs it: byte buffers (`payload.rs`), channels
(`channel.rs`), concurrent maps (`tables.rs`), URL parsing (`client.rs`),
random names (`session.rs`), socket limits (`limits.rs`), durations (`time.rs`)
and UTF-8 decoding (`message.rs`).
