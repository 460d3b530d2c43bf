# packet_server

Packets exchanged between two peers over TCP, encoded with MessagePack, with the encoding,
the framing, the packet queues and the decisions of the server loop and of the handshake
verified with Verus.

- `src/msgpack.rs` — the MessagePack forms used (markers, big-endian data, string headers),
  the calls into `rmp` that write and read them, and the round-trip lemmas.
- `src/encode.rs`, `src/decode.rs` — the `Encode` and `Decode` traits and their impls for
  integers, `bool` (read only), `&str` and `String`.
- `src/packets.rs` — the payloads: `Message`, `ConnectionAcquired`, `Disconnection`, `Custom`.
- `src/lib.rs` — `Packet`, its tag, custom packets, and the packet round-trip law.
- `src/server.rs` — framing (via `byteorder`), `PacketQueue`, the `ServerLoop` and
  `Handshake` state machines, and `Server::send_event`.
- `app/` — the server thread, the TCP stream, the `parking_lot` locks, logging, and the
  error types with `Display` (`thiserror`).
