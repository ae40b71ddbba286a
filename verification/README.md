# libtcp

A small user-space TCP/IPv4 stack for a TUN device, verified with Verus.

- `src/packet.rs`: IPv4 and TCP headers as plain values; decoding a packet
  and building a segment through `etherparse`, with the layout that both
  follow and the law that a built segment reads back with its own fields.
- `src/tcp.rs`: one server-side TCP connection as a state machine
  (`Listening`, `SynRcvd`, `Estab`, `LastAck`, `Closed`), modelled by spec
  functions; each call returns what to send and what to hand on.
- `src/engine.rs`: the engine: sorts packets, answers echo requests (with
  correct checksums), and keeps the
  connection table (each connection under its peer, none closed).
- `src/responder.rs`: a stateless responder that answers each packet on its
  own (run by `app/` when given the argument `respond`).
- `app/`: the program around the library: the TUN device, the reader and
  writer futures, the listener and stream channels, and a demo server.
