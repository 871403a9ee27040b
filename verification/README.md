# csp

A small CubeSat Space Protocol (CSP) node, verified with Verus.

- `src/id.rs` — the packet identifier and its 48-bit wire header, with the
  proofs that encoding and decoding undo each other.
- `src/types.rs` — packets (built from received frames, turned back into
  frames) and the error type.
- `src/fifo.rs` — what a run of appends and takes does to a queue.
- `src/qfifo.rs` — the global first-in, first-out packet queue.
- `src/connection.rs`, `src/port.rs` — connections, ports and sockets.
- `src/interfaces.rs` — loopback, drain and UDP interfaces and what handing
  them a packet does.
- `src/config.rs` — reading interface descriptions such as `udp 8080 8090`.
- `src/router.rs` — the connection pool, port binding and the routing step.
- `src/node.rs` — the node (`Csp`) that ties queue, interfaces and router
  together.
- `src/utils.rs` — a sample frame and the rows of a hex dump.
- `app/main.rs` — the program: UDP sockets, receive threads, printing.

The library never performs I/O: sending on a UDP interface yields the frame
to transmit, and the program sends it.
