# fleetos_guest_init

The guest side of FleetOS MicroVM initialisation (PID 1): it attests the guest
to the host agent over VSOCK, receives the workload configuration, brings up
the network and hands over to the workload.

- `src/` is the verified library (Verus). It holds the wire format of the
  VSOCK protocol (`wire`, `codec`, `protocol`), the handshake state machine
  (`handshake`), the quote-generator seam (`attest`), and the plans that the
  I/O layer carries out: the `execve` vectors (`exec_plan`), the network
  bring-up steps (`network_plan`) and the read/write loop decisions
  (`transfer`).
- `app/` is the unverified I/O layer: sockets, ioctls and `execve` through
  `libc`, driving the library's decisions.
- `tests/` runs the library, and checks the wire format byte for byte
  against `postcard`.

Wire format: every message is `[u32 little-endian length][payload]`, the
payload at most 16 MiB. A payload is the message's fields in declaration
order; integers wider than a byte are base-128 varints, strings and vectors
carry a varint length prefix, fixed arrays and bytes travel verbatim.
