# canbridge

A bridge that forwards CAN frames over TCP, in both directions. One side listens, the other
connects; each is attached to a CAN interface. It runs on Linux, whose CAN and netlink sockets it
uses.

- `src/` is the library: the frames on the wire and their records, the conversion from and to CAN
  frames, the filter for frames that the kernel loops back, the observation of the interface over
  netlink, and the decisions of the forwarding loops and of the connections around them. Every
  function is verified with Verus against its contract.
- `app/` is the program: sockets, threads, clocks and logging around the library.
- `tests/` runs the library on concrete values.

What the library takes from other crates (postcard, socketcan, netlink-packet-core,
netlink-packet-route and libc) stands behind small functions marked `external_body`, whose contracts
are believed and not proved.
