# core_p2p

The decisions of a peer-to-peer network node, verified with Verus: which nodes are
connected and under which index, when to ping, in which order messages go out, and how
the addresses of nodes spread over the network.

- `src/` is the verified library. It waits for nothing and does no I/O: what would poll
  something hands out what is to be polled, and goes on once it is handed the answer.
- `tests/` runs the library on concrete values.
- `app/` holds the programs: sockets, channels, timers and JSON around the library.

The laws that the library keeps as a whole are the public proof functions whose names
begin with `law_`.
