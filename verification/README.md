# ergot

A small network stack for embedded and desktop systems, written in Verus: the
library under `src/` is executable Rust whose behaviour is stated in contracts
and proved.

- `wire_frames`, `varint`, `wire_v0`: the byte form of headers, errors and frames,
  and that decoding gives back what was encoded.
- `socket`: sockets that keep received frames in a bounded byte queue.
- `net_stack`: which socket or which interface a message goes to.
- `interface_manager`: ports of point-to-point links, leases of network and node
  numbers, the edge and router profiles with their frame processors, and CAN FD.
  `profiles/router_model` says what each operation of a router does,
  `profiles/router_promises` what can be relied on, and `profiles/state_laws` when
  interfaces change their state.
- `logging`: a sink for defmt frames. `well_known`: the well-known endpoints and
  topics. `conformance`: a profile that expects certain sends.
- `clock`: what the machine decides: time, random tokens, the signal to stop.

`app/` is ordinary Rust around the library: serialised forms of its types, a stack
that tasks share, and the global defmt sink. `tests/` holds the tests.
