# nwipc

Direct shared-memory messaging between a WebView renderer and a native peer process, with the
protocol, the data plane and the lifecycle rules verified by Verus.

- `src/domain`, `src/observability`: identities, errors, the session state machine, capability
  negotiation, metrics and diagnostics.
- `src/bootstrap`, `src/protocol.rs`: bootstrap envelopes, their wire format and the HELLO/ACK
  handshake.
- `src/data_plane`: ring records, the single-producer single-consumer ring, fragmentation, flow
  control, the message channel, frame protection and the chunk pool.
- `src/memory`, `src/macos`: region descriptors and mappings, Mach transfers and rendezvous, the
  host and bundle rules, and the protected endpoint transports.
- `src/peer`, `src/renderer.rs`, `src/facade`, `src/adapters`: the public endpoints, the session
  catalog and the WebView adapters.
- `app`: files, pipes, threads, asynchronous plumbing and native calls around the library.

Public proof functions whose names begin with `law_` state what holds across several functions.
Functions marked `#[verifier::external_body]` call outside code; their comments say what is taken
on trust.
