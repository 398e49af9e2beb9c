# tarpc (verified core)

The logic of an RPC framework, written in Verus and proved against its contracts:

- `protocol`: the connection protocol's packet framing (an 8-byte big-endian id, an 8-byte
  big-endian length, the payload), the nonblocking writer and reader state machines, the client
  connection and dispatcher state, the blocking client's table of waiting calls, and the blocking
  server's accept and connection decisions.
- `server`: the server channel's request lifecycle (in-flight requests, cancellations, deadline
  expiry, throttling, per-key channel limits, response delivery stages).
- `client`: client-side in-flight requests and load-balancing stubs.
- `context`, `trace`: request contexts, trace contexts and their OpenTelemetry forms.
- `serde_transport`, `util`, `error_kind`: wire encodings of envelopes, error kinds, trace ids
  and deadlines, and socket names.
- `time`: millisecond timer arithmetic, and the slot storage and intrusive stacks of a queue of
  delayed items.

`app/` holds what cannot be verified: sockets, threads, async runtimes, serde derives, the
asynchronous traits that users implement (request hooks, client stubs), and the loops that
perform the actions the library decides (the blocking server and client, the `mio` event-loop
client, the server channel, throttling, and response delivery).
