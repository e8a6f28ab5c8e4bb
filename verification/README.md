# rusty_procedure_call

RPC interfaces generated from an `impl` block by the `rpc` attribute: a
serve function for the type, a `<Type>Rpc` client with one async method per
public `&self`/`&mut self` method, and a request enum with one variant per
such method. Requests and responses travel as postcard-encoded payloads, each
preceded by its length as eight big-endian bytes.

Layout:

- `src/` — the verified library:
  - `model.rs`: the methods of the annotated block as plain values, and the
    selection of those that are exported;
  - `plan.rs`: the names and, per exported method, the shape of the generated
    request variant, client method and server arm;
  - `expand.rs`: the attribute's argument, the choice of expansion, and the
    fields that the persistent mode adds to a struct;
  - `frame.rs`: the length-prefixed framing, with its round-trip laws;
  - `channels.rs`: the per-client response channels of the persistent server;
  - `server.rs`: the connection state machine of the persistent message server;
  - `error.rs`: the error type; `node.rs`: the example program's node.
- `app/` — the token handling with `syn`/`quote`, the error type with its
  `Display`, and the example program.
- `tests/` — tests of the library, including end-to-end calls whose requests
  and responses travel through in-memory buffers.
