# gowe-bridge

The conversions behind the JSON bridge to the `gowe` encoder, verified with
Verus.

JavaScript callers hand the bridge values, schemas and session options as
JSON. In that transport form 64-bit integers are decimal text and binary
payloads are base64 text. The library turns the transport form into the form
the encoder takes, and encoder values back into transport form, with
contracts that state each result and each error exactly.

- `src/transport.rs`: transport values and values, both conversions, and
  the law that a value comes back unchanged from its transport form.
- `src/decimal.rs`: the decimal text of `i64` and `u64`, read and written.
- `src/codec.rs`: base64 through the `base64` crate.
- `src/schema.rs`: schemas and their fields.
- `src/session.rs`: session options laid over the encoder's defaults.
- `src/error.rs`: the bridge's error.
- `app/`: JSON reading and writing with serde, the calls into `gowe`, and
  the N-API bindings for Node.js.
