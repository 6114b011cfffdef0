# dactor

The logic of an actor framework — interceptors, circuit breaking,
supervision, mailboxes and priority queues, metrics, persistence, the
protobuf wire format of system messages and envelopes, batching, routing and
membership — written in Verus, with every function's behaviour stated in its
contract and proved.

Layout:

- `src/` — the verified library. Each module states its data as plain values
  (sequences, maps, integers) and its operations over them. Laws that relate
  several operations are public proof functions named `law_*`.
- `tests/` — tests of the library on concrete values.
- `app/` — the runtime glue that cannot be verified: asynchronous traits and
  drains over Tokio channels, timers, logging, JSON serialization and
  metrics rates in floating point. It calls the library for every decision.
