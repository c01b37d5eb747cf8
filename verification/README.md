# mc_keygen

Vanity key generation for MeshCore: the rules around a search for Ed25519
keys whose public key starts with a chosen hex prefix.

## Layout

- `src/` is the verified library (Verus). It holds the Philox4x64-10 counter
  generator, the deterministic seed schedule (SHA-256 over master seed, worker
  and counter) and the checkpoints that record it, the prefix matcher and
  prefix validation (1 to 64 hex digits; more than 8 are accepted with a
  warning), CPU worker rules, the job and settings models, the queue and
  scheduling decisions, and the request and log models of the HTTP API. Calls
  into `sha2`, `hex` and `rand` stand behind small trusted wrappers whose
  contracts are stated in their doc comments.
- `tests/` holds the tests of the library.
- `app/` is the program around it: the command line, JSON (de)serialisation,
  SQLite storage, the queue manager and the HTTP/WebSocket server.

The Ed25519 key generator and the search threads are not part of this source
tree: the command line validates the prefix and stops, an admitted job is
failed with a note that says so, and a benchmark run is answered with 501.
