# dht

The protocol logic of a Mainline DHT node (BEP_0005, BEP_0044 and signed
peer announcements), written in Verus and verified.

- `src/` is the verified library:
  - `common`: ids, IPv4 addresses and nodes;
  - `routing_table`: the nodes a node knows and the lookup of the `k` nodes
    closest to a target by XOR distance;
  - `signed_announce`, `mutable`: signed peer announcements and mutable or
    immutable items, their encodings and their checks;
  - `server`: how requests are answered, with the stores of values it keeps,
    and the laws relating a store to a later read;
  - `node_core`: which peers support signed peers, which routing table a
    request concerns, the bookkeeping of running queries, the cache of
    finished ones, and the decisions of a get or put request, of a tick, of
    populating the routing table and of the periodic maintenance;
  - `response`: iterating on the responses of a query, and store outcomes;
  - `testnet`: the plan for setting up a local testnet;
  - `crypto`, `store`, `encoding`: the Ed25519, SHA-1, clock and LRU calls
    the library makes, and small byte encodings.
- `app/` holds what is not verified: the user-implemented request filter and
  custom request handler traits, the server settings carrying them, the
  serialisable and displayable forms of the library's types, and the driver
  that builds a testnet from real nodes.
- `tests/` runs the library on concrete values.
