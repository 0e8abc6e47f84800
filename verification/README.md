# pg_gateway

PostgreSQL wire-protocol building blocks, a pass-through gateway with session
pooling, and a transaction-pooling bouncer.  The library in `src/` holds the
byte formats, parsers, decisions and pool bookkeeping, each with a contract
that Verus proves; `app/` holds the sockets, the async loops, the YAML/TOML
and command-line front ends, and the shared counters.

## Layout

- `src/wire.rs`, `src/text.rs`, `src/keyed.rs`, `src/strmap.rs` — big-endian
  integers, decimal text, UTF-8 and trimming helpers, and a string-keyed map
  whose view is a `Map`.
- `src/protocol/` — tagged frames, startup packets and their codes, the relay
  decisions, the client and server stream halves.
- `src/gateway/` — configuration and its lookups, the startup packet the pool
  sends and how one is read, client admission and the authentication relay,
  and the per-`(user, database)` idle pools.
- `src/bouncer/` — settings, messages, startup messages, the server-connection
  pool state, transaction tracking, the admin console, backend
  authentication (cleartext, MD5, SCRAM-SHA-256) and the digests it uses.
- `app/` — one binary: the gateway, or the pooler when started under a name
  that contains `bouncer`.

`tests/` holds the executable tests of the library.
