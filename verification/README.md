# nodedb_control

The decisions of a database server's control plane, written in Rust and proved with Verus: who a
request comes from and what it is answered, how a replica's handshake ends, what a session's
parameters are, how statements that change data are planned, what a graph traversal sees inside an
open transaction, and which response a plan has.

- `src/` is the library. Every executable function in it carries a contract that Verus checks.
  Calls into other crates stand behind small functions marked `external_body`; the comment above
  each says what is taken for granted.
  - `text`, `text_map`, `lists`: texts, maps keyed by texts, lists.
  - `graph`: traversal and subgraphs of a durable graph merged with a transaction's own writes.
  - `session`: `SET` and `SHOW`, and the parameters of sessions.
  - `sync`: the handshake of replicas.
  - `http`: authentication, and the two ways of running a statement over HTTP.
  - `plan`, `pgwire`: what kind of result a plan has, and the responses of the PostgreSQL protocol.
  - `sql`: values, conditions, and the plans of inserts, updates and deletions.
  - In each, `laws` holds what the module promises as a whole, as proof functions.
- Work that takes time or touches the outside (a key registry, a planner, replication) is never done
  in `src/`. A function returns a step that says what is to be done, and what came of it goes into
  the next function. The contracts speak of the outcome for every answer that the outside may give.
- `app/` does that work: it connects the library to axum, pgwire, sqlparser and tracing.
- `tests/` runs the library, with the real crates behind it.
