# aeon

Verified core of the Aeon air-object information layer, written in Verus.

* `src/` — the library, checked by Verus. Every executable function states
  what it does in an `ensures` contract (with a `requires` where it has a
  precondition); properties that span several calls are stated as public
  `law_*` proof functions next to the code they describe.
  * `contracts/` — versioned contract types, identifiers, the
    prohibited-concept scanner and the JSON tree it reads.
  * `runtime/` — configuration validation, the lifecycle supervisor and the
    health snapshot builder.
  * `relay/` — allowlist, destination policy, signing, anti-replay cache and
    the outbound gateway.
  * `persistence/` — migrations and the hash-chained event log.
  * `correction/` — the model registry and the correction runtime's rules.
  * `normalization.rs`, `tracking.rs`, `adapters.rs`, `simulation.rs` — the
    decisions of normalization, the track engine, the sensor adapters and
    deterministic replay.
  * `digest.rs`, `text.rs`, `keyed.rs`, `ordering.rs` — byte framing,
    SHA-256 and hex, character helpers, string-keyed tables and the orders
    that make digests independent of listing order.
* `app/` — the operator API server and the replay tool: HTTP, SQLite, files,
  serde and the floating-point geometry, calling the library for every
  decision.
* `tests/` — executable tests of the library.
