# keystate_core

Canonical domain model, completeness verification and idempotent output for
a read-only tool that pulls the complete configuration state of an IAM
system out of its database as one backend-agnostic JSON document.

The library is written in Verus: every function in `src/` carries a
contract, and the properties the library promises are stated and proved as
proof functions next to the code they are about.

## Layout

- `src/json.rs`: the JSON value carried in every entity's `native` field,
  with its mathematical view.
- `src/model/`: entity kinds, the canonical entities, the volatile section
  and the extraction envelope.
- `src/canonical/`: the canonical writer (sorted keys, compact, byte-stable)
  and why its bytes do not depend on the order of object members,
  the config-portion bytes and the SHA-256 content hash.
- `src/verify/`: field manifests and their consistency checks, path
  resolution, the verification engine and its report, and the laws of
  verification (`laws.rs`).
- `src/port/`: the completeness-verifier and output-sink traits adapters
  implement.
- `src/testing/`: the contract checks every adapter runs, with sample data.
- `src/version.rs`, `src/version_order.rs`, `src/error.rs`, `src/text.rs`,
  `src/keyed.rs`: versions and their order, errors, text helpers and keyed
  sequences.
- `app/`: the async extraction trait, serde forms of the library's types,
  conversion to and from `serde_json::Value`, and the serde-generic
  roundtrip check.
- `tests/`: scenario tests of the library.
