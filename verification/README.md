# agentbed

The authorization broker of Agentbed, with the Nix host adapter it drives,
as a Verus-verified library plus a thin program around it.

- `src/` — the verified library: the five-stage policy ladder and its quota
  ledger, per-resource safety comparison, token identity, manifests, the
  RFC 8785 canonical operation digest, request dispatch (parse failures,
  authentication, authorization, binding), the serialized transaction engine
  and its WAL, event log and idempotency rules, recovery validation, the
  socket server's per-frame decisions, host facts, and the Nix adapter's
  probe, proposal, protected-path rejection and promotion steps. Each step
  that needs I/O takes what the I/O produced as an argument; each step that
  runs commands states exactly which ones it hands the runner, and none of
  them switches the running system.
- `app/` — the broker binary: command line, signals, the Unix socket and its
  frames, peer credentials, files (WAL, events, tokens, manifests, captures),
  a live command runner, and the serde forms of the wire and storage types.
- `tests/` — tests of the library, run against the compiled crate.

The operations' published JSON Schemas are not part of this crate, so an
operation's arguments are checked by deserializing them into its typed
parameters only; no schema validation is performed, and manifests and
token stores are read as JSON.

Outside crates: `sha2` (digests), `serde_json` (JSON parsing where the
library needs it), and, in the program only, `serde` and `libc`.
