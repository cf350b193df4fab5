# engram_core

The core of a platform that runs agent sessions in sandboxes: the types that the coordinator,
the host agents and the storage back ends share, the rules that hold for them, and the decisions
that they have in common.

- `src/` is the library. Every item is written in Verus, with its contract, and proved.
  - `types/`: sessions and their states, the per-session operation log, capabilities, harness
    descriptors, image configurations, integration policies, OAuth records, manifests, and the
    smaller records around them.
  - `traits/`: what the implementations of the platform's seams share: guards on metadata
    writes, the resolution of secrets, the gathering of command output and blob frames.
  - `wire/`: the documents in which records are stored and sent; what is written is read back.
  - `document`, `text`, `text_map`, `time`: documents, texts, maps of texts and points in time,
    each with its mathematical model.
  - `error`, `invariants`, `socket`: the errors, the run-time checks, and where sockets lie.
- `app/` is ordinary Rust around the library: asynchronous traits, channels, the lock around the
  operation log, and copies of types that carry serialisation.
- `tests/` runs the library on concrete values.
