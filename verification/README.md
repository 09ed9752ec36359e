# ankaios_sdk

A Rust SDK for Eclipse Ankaios whose core is verified with Verus: workloads
and their builder, their mapping (manifest) form and protocol form, workload
states, manifests, the complete state of the cluster, requests and responses,
and the decisions that the connections to the agent (control interface) and
to the server (gRPC command interface) take.

Layout:

- `src/` — the verified library. Each public function states in its contract
  what it returns or changes; `laws.rs` and `workload_laws.rs` hold the
  properties that relate several operations (names and codes, masks, reading
  back what was written, the state machines of the connections). `texts.rs`
  writes the protocol messages as text; `yaml.rs` reads YAML text through
  `serde_yaml`.
- `tests/` — tests of the library on concrete values.
- `app/` — what Verus does not see: writing `serde_yaml` documents, files, the
  asynchronous client with its pipes and tasks, the gRPC connection, and an
  error type with the standard error traits. The protobuf encoding of the
  messages plugs in through `codec::MessageCodec` and
  `command_interface::ServerTransport`.
