# tensor_vm

A node library for TensorVM, a chain whose blocks pay for verifiable tensor
work, written in Verus. The functions under `src/` carry contracts that
Verus proves, except for a few small trusted wrappers around outside
crates and std, whose contracts are stated but not proved.

- `src/` — the verified library: hashing and Merkle commitments, field
  tensors and the tensor VM, the p2p wire format and peer book, the
  transaction pool, the network payload retry queue, job and validator
  scheduling, node profiles, the RPC gateway (HTTP parsing, authorisation
  and rate limits, explorer commands), the role services' reports, the
  validator role's decision step, and the
  public testnet's evidence, manifests and operator matching.
- `tests/` — ordinary Rust tests that run the library with its outside
  crates linked.
- `app/` — the `tvmd` command line: the peer book on disk, a blocking HTTP
  server around the gateway, and the preflight manifest check.

Calls into outside crates (`sha2`, `libp2p`, `serde_json`) and a few parts
of std sit behind small trusted wrappers whose contracts say what the
outside code is relied on for. The traits that a node implements for the
library (`NetworkPayloadProcessor`, `NetworkEventContext`, `RpcHandler`)
name each answer with a spec function; their implementations must meet
those contracts.
