//! TensorVM: a verifiable tensor-work chain node library.
//!
//! The library holds the hashing and Merkle commitments, field tensors and
//! the tensor VM, the p2p wire format and the peer book, the transaction
//! pool and its text format, the network payload retry queue, job and
//! validator scheduling, node profiles, the RPC gateway with its HTTP
//! request parser and explorer commands, the role services' reports, and
//! the public testnet's evidence, manifests and operator matching. Their
//! contracts are proved by Verus; the few wrappers around outside crates
//! and std have contracts that are trusted, not proved.

pub mod error;
pub mod hash;
pub mod text;
pub mod types;
pub mod merkle;
pub mod api;
pub mod p2p;
pub mod wire;
pub mod txpool;
pub mod record_fields;
pub mod node;
pub mod study;
pub mod scheduler;
pub mod profile;
pub mod testnet;
pub mod runtime;
pub mod field;
pub mod tensor;
pub mod vm;
pub mod tensor_server;
pub mod rpc;
pub mod service;
pub mod block_status;
pub mod validator;
pub mod validator_role;
