//! Testnet deployment: the node and service evidence a public run
//! collects, its signatures, and the preflight manifest a deployment is
//! planned from.

pub mod config;
pub mod evidence_messages;
pub mod public_services;
pub mod public_node_evidence;
pub mod public_evidence_publication;
pub mod public_manifest_fields;
pub mod public_preflight_manifest;
pub mod public_operators;
