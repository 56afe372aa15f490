//! Network payload handling: the retry queue for payloads that arrived
//! before what they depend on, and the ingestion of gossip messages.

pub mod keys;
pub mod runtime_state;
pub mod payload_processor;
pub mod payload_application;
pub mod pending_payloads;
pub mod message_ingest;
