use tensor_vm::api::P2pMessage;
use tensor_vm::node::message_ingest::{
    ingest_network_messages, job_apply_outcome, network_ingest_order, NetworkEventContext,
};
use tensor_vm::node::payload_processor::{
    NetworkBlockPayloadApply, NetworkPayloadApply, NetworkPayloadError, NetworkPayloadProcessor, PayloadBytes,
};
use tensor_vm::node::pending_payloads::PendingNetworkPayloads;
use tensor_vm::node::runtime_state::NetworkEventIngest;

fn h(b: u8) -> [u8; 32] {
    [b; 32]
}

/// Applies a payload once the payload with the previous byte was applied.
struct ChainLike {
    applied: Vec<u8>,
    calls: Vec<[u8; 32]>,
}

impl NetworkPayloadProcessor for ChainLike {
    // The spec functions the library's contracts speak of; the verifier
    // reads them, a running test never calls them.
    fn job_answer(&self, _: [u8; 32], _: PayloadBytes) -> NetworkPayloadApply {
        unreachable!()
    }
    fn after_job(&self, _: [u8; 32], _: PayloadBytes) -> Self {
        unreachable!()
    }
    fn block_answer(&self, _: u64, _: [u8; 32], _: PayloadBytes) -> NetworkBlockPayloadApply {
        unreachable!()
    }
    fn after_block(&self, _: u64, _: [u8; 32], _: PayloadBytes) -> Self {
        unreachable!()
    }
    fn block_vote_answer(&self, _: [u8; 32], _: [u8; 32], _: PayloadBytes) -> NetworkPayloadApply {
        unreachable!()
    }
    fn after_block_vote(&self, _: [u8; 32], _: [u8; 32], _: PayloadBytes) -> Self {
        unreachable!()
    }
    fn receipt_answer(&self, _: [u8; 32], _: PayloadBytes) -> NetworkPayloadApply {
        unreachable!()
    }
    fn after_receipt(&self, _: [u8; 32], _: PayloadBytes) -> Self {
        unreachable!()
    }
    fn attestation_answer(&self, _: [u8; 32], _: PayloadBytes) -> NetworkPayloadApply {
        unreachable!()
    }
    fn after_attestation(&self, _: [u8; 32], _: PayloadBytes) -> Self {
        unreachable!()
    }
    fn apply_job(&mut self, job_id: [u8; 32], payload: &[u8]) -> NetworkPayloadApply {
        self.calls.push(job_id);
        if payload.is_empty() {
            return NetworkPayloadApply::Invalid;
        }
        if payload[0] == 0 || self.applied.contains(&(payload[0] - 1)) {
            self.applied.push(payload[0]);
            NetworkPayloadApply::Applied
        } else {
            NetworkPayloadApply::Pending
        }
    }
    fn apply_block(&mut self, _height: u64, _hash: [u8; 32], _payload: &[u8]) -> NetworkBlockPayloadApply {
        NetworkBlockPayloadApply::Applied { appended: 2 }
    }
    fn apply_block_vote(&mut self, _b: [u8; 32], _v: [u8; 32], _payload: &[u8]) -> NetworkPayloadApply {
        NetworkPayloadApply::Pending
    }
    fn apply_receipt(&mut self, _id: [u8; 32], _payload: &[u8]) -> NetworkPayloadApply {
        NetworkPayloadApply::Invalid
    }
    fn apply_attestation(&mut self, _id: [u8; 32], _payload: &[u8]) -> NetworkPayloadApply {
        NetworkPayloadApply::Pending
    }
}

#[test]
fn pending_queue_keeps_first_payload_per_key() {
    let mut pending = PendingNetworkPayloads::default();
    assert!(pending.is_empty());
    pending.queue_job(h(1), vec![1]);
    pending.queue_job(h(1), vec![9]);
    pending.queue_job(h(0), vec![0]);
    pending.queue_block(5, h(2), vec![5]);
    pending.queue_block(5, h(2), vec![6]);
    pending.queue_block(4, h(2), vec![4]);
    pending.queue_block_vote(h(3), h(4), vec![]);
    pending.queue_receipt(h(5), vec![]);
    pending.queue_attestation(h(6), vec![]);
    assert_eq!(pending.pending_job_count(), 2);
    assert_eq!(pending.pending_block_count(), 2);
    assert_eq!(pending.pending_block_vote_count(), 1);
    assert_eq!(pending.pending_receipt_count(), 1);
    assert_eq!(pending.pending_attestation_count(), 1);
    assert!(!pending.is_empty());
}

#[test]
fn retry_applies_in_key_order_until_no_progress() {
    let mut pending = PendingNetworkPayloads::default();
    // Job h(1) depends on job h(2), which sorts after it: a second pass applies it.
    pending.queue_job(h(1), vec![1]);
    pending.queue_job(h(2), vec![0]);
    pending.queue_job(h(3), vec![7]);
    pending.queue_job(h(4), vec![]);
    pending.queue_block(3, h(9), vec![1]);
    pending.queue_block_vote(h(1), h(2), vec![1]);
    pending.queue_receipt(h(8), vec![1]);
    pending.queue_attestation(h(7), vec![1]);
    let mut chain = ChainLike { applied: Vec::new(), calls: Vec::new() };
    let ingested = pending.retry_with(&mut chain);
    assert_eq!(ingested.job_payloads_applied, 2);
    assert_eq!(ingested.block_payloads_applied, 1);
    assert_eq!(ingested.applied_blocks, 2);
    assert_eq!(ingested.invalid_events, 2);
    assert_eq!(ingested.block_votes_applied, 0);
    assert_eq!(ingested.events, 0);
    assert_eq!(chain.calls[..4], [h(1), h(2), h(3), h(4)]);
    assert_eq!(chain.calls[4..], [h(1), h(3), h(3)]);
    assert_eq!(pending.pending_job_count(), 1);
    assert_eq!(pending.pending_block_count(), 0);
    assert_eq!(pending.pending_block_vote_count(), 1);
    assert_eq!(pending.pending_receipt_count(), 0);
    assert_eq!(pending.pending_attestation_count(), 1);
}

#[test]
fn ingest_order_puts_block_payloads_then_announcements_last() {
    let messages = vec![
        P2pMessage::NewBlock(h(1)),
        P2pMessage::NewJob(h(2)),
        P2pMessage::NewBlockPayload { height: 1, block_hash: h(3), payload: vec![1] },
        P2pMessage::NewBlockHeader { height: 2, block_hash: h(4) },
        P2pMessage::NewReceipt(h(5)),
        P2pMessage::NewBlockPayload { height: 2, block_hash: h(6), payload: vec![2] },
    ];
    let ordered = network_ingest_order(messages);
    assert_eq!(
        ordered,
        vec![
            P2pMessage::NewJob(h(2)),
            P2pMessage::NewReceipt(h(5)),
            P2pMessage::NewBlockPayload { height: 1, block_hash: h(3), payload: vec![1] },
            P2pMessage::NewBlockPayload { height: 2, block_hash: h(6), payload: vec![2] },
            P2pMessage::NewBlock(h(1)),
            P2pMessage::NewBlockHeader { height: 2, block_hash: h(4) },
        ]
    );
}

struct Node {
    blocks: Vec<u64>,
}

impl NetworkEventContext for Node {
    // The spec functions the library's contracts speak of; the verifier
    // reads them, a running test never calls them.
    fn job_payload_accepted(&self, _: [u8; 32], _: PayloadBytes) -> bool {
        unreachable!()
    }
    fn after_job_payload(&self, _: [u8; 32], _: PayloadBytes) -> Self {
        unreachable!()
    }
    fn block_payload_answer(&self, _: u64, _: [u8; 32], _: PayloadBytes) -> NetworkBlockPayloadApply {
        unreachable!()
    }
    fn after_block_payload(&self, _: u64, _: [u8; 32], _: PayloadBytes) -> Self {
        unreachable!()
    }
    fn block_vote_payload_answer(&self, _: [u8; 32], _: [u8; 32], _: PayloadBytes) -> NetworkPayloadApply {
        unreachable!()
    }
    fn after_block_vote_payload(&self, _: [u8; 32], _: [u8; 32], _: PayloadBytes) -> Self {
        unreachable!()
    }
    fn receipt_payload_answer(&self, _: [u8; 32], _: PayloadBytes) -> NetworkPayloadApply {
        unreachable!()
    }
    fn after_receipt_payload(&self, _: [u8; 32], _: PayloadBytes) -> Self {
        unreachable!()
    }
    fn attestation_payload_answer(&self, _: [u8; 32], _: PayloadBytes) -> NetworkPayloadApply {
        unreachable!()
    }
    fn after_attestation_payload(&self, _: [u8; 32], _: PayloadBytes) -> Self {
        unreachable!()
    }
    fn apply_job_payload(&mut self, _job_id: [u8; 32], payload: &[u8]) -> Result<(), NetworkPayloadError> {
        if payload.is_empty() { Err(NetworkPayloadError::Invalid) } else { Ok(()) }
    }
    fn apply_block_payload(&mut self, height: u64, _hash: [u8; 32], _payload: &[u8]) -> NetworkBlockPayloadApply {
        if height == self.blocks.len() as u64 + 1 {
            self.blocks.push(height);
            NetworkBlockPayloadApply::Applied { appended: 1 }
        } else {
            NetworkBlockPayloadApply::Pending
        }
    }
    fn apply_block_vote_payload(&mut self, _b: [u8; 32], _v: [u8; 32], _payload: &[u8]) -> NetworkPayloadApply {
        NetworkPayloadApply::Applied
    }
    fn apply_receipt_payload(&mut self, _id: [u8; 32], _payload: &[u8]) -> NetworkPayloadApply {
        NetworkPayloadApply::Pending
    }
    fn apply_attestation_payload(&mut self, _id: [u8; 32], _payload: &[u8]) -> NetworkPayloadApply {
        NetworkPayloadApply::Invalid
    }
}

#[test]
fn ingest_counts_messages_and_retries_pending_blocks() {
    let mut node = Node { blocks: Vec::new() };
    let mut pending = PendingNetworkPayloads::default();
    let messages = vec![
        P2pMessage::NewBlockPayload { height: 2, block_hash: h(2), payload: vec![2] },
        P2pMessage::NewBlockPayload { height: 1, block_hash: h(1), payload: vec![1] },
        P2pMessage::NewBlock([0; 32]),
        P2pMessage::NewJobPayload { job_id: h(3), payload: vec![] },
        P2pMessage::NewReceiptPayload { receipt_id: h(4), payload: vec![4] },
        P2pMessage::NewAttestationPayload { attestation_id: h(5), payload: vec![5] },
        P2pMessage::NewBlockVotePayload { block_hash: h(1), validator: h(6), payload: vec![6] },
        P2pMessage::PeerInfo { address: h(7) },
        P2pMessage::RequestProgram(h(8)),
    ];
    let ingested: NetworkEventIngest =
        ingest_network_messages(&mut node, messages, false, &mut pending).unwrap();
    assert_eq!(ingested.events, 9);
    assert_eq!(ingested.block_announcements, 4);
    assert_eq!(ingested.block_payloads, 2);
    assert_eq!(ingested.block_payloads_applied, 2);
    assert_eq!(ingested.applied_blocks, 2);
    assert_eq!(ingested.block_votes, 1);
    assert_eq!(ingested.block_votes_applied, 1);
    assert_eq!(ingested.jobs, 1);
    assert_eq!(ingested.job_payloads, 1);
    assert_eq!(ingested.job_payloads_applied, 0);
    assert_eq!(ingested.receipts, 1);
    assert_eq!(ingested.attestations, 1);
    assert_eq!(ingested.peers, 1);
    // zero block hash, invalid job, invalid attestation, program request
    assert_eq!(ingested.invalid_events, 4);
    assert_eq!(node.blocks, vec![1, 2]);
    assert_eq!(pending.pending_receipt_count(), 1);
    assert_eq!(pending.pending_block_count(), 0);
}

#[test]
fn accumulate_adds_and_saturates() {
    let mut a = NetworkEventIngest::default();
    a.events = usize::MAX - 1;
    let mut b = NetworkEventIngest::default();
    b.events = 5;
    b.peers = 3;
    a.accumulate(b);
    assert_eq!(a.events, usize::MAX);
    assert_eq!(a.peers, 3);
}

#[test]
fn job_outcomes_are_applied_or_invalid() {
    assert_eq!(job_apply_outcome(Ok(())), NetworkPayloadApply::Applied);
    assert_eq!(job_apply_outcome(Err(NetworkPayloadError::Invalid)), NetworkPayloadApply::Invalid);
}

#[test]
fn announcements_alone_never_reach_the_node() {
    let mut node = Node { blocks: Vec::new() };
    let mut pending = PendingNetworkPayloads::default();
    let messages = vec![
        P2pMessage::NewBlock([0u8; 32]),
        P2pMessage::NewBlockHeader { height: 0, block_hash: [1u8; 32] },
        P2pMessage::PeerInfo { address: [2u8; 32] },
        P2pMessage::RequestProgram([3u8; 32]),
    ];
    let r = ingest_network_messages(&mut node, messages, false, &mut pending).unwrap();
    assert_eq!(r.events, 4);
    assert_eq!(r.block_announcements, 2);
    assert_eq!(r.block_headers, 1);
    assert_eq!(r.peers, 1);
    assert_eq!(r.invalid_events, 3);
    assert_eq!(r.block_payloads, 0);
    assert_eq!(r.jobs, 0);
    assert_eq!(r.applied_blocks, 0);
    assert_eq!(r.block_payloads_applied + r.block_votes_applied + r.job_payloads_applied, 0);
    assert_eq!(r.receipt_payloads_applied + r.attestation_payloads_applied, 0);
    assert!(pending.is_empty());
    assert!(node.blocks.is_empty());
}
