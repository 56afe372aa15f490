use tensor_vm::api::P2pMessage;
use tensor_vm::p2p::{GossipTopic, RequestResponseProtocol, recommended_network_stack, Libp2pControlPlaneConfig};
use tensor_vm::types::hash_bytes;
use tensor_vm::wire::{
    decode_message, encode_gossipsub_message, encode_message, gossip_topic_for_message, is_request_response_request,
    request_response_protocol_for_message,
};

fn h(label: &[u8]) -> [u8; 32] {
    hash_bytes(b"test", &[label])
}

fn all_messages() -> Vec<P2pMessage> {
    vec![
        P2pMessage::NewBlock(h(b"block")),
        P2pMessage::NewBlockHeader { height: 7, block_hash: h(b"header") },
        P2pMessage::NewBlockPayload { height: 8, block_hash: h(b"payload"), payload: vec![1, 2, 3] },
        P2pMessage::NewBlockVotePayload { block_hash: h(b"vote"), validator: h(b"validator"), payload: vec![] },
        P2pMessage::NewJob(h(b"job")),
        P2pMessage::NewJobPayload { job_id: h(b"job"), payload: vec![9; 40] },
        P2pMessage::NewReceipt(h(b"receipt")),
        P2pMessage::NewReceiptPayload { receipt_id: h(b"receipt"), payload: vec![4] },
        P2pMessage::NewAttestation(h(b"attestation")),
        P2pMessage::NewAttestationPayload { attestation_id: h(b"attestation"), payload: vec![5, 6] },
        P2pMessage::RequestTensorChunk { tensor_id: h(b"tensor"), chunk_index: 3 },
        P2pMessage::TensorChunkResponse { tensor_id: h(b"tensor"), chunk_index: 3, bytes: vec![7; 10] },
        P2pMessage::RequestTensorRow { tensor_id: h(b"tensor"), row_index: 1 },
        P2pMessage::TensorRowResponse { tensor_id: h(b"tensor"), row_index: 1, values: vec![1, u64::MAX, 0] },
        P2pMessage::RequestTensorByCommitmentRoot { commitment_root: h(b"root") },
        P2pMessage::TensorByCommitmentRootResponse { commitment_root: h(b"root"), payload: Some(vec![8]) },
        P2pMessage::TensorByCommitmentRootResponse { commitment_root: h(b"root"), payload: None },
        P2pMessage::RequestProgram(h(b"program")),
        P2pMessage::ProgramResponse { program_hash: h(b"program"), bytes: vec![0; 3] },
        P2pMessage::PeerInfo { address: h(b"peer") },
    ]
}

#[test]
fn wire_messages_round_trip_through_encoding() {
    for message in all_messages() {
        let bytes = encode_message(&message);
        assert_eq!(decode_message(&bytes).unwrap(), message);
    }
}

#[test]
fn wire_encoding_layout_is_tag_then_fields() {
    let header = P2pMessage::NewBlockHeader { height: 258, block_hash: [0xaa; 32] };
    let bytes = encode_message(&header);
    assert_eq!(bytes.len(), 1 + 8 + 32);
    assert_eq!(bytes[0], 12);
    assert_eq!(&bytes[1..9], &258u64.to_le_bytes());
    assert_eq!(&bytes[9..], &[0xaa; 32]);
    let none = encode_message(&P2pMessage::TensorByCommitmentRootResponse { commitment_root: [1; 32], payload: None });
    assert_eq!(none.len(), 34);
    assert_eq!(none[33], 0);
}

#[test]
fn wire_decoder_rejects_truncated_trailing_and_unknown_input() {
    assert!(decode_message(&[]).is_err());
    assert!(decode_message(&[0]).is_err());
    assert!(decode_message(&[20]).is_err());
    for message in all_messages() {
        let bytes = encode_message(&message);
        assert!(decode_message(&bytes[..bytes.len() - 1]).is_err());
        let mut longer = bytes.clone();
        longer.push(0);
        assert!(decode_message(&longer).is_err());
    }
    let mut bad_option = encode_message(&P2pMessage::TensorByCommitmentRootResponse { commitment_root: [1; 32], payload: None });
    bad_option[33] = 2;
    assert!(decode_message(&bad_option).is_err());
}

#[test]
fn wire_decoder_enforces_payload_and_row_limits() {
    let mut oversized = vec![13u8];
    oversized.extend_from_slice(&[0; 32]);
    oversized.extend_from_slice(&(16u64 * 1024 * 1024 + 1).to_le_bytes());
    assert!(decode_message(&oversized).is_err());
    let mut too_many = vec![8u8];
    too_many.extend_from_slice(&[0; 32]);
    too_many.extend_from_slice(&0u64.to_le_bytes());
    too_many.extend_from_slice(&1_000_001u64.to_le_bytes());
    assert!(decode_message(&too_many).is_err());
}

#[test]
fn wire_routes_each_message_to_one_transport() {
    for message in all_messages() {
        let topic = gossip_topic_for_message(&message);
        let protocol = request_response_protocol_for_message(&message);
        assert!(topic.is_some() != protocol.is_some());
        if is_request_response_request(&message) {
            assert!(protocol.is_some());
        }
    }
    assert_eq!(gossip_topic_for_message(&P2pMessage::NewBlock([0; 32])), Some(GossipTopic::Blocks));
    assert_eq!(gossip_topic_for_message(&P2pMessage::PeerInfo { address: [0; 32] }), Some(GossipTopic::Peers));
    assert_eq!(
        request_response_protocol_for_message(&P2pMessage::RequestProgram([0; 32])),
        Some(RequestResponseProtocol::Program)
    );
    assert!(!is_request_response_request(&P2pMessage::ProgramResponse { program_hash: [0; 32], bytes: vec![] }));
}

#[test]
fn protocol_names_and_network_stack_defaults() {
    assert_eq!(GossipTopic::Blocks.as_str(), "/tensorchain/1/blocks");
    assert_eq!(GossipTopic::Peers.as_str(), "/tensorchain/1/peers");
    assert_eq!(RequestResponseProtocol::TensorByRoot.as_str(), "/tensorchain/1/tensor/by-root");
    assert_eq!(RequestResponseProtocol::TensorChunk.as_str(), "/tensorchain/1/tensor/chunk");
    let stack = recommended_network_stack();
    assert!(stack.libp2p_required);
    assert_eq!(stack.rationale.len(), 5);
    let config = Libp2pControlPlaneConfig::default();
    assert_eq!(config.gossipsub_topics.len(), 5);
    assert_eq!(config.request_response_protocols.len(), 4);
    assert_eq!(config.max_gossipsub_transmit_bytes, 1024 * 1024);
    assert_eq!(config.identity_seed, None);
}

#[test]
fn gossipsub_messages_carry_their_topic_and_encoding() {
    let block = P2pMessage::NewBlock(h(b"block"));
    assert_eq!(encode_gossipsub_message(&block), Ok((GossipTopic::Blocks, encode_message(&block))));
    let request = P2pMessage::RequestTensorRow { tensor_id: h(b"tensor"), row_index: 1 };
    assert_eq!(
        encode_gossipsub_message(&request),
        Err(tensor_vm::error::TvmError::InvalidReceipt("message is not a gossipsub announcement"))
    );
}

#[test]
fn decode_refusals_name_their_reason() {
    assert_eq!(decode_message(&[0u8]), Err(tensor_vm::error::TvmError::InvalidReceipt("unknown p2p message tag")));
    assert_eq!(decode_message(&[]), Err(tensor_vm::error::TvmError::InvalidReceipt("short p2p message")));
    let mut bytes = encode_message(&P2pMessage::NewBlock([1u8; 32]));
    bytes.push(0);
    assert_eq!(decode_message(&bytes), Err(tensor_vm::error::TvmError::InvalidReceipt("trailing p2p bytes")));
}
