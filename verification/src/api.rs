use vstd::prelude::*;
use crate::types::{Address, Hash32};

verus! {

/// A message exchanged between TensorVM peers, by gossip or by
/// request-response.
#[derive(Clone, Debug, Eq, PartialEq)]
pub enum P2pMessage {
    NewBlock(Hash32),
    NewBlockHeader { height: u64, block_hash: Hash32 },
    NewBlockPayload { height: u64, block_hash: Hash32, payload: Vec<u8> },
    NewBlockVotePayload { block_hash: Hash32, validator: Address, payload: Vec<u8> },
    NewJob(Hash32),
    NewJobPayload { job_id: Hash32, payload: Vec<u8> },
    NewReceipt(Hash32),
    NewReceiptPayload { receipt_id: Hash32, payload: Vec<u8> },
    NewAttestation(Hash32),
    NewAttestationPayload { attestation_id: Hash32, payload: Vec<u8> },
    RequestTensorChunk { tensor_id: Hash32, chunk_index: u64 },
    TensorChunkResponse { tensor_id: Hash32, chunk_index: u64, bytes: Vec<u8> },
    RequestTensorRow { tensor_id: Hash32, row_index: u64 },
    TensorRowResponse { tensor_id: Hash32, row_index: u64, values: Vec<u64> },
    RequestTensorByCommitmentRoot { commitment_root: Hash32 },
    TensorByCommitmentRootResponse { commitment_root: Hash32, payload: Option<Vec<u8>> },
    RequestProgram(Hash32),
    ProgramResponse { program_hash: Hash32, bytes: Vec<u8> },
    PeerInfo { address: Address },
}

/// The mathematical value of a `P2pMessage`: digests and byte strings as
/// sequences.
pub enum MessageView {
    NewBlock(Seq<u8>),
    NewBlockHeader { height: u64, block_hash: Seq<u8> },
    NewBlockPayload { height: u64, block_hash: Seq<u8>, payload: Seq<u8> },
    NewBlockVotePayload { block_hash: Seq<u8>, validator: Seq<u8>, payload: Seq<u8> },
    NewJob(Seq<u8>),
    NewJobPayload { job_id: Seq<u8>, payload: Seq<u8> },
    NewReceipt(Seq<u8>),
    NewReceiptPayload { receipt_id: Seq<u8>, payload: Seq<u8> },
    NewAttestation(Seq<u8>),
    NewAttestationPayload { attestation_id: Seq<u8>, payload: Seq<u8> },
    RequestTensorChunk { tensor_id: Seq<u8>, chunk_index: u64 },
    TensorChunkResponse { tensor_id: Seq<u8>, chunk_index: u64, bytes: Seq<u8> },
    RequestTensorRow { tensor_id: Seq<u8>, row_index: u64 },
    TensorRowResponse { tensor_id: Seq<u8>, row_index: u64, values: Seq<u64> },
    RequestTensorByCommitmentRoot { commitment_root: Seq<u8> },
    TensorByCommitmentRootResponse { commitment_root: Seq<u8>, payload: Option<Seq<u8>> },
    RequestProgram(Seq<u8>),
    ProgramResponse { program_hash: Seq<u8>, bytes: Seq<u8> },
    PeerInfo { address: Seq<u8> },
}

impl View for P2pMessage {
    type V = MessageView;

    open spec fn view(&self) -> MessageView {
        match self {
            P2pMessage::NewBlock(h) => MessageView::NewBlock(h@),
            P2pMessage::NewBlockHeader { height, block_hash } => MessageView::NewBlockHeader {
                height: *height,
                block_hash: block_hash@,
            },
            P2pMessage::NewBlockPayload { height, block_hash, payload } => MessageView::NewBlockPayload {
                height: *height,
                block_hash: block_hash@,
                payload: payload@,
            },
            P2pMessage::NewBlockVotePayload { block_hash, validator, payload } => MessageView::NewBlockVotePayload {
                block_hash: block_hash@,
                validator: validator@,
                payload: payload@,
            },
            P2pMessage::NewJob(h) => MessageView::NewJob(h@),
            P2pMessage::NewJobPayload { job_id, payload } => MessageView::NewJobPayload {
                job_id: job_id@,
                payload: payload@,
            },
            P2pMessage::NewReceipt(h) => MessageView::NewReceipt(h@),
            P2pMessage::NewReceiptPayload { receipt_id, payload } => MessageView::NewReceiptPayload {
                receipt_id: receipt_id@,
                payload: payload@,
            },
            P2pMessage::NewAttestation(h) => MessageView::NewAttestation(h@),
            P2pMessage::NewAttestationPayload { attestation_id, payload } => MessageView::NewAttestationPayload {
                attestation_id: attestation_id@,
                payload: payload@,
            },
            P2pMessage::RequestTensorChunk { tensor_id, chunk_index } => MessageView::RequestTensorChunk {
                tensor_id: tensor_id@,
                chunk_index: *chunk_index,
            },
            P2pMessage::TensorChunkResponse { tensor_id, chunk_index, bytes } => MessageView::TensorChunkResponse {
                tensor_id: tensor_id@,
                chunk_index: *chunk_index,
                bytes: bytes@,
            },
            P2pMessage::RequestTensorRow { tensor_id, row_index } => MessageView::RequestTensorRow {
                tensor_id: tensor_id@,
                row_index: *row_index,
            },
            P2pMessage::TensorRowResponse { tensor_id, row_index, values } => MessageView::TensorRowResponse {
                tensor_id: tensor_id@,
                row_index: *row_index,
                values: values@,
            },
            P2pMessage::RequestTensorByCommitmentRoot { commitment_root } => MessageView::RequestTensorByCommitmentRoot {
                commitment_root: commitment_root@,
            },
            P2pMessage::TensorByCommitmentRootResponse { commitment_root, payload } => MessageView::TensorByCommitmentRootResponse {
                commitment_root: commitment_root@,
                payload: match payload {
                    Some(p) => Some(p@),
                    None => None,
                },
            },
            P2pMessage::RequestProgram(h) => MessageView::RequestProgram(h@),
            P2pMessage::ProgramResponse { program_hash, bytes } => MessageView::ProgramResponse {
                program_hash: program_hash@,
                bytes: bytes@,
            },
            P2pMessage::PeerInfo { address } => MessageView::PeerInfo { address: address@ },
        }
    }
}

} // verus!
