use vstd::prelude::*;
use crate::types::Hash32;

verus! {

/// What applying a queued payload came to.
#[derive(Clone, Copy, Debug, PartialEq, Eq, Structural)]
pub enum NetworkPayloadApply {
    Applied,
    Pending,
    Invalid,
}

/// Why a payload could not be applied.
#[derive(Clone, Copy, Debug, PartialEq, Eq, Structural)]
pub enum NetworkPayloadError {
    Invalid,
}

/// What applying a block payload came to; `appended` counts the blocks that
/// joined the chain.
#[derive(Clone, Copy, Debug, PartialEq, Eq, Structural)]
pub enum NetworkBlockPayloadApply {
    Applied { appended: usize },
    Pending,
    Invalid,
}

/// The bytes of a payload, as the contracts see them.
pub type PayloadBytes = Seq<u8>;

/// Something that applies network payloads to chain state; a node
/// implements it over its chain. Its answers and its next state are
/// functions of its state and of what it is offered, which the spec
/// functions name.
pub trait NetworkPayloadProcessor: Sized {
    /// The answer this processor, in this state, gives a job payload.
    spec fn job_answer(&self, job_id: Hash32, payload: PayloadBytes) -> NetworkPayloadApply;

    /// The processor's state once it has been offered a job payload.
    spec fn after_job(&self, job_id: Hash32, payload: PayloadBytes) -> Self;

    spec fn block_answer(&self, height: u64, block_hash: Hash32, payload: PayloadBytes) -> NetworkBlockPayloadApply;

    spec fn after_block(&self, height: u64, block_hash: Hash32, payload: PayloadBytes) -> Self;

    spec fn block_vote_answer(&self, block_hash: Hash32, validator: Hash32, payload: PayloadBytes) -> NetworkPayloadApply;

    spec fn after_block_vote(&self, block_hash: Hash32, validator: Hash32, payload: PayloadBytes) -> Self;

    spec fn receipt_answer(&self, receipt_id: Hash32, payload: PayloadBytes) -> NetworkPayloadApply;

    spec fn after_receipt(&self, receipt_id: Hash32, payload: PayloadBytes) -> Self;

    spec fn attestation_answer(&self, attestation_id: Hash32, payload: PayloadBytes) -> NetworkPayloadApply;

    spec fn after_attestation(&self, attestation_id: Hash32, payload: PayloadBytes) -> Self;

    fn apply_job(&mut self, job_id: Hash32, payload: &[u8]) -> (out: NetworkPayloadApply)
        ensures
            out == old(self).job_answer(job_id, payload@),
            *final(self) == old(self).after_job(job_id, payload@);

    fn apply_block(&mut self, height: u64, block_hash: Hash32, payload: &[u8]) -> (out: NetworkBlockPayloadApply)
        ensures
            out == old(self).block_answer(height, block_hash, payload@),
            *final(self) == old(self).after_block(height, block_hash, payload@);

    fn apply_block_vote(&mut self, block_hash: Hash32, validator: Hash32, payload: &[u8]) -> (out: NetworkPayloadApply)
        ensures
            out == old(self).block_vote_answer(block_hash, validator, payload@),
            *final(self) == old(self).after_block_vote(block_hash, validator, payload@);

    fn apply_receipt(&mut self, receipt_id: Hash32, payload: &[u8]) -> (out: NetworkPayloadApply)
        ensures
            out == old(self).receipt_answer(receipt_id, payload@),
            *final(self) == old(self).after_receipt(receipt_id, payload@);

    fn apply_attestation(&mut self, attestation_id: Hash32, payload: &[u8]) -> (out: NetworkPayloadApply)
        ensures
            out == old(self).attestation_answer(attestation_id, payload@),
            *final(self) == old(self).after_attestation(attestation_id, payload@);
}

} // verus!
