use vstd::prelude::*;
use crate::api::P2pMessage;
use crate::types::{Hash32, hash_is_zero, is_zero_hash};
use crate::node::payload_processor::{
    NetworkBlockPayloadApply, NetworkPayloadApply, NetworkPayloadError, NetworkPayloadProcessor, PayloadBytes,
};
use crate::node::pending_payloads::{
    PendingNetworkPayloads, RetryState, insert_sorted, retry_start, retry_state, sat_usize, settled_count, spec_retry,
};
use crate::node::runtime_state::{NetworkEventIngest, sat_add};

verus! {

/// The node-side operations that message ingestion applies payloads with:
/// a node implements them over its chain. Their answers and the node's next
/// state are functions of its state and of what it is offered, which the
/// spec functions name.
pub trait NetworkEventContext: Sized {
    /// Whether the node, in this state, accepts a job payload.
    spec fn job_payload_accepted(&self, job_id: Hash32, payload: PayloadBytes) -> bool;

    spec fn after_job_payload(&self, job_id: Hash32, payload: PayloadBytes) -> Self;

    spec fn block_payload_answer(&self, height: u64, block_hash: Hash32, payload: PayloadBytes) -> NetworkBlockPayloadApply;

    spec fn after_block_payload(&self, height: u64, block_hash: Hash32, payload: PayloadBytes) -> Self;

    spec fn block_vote_payload_answer(&self, block_hash: Hash32, validator: Hash32, payload: PayloadBytes) -> NetworkPayloadApply;

    spec fn after_block_vote_payload(&self, block_hash: Hash32, validator: Hash32, payload: PayloadBytes) -> Self;

    spec fn receipt_payload_answer(&self, receipt_id: Hash32, payload: PayloadBytes) -> NetworkPayloadApply;

    spec fn after_receipt_payload(&self, receipt_id: Hash32, payload: PayloadBytes) -> Self;

    spec fn attestation_payload_answer(&self, attestation_id: Hash32, payload: PayloadBytes) -> NetworkPayloadApply;

    spec fn after_attestation_payload(&self, attestation_id: Hash32, payload: PayloadBytes) -> Self;

    fn apply_job_payload(&mut self, job_id: Hash32, payload: &[u8]) -> (out: Result<(), NetworkPayloadError>)
        ensures
            out is Ok <==> old(self).job_payload_accepted(job_id, payload@),
            *final(self) == old(self).after_job_payload(job_id, payload@);

    fn apply_block_payload(&mut self, height: u64, block_hash: Hash32, payload: &[u8]) -> (out: NetworkBlockPayloadApply)
        ensures
            out == old(self).block_payload_answer(height, block_hash, payload@),
            *final(self) == old(self).after_block_payload(height, block_hash, payload@);

    fn apply_block_vote_payload(&mut self, block_hash: Hash32, validator: Hash32, payload: &[u8]) -> (out: NetworkPayloadApply)
        ensures
            out == old(self).block_vote_payload_answer(block_hash, validator, payload@),
            *final(self) == old(self).after_block_vote_payload(block_hash, validator, payload@);

    fn apply_receipt_payload(&mut self, receipt_id: Hash32, payload: &[u8]) -> (out: NetworkPayloadApply)
        ensures
            out == old(self).receipt_payload_answer(receipt_id, payload@),
            *final(self) == old(self).after_receipt_payload(receipt_id, payload@);

    fn apply_attestation_payload(&mut self, attestation_id: Hash32, payload: &[u8]) -> (out: NetworkPayloadApply)
        ensures
            out == old(self).attestation_payload_answer(attestation_id, payload@),
            *final(self) == old(self).after_attestation_payload(attestation_id, payload@);
}

/// The outcome of a job payload once the node has applied it or refused
/// it: applied where it succeeded, invalid where it failed.
pub fn job_apply_outcome(result: Result<(), NetworkPayloadError>) -> (out: NetworkPayloadApply)
    ensures
        result is Ok ==> out == NetworkPayloadApply::Applied,
        result is Err ==> out == NetworkPayloadApply::Invalid,
{
    match result {
        Ok(()) => NetworkPayloadApply::Applied,
        Err(_) => NetworkPayloadApply::Invalid,
    }
}

/// Retrying queued payloads against a node context: a job payload is applied
/// or found invalid, never left pending.
impl<C: NetworkEventContext> NetworkPayloadProcessor for C {
    open spec fn job_answer(&self, job_id: Hash32, payload: PayloadBytes) -> NetworkPayloadApply {
        if self.job_payload_accepted(job_id, payload) {
            NetworkPayloadApply::Applied
        } else {
            NetworkPayloadApply::Invalid
        }
    }

    open spec fn after_job(&self, job_id: Hash32, payload: PayloadBytes) -> Self {
        self.after_job_payload(job_id, payload)
    }

    open spec fn block_answer(&self, height: u64, block_hash: Hash32, payload: PayloadBytes) -> NetworkBlockPayloadApply {
        self.block_payload_answer(height, block_hash, payload)
    }

    open spec fn after_block(&self, height: u64, block_hash: Hash32, payload: PayloadBytes) -> Self {
        self.after_block_payload(height, block_hash, payload)
    }

    open spec fn block_vote_answer(&self, block_hash: Hash32, validator: Hash32, payload: PayloadBytes) -> NetworkPayloadApply {
        self.block_vote_payload_answer(block_hash, validator, payload)
    }

    open spec fn after_block_vote(&self, block_hash: Hash32, validator: Hash32, payload: PayloadBytes) -> Self {
        self.after_block_vote_payload(block_hash, validator, payload)
    }

    open spec fn receipt_answer(&self, receipt_id: Hash32, payload: PayloadBytes) -> NetworkPayloadApply {
        self.receipt_payload_answer(receipt_id, payload)
    }

    open spec fn after_receipt(&self, receipt_id: Hash32, payload: PayloadBytes) -> Self {
        self.after_receipt_payload(receipt_id, payload)
    }

    open spec fn attestation_answer(&self, attestation_id: Hash32, payload: PayloadBytes) -> NetworkPayloadApply {
        self.attestation_payload_answer(attestation_id, payload)
    }

    open spec fn after_attestation(&self, attestation_id: Hash32, payload: PayloadBytes) -> Self {
        self.after_attestation_payload(attestation_id, payload)
    }

    fn apply_job(&mut self, job_id: Hash32, payload: &[u8]) -> (out: NetworkPayloadApply) {
        job_apply_outcome(self.apply_job_payload(job_id, payload))
    }

    fn apply_block(&mut self, height: u64, block_hash: Hash32, payload: &[u8]) -> (out: NetworkBlockPayloadApply) {
        self.apply_block_payload(height, block_hash, payload)
    }

    fn apply_block_vote(&mut self, block_hash: Hash32, validator: Hash32, payload: &[u8]) -> (out: NetworkPayloadApply) {
        self.apply_block_vote_payload(block_hash, validator, payload)
    }

    fn apply_receipt(&mut self, receipt_id: Hash32, payload: &[u8]) -> (out: NetworkPayloadApply) {
        self.apply_receipt_payload(receipt_id, payload)
    }

    fn apply_attestation(&mut self, attestation_id: Hash32, payload: &[u8]) -> (out: NetworkPayloadApply) {
        self.apply_attestation_payload(attestation_id, payload)
    }
}

/// A block announcement without a payload.
pub open spec fn is_block_announcement(m: P2pMessage) -> bool {
    m is NewBlock || m is NewBlockHeader
}

/// A block payload.
pub open spec fn is_block_payload(m: P2pMessage) -> bool {
    m is NewBlockPayload
}

/// Anything else.
pub open spec fn is_other_message(m: P2pMessage) -> bool {
    !is_block_announcement(m) && !is_block_payload(m)
}

/// The order in which a batch is ingested: the other messages first, then
/// block payloads, then bare block announcements, each group in arrival
/// order.
pub open spec fn ingest_order(s: Seq<P2pMessage>) -> Seq<P2pMessage> {
    s.filter(|m: P2pMessage| is_other_message(m)) + s.filter(|m: P2pMessage| is_block_payload(m))
        + s.filter(|m: P2pMessage| is_block_announcement(m))
}

fn block_announcement(m: &P2pMessage) -> (out: bool)
    ensures
        out == is_block_announcement(*m),
{
    match m {
        P2pMessage::NewBlock(_) => true,
        P2pMessage::NewBlockHeader { .. } => true,
        _ => false,
    }
}

fn block_payload(m: &P2pMessage) -> (out: bool)
    ensures
        out == is_block_payload(*m),
{
    match m {
        P2pMessage::NewBlockPayload { .. } => true,
        _ => false,
    }
}

/// Orders a batch for ingestion, so that block payloads are seen after what
/// they may depend on and bare announcements come last.
pub fn network_ingest_order(messages: Vec<P2pMessage>) -> (out: Vec<P2pMessage>)
    ensures
        out@ == ingest_order(messages@),
{
    let ghost all = messages@;
    let mut others: Vec<P2pMessage> = Vec::new();
    let mut block_payloads: Vec<P2pMessage> = Vec::new();
    let mut announcements: Vec<P2pMessage> = Vec::new();
    for message in it: messages.into_iter()
        invariant
            it.seq() == all,
            others@ == all.take(it.index() as int).filter(|m: P2pMessage| is_other_message(m)),
            block_payloads@ == all.take(it.index() as int).filter(|m: P2pMessage| is_block_payload(m)),
            announcements@ == all.take(it.index() as int).filter(|m: P2pMessage| is_block_announcement(m)),
    {
        let ghost k = it.index() as int;
        assert(all.take(k + 1) =~= all.take(k).push(all[k]));
        proof {
            all.take(k).lemma_filter_push(all[k], |m: P2pMessage| is_other_message(m));
            all.take(k).lemma_filter_push(all[k], |m: P2pMessage| is_block_payload(m));
            all.take(k).lemma_filter_push(all[k], |m: P2pMessage| is_block_announcement(m));
        }
        if block_payload(&message) {
            block_payloads.push(message);
        } else if block_announcement(&message) {
            announcements.push(message);
        } else {
            others.push(message);
        }
    }
    assert(all.take(all.len() as int) =~= all);
    others.append(&mut block_payloads);
    others.append(&mut announcements);
    others
}

/// How many messages satisfy `p`.
pub open spec fn count_matching(s: Seq<P2pMessage>, p: spec_fn(P2pMessage) -> bool) -> nat
    decreases s.len(),
{
    if s.len() == 0 {
        0
    } else {
        count_matching(s.drop_last(), p) + if p(s.last()) { 1nat } else { 0nat }
    }
}

/// A message that ingestion counts as invalid without applying anything:
/// a zero digest or address, a zero height, or a request or response that
/// has no place on the gossip path.
pub open spec fn rejected_on_sight(m: P2pMessage) -> bool {
    match m {
        P2pMessage::NewBlock(h) => is_zero_hash(h),
        P2pMessage::NewBlockHeader { height, block_hash } => height == 0 || is_zero_hash(block_hash),
        P2pMessage::NewBlockPayload { height, block_hash, .. } => height == 0 || is_zero_hash(block_hash),
        P2pMessage::NewBlockVotePayload { block_hash, validator, .. } => is_zero_hash(block_hash) || is_zero_hash(validator),
        P2pMessage::NewJob(h) => is_zero_hash(h),
        P2pMessage::NewJobPayload { .. } => false,
        P2pMessage::NewReceipt(h) => is_zero_hash(h),
        P2pMessage::NewReceiptPayload { .. } => false,
        P2pMessage::NewAttestation(h) => is_zero_hash(h),
        P2pMessage::NewAttestationPayload { .. } => false,
        P2pMessage::PeerInfo { address } => is_zero_hash(address),
        _ => true,
    }
}

/// `s` with an invalid event more.
pub open spec fn with_invalid<C>(s: RetryState<C>) -> RetryState<C> {
    RetryState { invalid: s.invalid + 1, ..s }
}

/// What one message does to what ingestion has built: the node's state,
/// the queued payloads and the counts of applied payloads and invalid
/// events. An announcement with a zero id, or a block announcement at
/// height 0, is an invalid event; a payload with valid ids is handed to
/// the node, and counted applied, queued (when still pending) or counted
/// invalid by the node's answer; a job payload is applied or invalid, never
/// queued; a peer with a zero address and any request or response message
/// are invalid events; anything else changes nothing here.
pub open spec fn ingest_step<C: NetworkEventContext>(s: RetryState<C>, m: P2pMessage) -> RetryState<C> {
    match m {
        P2pMessage::NewBlock(h) => if is_zero_hash(h) { with_invalid(s) } else { s },
        P2pMessage::NewBlockHeader { height, block_hash } =>
            if height == 0 || is_zero_hash(block_hash) { with_invalid(s) } else { s },
        P2pMessage::NewBlockPayload { height, block_hash, payload } =>
            if height == 0 || is_zero_hash(block_hash) {
                with_invalid(s)
            } else {
                let c = s.processor.after_block_payload(height, block_hash, payload@);
                match s.processor.block_payload_answer(height, block_hash, payload@) {
                    NetworkBlockPayloadApply::Applied { appended } => RetryState {
                        processor: c,
                        block_applied: sat_usize(s.block_applied + 1),
                        applied_blocks: sat_usize(s.applied_blocks + appended as nat),
                        ..s
                    },
                    NetworkBlockPayloadApply::Pending => RetryState {
                        processor: c,
                        blocks: insert_sorted(s.blocks, (height, block_hash), payload@),
                        ..s
                    },
                    NetworkBlockPayloadApply::Invalid => RetryState { processor: c, invalid: s.invalid + 1, ..s },
                }
            },
        P2pMessage::NewBlockVotePayload { block_hash, validator, payload } =>
            if is_zero_hash(block_hash) || is_zero_hash(validator) {
                with_invalid(s)
            } else {
                let c = s.processor.after_block_vote_payload(block_hash, validator, payload@);
                match s.processor.block_vote_payload_answer(block_hash, validator, payload@) {
                    NetworkPayloadApply::Applied => RetryState {
                        processor: c,
                        block_vote_applied: sat_usize(s.block_vote_applied + 1),
                        ..s
                    },
                    NetworkPayloadApply::Pending => RetryState {
                        processor: c,
                        block_votes: insert_sorted(s.block_votes, (block_hash, validator), payload@),
                        ..s
                    },
                    NetworkPayloadApply::Invalid => RetryState { processor: c, invalid: s.invalid + 1, ..s },
                }
            },
        P2pMessage::NewJob(h) => if is_zero_hash(h) { with_invalid(s) } else { s },
        P2pMessage::NewJobPayload { job_id, payload } => {
            let c = s.processor.after_job_payload(job_id, payload@);
            if s.processor.job_payload_accepted(job_id, payload@) {
                RetryState { processor: c, job_applied: sat_usize(s.job_applied + 1), ..s }
            } else {
                RetryState { processor: c, invalid: s.invalid + 1, ..s }
            }
        },
        P2pMessage::NewReceipt(h) => if is_zero_hash(h) { with_invalid(s) } else { s },
        P2pMessage::NewReceiptPayload { receipt_id, payload } => {
            let c = s.processor.after_receipt_payload(receipt_id, payload@);
            match s.processor.receipt_payload_answer(receipt_id, payload@) {
                NetworkPayloadApply::Applied => RetryState {
                    processor: c,
                    receipt_applied: sat_usize(s.receipt_applied + 1),
                    ..s
                },
                NetworkPayloadApply::Pending => RetryState {
                    processor: c,
                    receipts: insert_sorted(s.receipts, receipt_id, payload@),
                    ..s
                },
                NetworkPayloadApply::Invalid => RetryState { processor: c, invalid: s.invalid + 1, ..s },
            }
        },
        P2pMessage::NewAttestation(h) => if is_zero_hash(h) { with_invalid(s) } else { s },
        P2pMessage::NewAttestationPayload { attestation_id, payload } => {
            let c = s.processor.after_attestation_payload(attestation_id, payload@);
            match s.processor.attestation_payload_answer(attestation_id, payload@) {
                NetworkPayloadApply::Applied => RetryState {
                    processor: c,
                    attestation_applied: sat_usize(s.attestation_applied + 1),
                    ..s
                },
                NetworkPayloadApply::Pending => RetryState {
                    processor: c,
                    attestations: insert_sorted(s.attestations, attestation_id, payload@),
                    ..s
                },
                NetworkPayloadApply::Invalid => RetryState { processor: c, invalid: s.invalid + 1, ..s },
            }
        },
        P2pMessage::PeerInfo { address } => if is_zero_hash(address) { with_invalid(s) } else { s },
        _ => with_invalid(s),
    }
}

/// What a sequence of messages does, one after the other.
pub open spec fn ingest_fold<C: NetworkEventContext>(ms: Seq<P2pMessage>, s: RetryState<C>) -> RetryState<C>
    decreases ms.len(),
{
    if ms.len() == 0 {
        s
    } else {
        ingest_step(ingest_fold(ms.drop_last(), s), ms.last())
    }
}

/// The payloads queued in a retry state, of all kinds.
pub open spec fn queued_total<C>(s: RetryState<C>) -> int {
    s.jobs.len() + s.blocks.len() + s.block_votes.len() + s.receipts.len() + s.attestations.len() as int
}

/// `s` with nothing counted.
pub open spec fn zero_counts<C>(s: RetryState<C>) -> RetryState<C> {
    RetryState {
        job_applied: 0,
        receipt_applied: 0,
        attestation_applied: 0,
        block_applied: 0,
        applied_blocks: 0,
        block_vote_applied: 0,
        invalid: 0,
        ..s
    }
}

/// What ingesting `messages` against `context` with `pending` queued
/// builds before the retry.
pub open spec fn ingested_messages<C: NetworkEventContext>(
    context: C,
    messages: Seq<P2pMessage>,
    pending: PendingNetworkPayloads,
) -> RetryState<C> {
    ingest_fold(ingest_order(messages), retry_start(pending, context))
}

/// What the retry after the messages comes to.
pub open spec fn ingest_retry<C: NetworkEventContext>(s: RetryState<C>) -> RetryState<C> {
    spec_retry(zero_counts(s), (queued_total(s) + 1) as nat)
}

/// Ingests a batch of gossip messages in `ingest_order`: counts each kind,
/// applies the payloads through `context`, queues those that are still
/// pending, then retries the whole queue. The counters of message kinds are
/// exact; what was applied depends on what `context` answered.
pub fn ingest_network_messages<C: NetworkEventContext>(
    context: &mut C,
    messages: Vec<P2pMessage>,
    local_producer: bool,
    pending_payloads: &mut PendingNetworkPayloads,
) -> (out: Result<NetworkEventIngest, String>)
    requires
        old(pending_payloads).wf(),
        old(pending_payloads).total_len() + messages@.len() <= usize::MAX,
    ensures
        out is Ok,
        final(pending_payloads).wf(),
        out matches Ok(r) ==> r.events == messages@.len(),
            out matches Ok(r) ==> r.block_announcements == count_matching(ingest_order(messages@), |m: P2pMessage| m is NewBlock || m is NewBlockHeader || m is NewBlockPayload || m is NewBlockVotePayload),
            out matches Ok(r) ==> r.block_headers == count_matching(ingest_order(messages@), |m: P2pMessage| m is NewBlockHeader),
            out matches Ok(r) ==> r.block_payloads == count_matching(ingest_order(messages@), |m: P2pMessage| m is NewBlockPayload),
            out matches Ok(r) ==> r.block_votes == count_matching(ingest_order(messages@), |m: P2pMessage| m is NewBlockVotePayload),
            out matches Ok(r) ==> r.jobs == count_matching(ingest_order(messages@), |m: P2pMessage| m is NewJob || m is NewJobPayload),
            out matches Ok(r) ==> r.job_payloads == count_matching(ingest_order(messages@), |m: P2pMessage| m is NewJobPayload),
            out matches Ok(r) ==> r.receipts == count_matching(ingest_order(messages@), |m: P2pMessage| m is NewReceipt || m is NewReceiptPayload),
            out matches Ok(r) ==> r.receipt_payloads == count_matching(ingest_order(messages@), |m: P2pMessage| m is NewReceiptPayload),
            out matches Ok(r) ==> r.attestations == count_matching(ingest_order(messages@), |m: P2pMessage| m is NewAttestation || m is NewAttestationPayload),
            out matches Ok(r) ==> r.attestation_payloads == count_matching(ingest_order(messages@), |m: P2pMessage| m is NewAttestationPayload),
            out matches Ok(r) ==> r.peers == count_matching(ingest_order(messages@), |m: P2pMessage| m is PeerInfo),
        out matches Ok(r) ==> r.invalid_events >= count_matching(ingest_order(messages@), |m: P2pMessage| rejected_on_sight(m)),
        ({
            let s = ingested_messages(*old(context), messages@, *old(pending_payloads));
            let t = ingest_retry(s);
            &&& final(pending_payloads).jobs() == t.jobs
            &&& final(pending_payloads).receipts() == t.receipts
            &&& final(pending_payloads).attestations() == t.attestations
            &&& final(pending_payloads).blocks() == t.blocks
            &&& final(pending_payloads).block_votes() == t.block_votes
            &&& *final(context) == t.processor
            &&& out matches Ok(r) && {
                &&& r.job_payloads_applied == sat_usize(s.job_applied + t.job_applied)
                &&& r.receipt_payloads_applied == sat_usize(s.receipt_applied + t.receipt_applied)
                &&& r.attestation_payloads_applied == sat_usize(s.attestation_applied + t.attestation_applied)
                &&& r.block_payloads_applied == sat_usize(s.block_applied + t.block_applied)
                &&& r.applied_blocks == sat_usize(s.applied_blocks + t.applied_blocks)
                &&& r.block_votes_applied == sat_usize(s.block_vote_applied + t.block_vote_applied)
                &&& r.invalid_events == sat_usize(s.invalid + t.invalid)
            }
        }),
{
    let ghost n = messages@.len();
    let ordered = network_ingest_order(messages);
    let ghost ordered_view = ordered@;
    assert(ordered_view.len() == n) by {
        lemma_ingest_order_len(messages@);
    }
    let mut ingested = NetworkEventIngest::default();
    let ghost s0 = retry_start(*pending_payloads, *context);
    assert(ordered_view.take(0) =~= Seq::<P2pMessage>::empty());
    assert(retry_state(*pending_payloads, *context, ingested) == s0);
    for message in it: ordered.into_iter()
        invariant
            it.seq() == ordered_view,
            ordered_view == ingest_order(messages@),
            s0 == retry_start(*old(pending_payloads), *old(context)),
            retry_state(*pending_payloads, *context, ingested) == ingest_fold(ordered_view.take(it.index() as int), s0),
            ordered_view.len() == n,
            pending_payloads.wf(),
            pending_payloads.total_len() <= old(pending_payloads).total_len() + it.index(),
            old(pending_payloads).total_len() + n <= usize::MAX,
            ingested.events == it.index(),
                ingested.block_announcements == count_matching(ordered_view.take(it.index() as int), |m: P2pMessage| m is NewBlock || m is NewBlockHeader || m is NewBlockPayload || m is NewBlockVotePayload),
                ingested.block_headers == count_matching(ordered_view.take(it.index() as int), |m: P2pMessage| m is NewBlockHeader),
                ingested.block_payloads == count_matching(ordered_view.take(it.index() as int), |m: P2pMessage| m is NewBlockPayload),
                ingested.block_votes == count_matching(ordered_view.take(it.index() as int), |m: P2pMessage| m is NewBlockVotePayload),
                ingested.jobs == count_matching(ordered_view.take(it.index() as int), |m: P2pMessage| m is NewJob || m is NewJobPayload),
                ingested.job_payloads == count_matching(ordered_view.take(it.index() as int), |m: P2pMessage| m is NewJobPayload),
                ingested.receipts == count_matching(ordered_view.take(it.index() as int), |m: P2pMessage| m is NewReceipt || m is NewReceiptPayload),
                ingested.receipt_payloads == count_matching(ordered_view.take(it.index() as int), |m: P2pMessage| m is NewReceiptPayload),
                ingested.attestations == count_matching(ordered_view.take(it.index() as int), |m: P2pMessage| m is NewAttestation || m is NewAttestationPayload),
                ingested.attestation_payloads == count_matching(ordered_view.take(it.index() as int), |m: P2pMessage| m is NewAttestationPayload),
                ingested.peers == count_matching(ordered_view.take(it.index() as int), |m: P2pMessage| m is PeerInfo),
                ingested.invalid_events >= count_matching(ordered_view.take(it.index() as int), |m: P2pMessage| rejected_on_sight(m)),
                ingested.invalid_events <= it.index(),
    {
        let ghost k = it.index() as int;
        let ghost taken = ordered_view.take(k + 1);
        assert(taken.drop_last() =~= ordered_view.take(k));
        assert(taken.last() == message);
        proof {
            lemma_count_le(ordered_view.take(k), |m: P2pMessage| m is NewBlock || m is NewBlockHeader || m is NewBlockPayload || m is NewBlockVotePayload);
            lemma_count_le(ordered_view.take(k), |m: P2pMessage| m is NewBlockHeader);
            lemma_count_le(ordered_view.take(k), |m: P2pMessage| m is NewBlockPayload);
            lemma_count_le(ordered_view.take(k), |m: P2pMessage| m is NewBlockVotePayload);
            lemma_count_le(ordered_view.take(k), |m: P2pMessage| m is NewJob || m is NewJobPayload);
            lemma_count_le(ordered_view.take(k), |m: P2pMessage| m is NewJobPayload);
            lemma_count_le(ordered_view.take(k), |m: P2pMessage| m is NewReceipt || m is NewReceiptPayload);
            lemma_count_le(ordered_view.take(k), |m: P2pMessage| m is NewReceiptPayload);
            lemma_count_le(ordered_view.take(k), |m: P2pMessage| m is NewAttestation || m is NewAttestationPayload);
            lemma_count_le(ordered_view.take(k), |m: P2pMessage| m is NewAttestationPayload);
            lemma_count_le(ordered_view.take(k), |m: P2pMessage| m is PeerInfo);
        }
        ingested.events = ingested.events + 1;
        match message {
            P2pMessage::NewBlock(block_hash) => {
                ingested.block_announcements = ingested.block_announcements + 1;
                if hash_is_zero(&block_hash) {
                    ingested.invalid_events = ingested.invalid_events + 1;
                }
            },
            P2pMessage::NewBlockHeader { height, block_hash } => {
                ingested.block_announcements = ingested.block_announcements + 1;
                ingested.block_headers = ingested.block_headers + 1;
                if height == 0 || hash_is_zero(&block_hash) {
                    ingested.invalid_events = ingested.invalid_events + 1;
                }
            },
            P2pMessage::NewBlockPayload { height, block_hash, payload } => {
                ingested.block_announcements = ingested.block_announcements + 1;
                ingested.block_payloads = ingested.block_payloads + 1;
                if height == 0 || hash_is_zero(&block_hash) {
                    ingested.invalid_events = ingested.invalid_events + 1;
                } else {
                    match context.apply_block_payload(height, block_hash, payload.as_slice()) {
                        NetworkBlockPayloadApply::Applied { appended } => {
                            ingested.block_payloads_applied = ingested.block_payloads_applied.saturating_add(1);
                            ingested.applied_blocks = ingested.applied_blocks.saturating_add(appended);
                        },
                        NetworkBlockPayloadApply::Pending => {
                            proof {
                                crate::node::pending_payloads::lemma_insert_sorted(
                                    pending_payloads.blocks(), (height, block_hash), payload@);
                            }
                            pending_payloads.queue_block(height, block_hash, payload);
                        },
                        NetworkBlockPayloadApply::Invalid => {
                            ingested.invalid_events = ingested.invalid_events + 1;
                        },
                    }
                }
            },
            P2pMessage::NewBlockVotePayload { block_hash, validator, payload } => {
                ingested.block_announcements = ingested.block_announcements + 1;
                ingested.block_votes = ingested.block_votes + 1;
                if hash_is_zero(&block_hash) || hash_is_zero(&validator) {
                    ingested.invalid_events = ingested.invalid_events + 1;
                } else {
                    match context.apply_block_vote_payload(block_hash, validator, payload.as_slice()) {
                        NetworkPayloadApply::Applied => {
                            ingested.block_votes_applied = ingested.block_votes_applied.saturating_add(1);
                        },
                        NetworkPayloadApply::Pending => {
                            proof {
                                crate::node::pending_payloads::lemma_insert_sorted(
                                    pending_payloads.block_votes(), (block_hash, validator), payload@);
                            }
                            pending_payloads.queue_block_vote(block_hash, validator, payload);
                        },
                        NetworkPayloadApply::Invalid => {
                            ingested.invalid_events = ingested.invalid_events + 1;
                        },
                    }
                }
            },
            P2pMessage::NewJob(job_id) => {
                ingested.jobs = ingested.jobs + 1;
                if hash_is_zero(&job_id) {
                    ingested.invalid_events = ingested.invalid_events + 1;
                }
            },
            P2pMessage::NewJobPayload { job_id, payload } => {
                ingested.jobs = ingested.jobs + 1;
                ingested.job_payloads = ingested.job_payloads + 1;
                match context.apply_job_payload(job_id, payload.as_slice()) {
                    Ok(()) => {
                        ingested.job_payloads_applied = ingested.job_payloads_applied.saturating_add(1);
                    },
                    Err(_) => {
                        ingested.invalid_events = ingested.invalid_events + 1;
                    },
                }
            },
            P2pMessage::NewReceipt(receipt_id) => {
                ingested.receipts = ingested.receipts + 1;
                if hash_is_zero(&receipt_id) {
                    ingested.invalid_events = ingested.invalid_events + 1;
                }
            },
            P2pMessage::NewReceiptPayload { receipt_id, payload } => {
                ingested.receipts = ingested.receipts + 1;
                ingested.receipt_payloads = ingested.receipt_payloads + 1;
                match context.apply_receipt_payload(receipt_id, payload.as_slice()) {
                    NetworkPayloadApply::Applied => {
                        ingested.receipt_payloads_applied = ingested.receipt_payloads_applied.saturating_add(1);
                    },
                    NetworkPayloadApply::Pending => {
                        proof {
                            crate::node::pending_payloads::lemma_insert_sorted(
                                pending_payloads.receipts(), receipt_id, payload@);
                        }
                        pending_payloads.queue_receipt(receipt_id, payload);
                    },
                    NetworkPayloadApply::Invalid => {
                        ingested.invalid_events = ingested.invalid_events + 1;
                    },
                }
            },
            P2pMessage::NewAttestation(attestation_id) => {
                ingested.attestations = ingested.attestations + 1;
                if hash_is_zero(&attestation_id) {
                    ingested.invalid_events = ingested.invalid_events + 1;
                }
            },
            P2pMessage::NewAttestationPayload { attestation_id, payload } => {
                ingested.attestations = ingested.attestations + 1;
                ingested.attestation_payloads = ingested.attestation_payloads + 1;
                match context.apply_attestation_payload(attestation_id, payload.as_slice()) {
                    NetworkPayloadApply::Applied => {
                        ingested.attestation_payloads_applied = ingested.attestation_payloads_applied.saturating_add(1);
                    },
                    NetworkPayloadApply::Pending => {
                        proof {
                            crate::node::pending_payloads::lemma_insert_sorted(
                                pending_payloads.attestations(), attestation_id, payload@);
                        }
                        pending_payloads.queue_attestation(attestation_id, payload);
                    },
                    NetworkPayloadApply::Invalid => {
                        ingested.invalid_events = ingested.invalid_events + 1;
                    },
                }
            },
            P2pMessage::PeerInfo { address } => {
                ingested.peers = ingested.peers + 1;
                if hash_is_zero(&address) {
                    ingested.invalid_events = ingested.invalid_events + 1;
                }
            },
            _ => {
                ingested.invalid_events = ingested.invalid_events + 1;
            },
        }
    }
    assert(ordered_view.take(n as int) =~= ordered_view);
    let ghost mid = retry_state(*pending_payloads, *context, ingested);
    assert(retry_start(*pending_payloads, *context) == zero_counts(mid));
    let retried = pending_payloads.retry_with(context);
    ingested.accumulate(retried);
    Ok(ingested)
}

proof fn lemma_count_le(s: Seq<P2pMessage>, p: spec_fn(P2pMessage) -> bool)
    ensures
        count_matching(s, p) <= s.len(),
    decreases s.len(),
{
    if s.len() > 0 {
        lemma_count_le(s.drop_last(), p);
    }
}

proof fn lemma_ingest_order_len(s: Seq<P2pMessage>)
    ensures
        ingest_order(s).len() == s.len(),
    decreases s.len(),
{
    if s.len() > 0 {
        let t = s.drop_last();
        lemma_ingest_order_len(t);
        assert(s =~= t.push(s.last()));
        t.lemma_filter_push(s.last(), |m: P2pMessage| is_other_message(m));
        t.lemma_filter_push(s.last(), |m: P2pMessage| is_block_payload(m));
        t.lemma_filter_push(s.last(), |m: P2pMessage| is_block_announcement(m));
    }
}

} // verus!
