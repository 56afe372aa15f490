use vstd::bytes::{spec_u64_to_le_bytes, spec_u64_from_le_bytes, u64_to_le_bytes, u64_from_le_bytes, lemma_auto_spec_u64_to_from_le_bytes};
use vstd::prelude::*;
use crate::api::{MessageView, P2pMessage};
use crate::error::{Result, TvmError};
use crate::types::Hash32;
use crate::tensor::{DType, Tensor, shape_product, all_in_field};
use crate::p2p::{GossipTopic, RequestResponseProtocol};

verus! {

/// Largest byte string a wire message may carry.
pub const MAX_WIRE_BYTES: usize = 16777216;

/// Largest number of values a tensor row response may carry.
pub const MAX_TENSOR_VALUES: usize = 1000000;

/// The eight little-endian bytes of a `u64`.
pub open spec fn enc_u64(v: u64) -> Seq<u8> {
    spec_u64_to_le_bytes(v)
}

/// A byte string preceded by its length.
pub open spec fn enc_bytes(b: Seq<u8>) -> Seq<u8> {
    enc_u64(b.len() as u64) + b
}

/// Each value as eight little-endian bytes, in order.
pub open spec fn enc_u64_list(values: Seq<u64>) -> Seq<u8>
    decreases values.len(),
{
    if values.len() == 0 {
        Seq::empty()
    } else {
        enc_u64_list(values.drop_last()) + enc_u64(values.last())
    }
}

/// A list of values preceded by its length.
pub open spec fn enc_values(values: Seq<u64>) -> Seq<u8> {
    enc_u64(values.len() as u64) + enc_u64_list(values)
}

/// An optional byte string: a zero byte, or a one byte and the string.
pub open spec fn enc_opt_bytes(b: Option<Seq<u8>>) -> Seq<u8> {
    match b {
        Some(b) => seq![1u8] + enc_bytes(b),
        None => seq![0u8],
    }
}

/// The wire encoding of a message: its tag, then its fields in order.
pub open spec fn spec_encode_message(m: MessageView) -> Seq<u8> {
    match m {
        MessageView::NewBlock(h) => seq![1u8] + h,
        MessageView::NewBlockHeader { height, block_hash } => seq![12u8] + enc_u64(height) + block_hash,
        MessageView::NewBlockPayload { height, block_hash, payload } => seq![18u8] + enc_u64(height) + block_hash + enc_bytes(payload),
        MessageView::NewBlockVotePayload { block_hash, validator, payload } => seq![19u8] + block_hash + validator + enc_bytes(payload),
        MessageView::NewJob(h) => seq![2u8] + h,
        MessageView::NewJobPayload { job_id, payload } => seq![13u8] + job_id + enc_bytes(payload),
        MessageView::NewReceipt(h) => seq![3u8] + h,
        MessageView::NewReceiptPayload { receipt_id, payload } => seq![14u8] + receipt_id + enc_bytes(payload),
        MessageView::NewAttestation(h) => seq![4u8] + h,
        MessageView::NewAttestationPayload { attestation_id, payload } => seq![15u8] + attestation_id + enc_bytes(payload),
        MessageView::RequestTensorChunk { tensor_id, chunk_index } => seq![5u8] + tensor_id + enc_u64(chunk_index),
        MessageView::TensorChunkResponse { tensor_id, chunk_index, bytes } => seq![6u8] + tensor_id + enc_u64(chunk_index) + enc_bytes(bytes),
        MessageView::RequestTensorRow { tensor_id, row_index } => seq![7u8] + tensor_id + enc_u64(row_index),
        MessageView::TensorRowResponse { tensor_id, row_index, values } => seq![8u8] + tensor_id + enc_u64(row_index) + enc_values(values),
        MessageView::RequestTensorByCommitmentRoot { commitment_root } => seq![16u8] + commitment_root,
        MessageView::TensorByCommitmentRootResponse { commitment_root, payload } => seq![17u8] + commitment_root + enc_opt_bytes(payload),
        MessageView::RequestProgram(h) => seq![9u8] + h,
        MessageView::ProgramResponse { program_hash, bytes } => seq![10u8] + program_hash + enc_bytes(bytes),
        MessageView::PeerInfo { address } => seq![11u8] + address,
    }
}

/// Whether a byte string fits the wire limit.
pub open spec fn bytes_fit(b: Seq<u8>) -> bool {
    b.len() <= MAX_WIRE_BYTES
}

/// Whether a message can travel on the wire: digests of 32 bytes, byte
/// strings within `MAX_WIRE_BYTES`, row values within `MAX_TENSOR_VALUES`.
pub open spec fn wire_valid(m: MessageView) -> bool {
    match m {
        MessageView::NewBlock(h) => h.len() == 32,
        MessageView::NewBlockHeader { block_hash, .. } => block_hash.len() == 32,
        MessageView::NewBlockPayload { block_hash, payload, .. } => block_hash.len() == 32 && bytes_fit(payload),
        MessageView::NewBlockVotePayload { block_hash, validator, payload } => block_hash.len() == 32 && validator.len() == 32 && bytes_fit(payload),
        MessageView::NewJob(h) => h.len() == 32,
        MessageView::NewJobPayload { job_id, payload } => job_id.len() == 32 && bytes_fit(payload),
        MessageView::NewReceipt(h) => h.len() == 32,
        MessageView::NewReceiptPayload { receipt_id, payload } => receipt_id.len() == 32 && bytes_fit(payload),
        MessageView::NewAttestation(h) => h.len() == 32,
        MessageView::NewAttestationPayload { attestation_id, payload } => attestation_id.len() == 32 && bytes_fit(payload),
        MessageView::RequestTensorChunk { tensor_id, .. } => tensor_id.len() == 32,
        MessageView::TensorChunkResponse { tensor_id, bytes, .. } => tensor_id.len() == 32 && bytes_fit(bytes),
        MessageView::RequestTensorRow { tensor_id, .. } => tensor_id.len() == 32,
        MessageView::TensorRowResponse { tensor_id, values, .. } => tensor_id.len() == 32 && values.len() <= MAX_TENSOR_VALUES,
        MessageView::RequestTensorByCommitmentRoot { commitment_root } => commitment_root.len() == 32,
        MessageView::TensorByCommitmentRootResponse { commitment_root, payload } => commitment_root.len() == 32
            && (payload matches Some(p) ==> bytes_fit(p)),
        MessageView::RequestProgram(h) => h.len() == 32,
        MessageView::ProgramResponse { program_hash, bytes } => program_hash.len() == 32 && bytes_fit(bytes),
        MessageView::PeerInfo { address } => address.len() == 32,
    }
}

// ---------------------------------------------------------------------------
// Field readers, as specifications over an input and an offset.

pub open spec fn p_hash(s: Seq<u8>, off: int) -> Option<(Seq<u8>, int)> {
    if 0 <= off && off + 32 <= s.len() {
        Some((s.subrange(off, off + 32), off + 32))
    } else {
        None
    }
}

pub open spec fn p_u64(s: Seq<u8>, off: int) -> Option<(u64, int)> {
    if 0 <= off && off + 8 <= s.len() {
        Some((spec_u64_from_le_bytes(s.subrange(off, off + 8)), off + 8))
    } else {
        None
    }
}

pub open spec fn p_bytes(s: Seq<u8>, off: int) -> Option<(Seq<u8>, int)> {
    match p_u64(s, off) {
        Some((n, o)) => if n > MAX_WIRE_BYTES || o + n > s.len() {
            None
        } else {
            Some((s.subrange(o, o + n), o + n))
        },
        None => None,
    }
}

pub open spec fn p_u64_list(s: Seq<u8>, off: int, n: nat) -> Option<(Seq<u64>, int)>
    decreases n,
{
    if n == 0 {
        Some((Seq::empty(), off))
    } else {
        match p_u64_list(s, off, (n - 1) as nat) {
            Some((vs, o)) => match p_u64(s, o) {
                Some((x, o2)) => Some((vs.push(x), o2)),
                None => None,
            },
            None => None,
        }
    }
}

pub open spec fn p_values(s: Seq<u8>, off: int) -> Option<(Seq<u64>, int)> {
    match p_u64(s, off) {
        Some((n, o)) => if n > MAX_TENSOR_VALUES {
            None
        } else {
            p_u64_list(s, o, n as nat)
        },
        None => None,
    }
}

pub open spec fn p_opt_bytes(s: Seq<u8>, off: int) -> Option<(Option<Seq<u8>>, int)> {
    if 0 <= off < s.len() {
        if s[off] == 0 {
            Some((None, off + 1))
        } else if s[off] == 1 {
            match p_bytes(s, off + 1) {
                Some((b, o)) => Some((Some(b), o)),
                None => None,
            }
        } else {
            None
        }
    } else {
        None
    }
}

// ---------------------------------------------------------------------------
// Message bodies by shape: which fields follow the tag, and where they end.

pub open spec fn fields_h(s: Seq<u8>) -> Option<(Seq<u8>, int)> {
    p_hash(s, 1)
}

pub open spec fn fields_uh(s: Seq<u8>) -> Option<(u64, Seq<u8>, int)> {
    match p_u64(s, 1) {
        Some((u, o1)) => match p_hash(s, o1) {
            Some((h, o2)) => Some((u, h, o2)),
            None => None,
        },
        None => None,
    }
}

pub open spec fn fields_uhb(s: Seq<u8>) -> Option<(u64, Seq<u8>, Seq<u8>, int)> {
    match p_u64(s, 1) {
        Some((u, o1)) => match p_hash(s, o1) {
            Some((h, o2)) => match p_bytes(s, o2) {
                Some((b, o3)) => Some((u, h, b, o3)),
                None => None,
            },
            None => None,
        },
        None => None,
    }
}

pub open spec fn fields_hhb(s: Seq<u8>) -> Option<(Seq<u8>, Seq<u8>, Seq<u8>, int)> {
    match p_hash(s, 1) {
        Some((h1, o1)) => match p_hash(s, o1) {
            Some((h2, o2)) => match p_bytes(s, o2) {
                Some((b, o3)) => Some((h1, h2, b, o3)),
                None => None,
            },
            None => None,
        },
        None => None,
    }
}

pub open spec fn fields_hb(s: Seq<u8>) -> Option<(Seq<u8>, Seq<u8>, int)> {
    match p_hash(s, 1) {
        Some((h, o1)) => match p_bytes(s, o1) {
            Some((b, o2)) => Some((h, b, o2)),
            None => None,
        },
        None => None,
    }
}

pub open spec fn fields_hu(s: Seq<u8>) -> Option<(Seq<u8>, u64, int)> {
    match p_hash(s, 1) {
        Some((h, o1)) => match p_u64(s, o1) {
            Some((u, o2)) => Some((h, u, o2)),
            None => None,
        },
        None => None,
    }
}

pub open spec fn fields_hub(s: Seq<u8>) -> Option<(Seq<u8>, u64, Seq<u8>, int)> {
    match p_hash(s, 1) {
        Some((h, o1)) => match p_u64(s, o1) {
            Some((u, o2)) => match p_bytes(s, o2) {
                Some((b, o3)) => Some((h, u, b, o3)),
                None => None,
            },
            None => None,
        },
        None => None,
    }
}

pub open spec fn fields_huv(s: Seq<u8>) -> Option<(Seq<u8>, u64, Seq<u64>, int)> {
    match p_hash(s, 1) {
        Some((h, o1)) => match p_u64(s, o1) {
            Some((u, o2)) => match p_values(s, o2) {
                Some((v, o3)) => Some((h, u, v, o3)),
                None => None,
            },
            None => None,
        },
        None => None,
    }
}

pub open spec fn fields_ho(s: Seq<u8>) -> Option<(Seq<u8>, Option<Seq<u8>>, int)> {
    match p_hash(s, 1) {
        Some((h, o1)) => match p_opt_bytes(s, o1) {
            Some((b, o2)) => Some((h, b, o2)),
            None => None,
        },
        None => None,
    }
}

/// The message whose fields, of the kind its first byte tags, follow that
/// byte, with the offset where they end; what lies after is not read.
pub open spec fn message_fields(s: Seq<u8>) -> Option<(MessageView, int)> {
    if s.len() == 0 {
        None
    } else {
        let t = s[0];
        if t == 1 {
            match fields_h(s) { Some((h, o)) => Some((MessageView::NewBlock(h), o)), None => None }
        } else if t == 12 {
            match fields_uh(s) { Some((u, h, o)) => Some((MessageView::NewBlockHeader { height: u, block_hash: h }, o)), None => None }
        } else if t == 18 {
            match fields_uhb(s) { Some((u, h, b, o)) => Some((MessageView::NewBlockPayload { height: u, block_hash: h, payload: b }, o)), None => None }
        } else if t == 19 {
            match fields_hhb(s) { Some((h1, h2, b, o)) => Some((MessageView::NewBlockVotePayload { block_hash: h1, validator: h2, payload: b }, o)), None => None }
        } else if t == 2 {
            match fields_h(s) { Some((h, o)) => Some((MessageView::NewJob(h), o)), None => None }
        } else if t == 13 {
            match fields_hb(s) { Some((h, b, o)) => Some((MessageView::NewJobPayload { job_id: h, payload: b }, o)), None => None }
        } else if t == 3 {
            match fields_h(s) { Some((h, o)) => Some((MessageView::NewReceipt(h), o)), None => None }
        } else if t == 14 {
            match fields_hb(s) { Some((h, b, o)) => Some((MessageView::NewReceiptPayload { receipt_id: h, payload: b }, o)), None => None }
        } else if t == 4 {
            match fields_h(s) { Some((h, o)) => Some((MessageView::NewAttestation(h), o)), None => None }
        } else if t == 15 {
            match fields_hb(s) { Some((h, b, o)) => Some((MessageView::NewAttestationPayload { attestation_id: h, payload: b }, o)), None => None }
        } else if t == 5 {
            match fields_hu(s) { Some((h, u, o)) => Some((MessageView::RequestTensorChunk { tensor_id: h, chunk_index: u }, o)), None => None }
        } else if t == 6 {
            match fields_hub(s) { Some((h, u, b, o)) => Some((MessageView::TensorChunkResponse { tensor_id: h, chunk_index: u, bytes: b }, o)), None => None }
        } else if t == 7 {
            match fields_hu(s) { Some((h, u, o)) => Some((MessageView::RequestTensorRow { tensor_id: h, row_index: u }, o)), None => None }
        } else if t == 8 {
            match fields_huv(s) { Some((h, u, v, o)) => Some((MessageView::TensorRowResponse { tensor_id: h, row_index: u, values: v }, o)), None => None }
        } else if t == 16 {
            match fields_h(s) { Some((h, o)) => Some((MessageView::RequestTensorByCommitmentRoot { commitment_root: h }, o)), None => None }
        } else if t == 17 {
            match fields_ho(s) { Some((h, b, o)) => Some((MessageView::TensorByCommitmentRootResponse { commitment_root: h, payload: b }, o)), None => None }
        } else if t == 9 {
            match fields_h(s) { Some((h, o)) => Some((MessageView::RequestProgram(h), o)), None => None }
        } else if t == 10 {
            match fields_hb(s) { Some((h, b, o)) => Some((MessageView::ProgramResponse { program_hash: h, bytes: b }, o)), None => None }
        } else if t == 11 {
            match fields_h(s) { Some((h, o)) => Some((MessageView::PeerInfo { address: h }, o)), None => None }
        } else {
            None
        }
    }
}

/// The message that a byte string decodes to: its fields must end the input.
pub open spec fn spec_decode_message(s: Seq<u8>) -> Option<MessageView> {
    match message_fields(s) {
        Some((m, o)) => if o == s.len() { Some(m) } else { None },
        None => None,
    }
}

// ---------------------------------------------------------------------------
// Field lemmas: an encoded field reads back, and what is read was encoded.

proof fn lemma_p_hash_at(pre: Seq<u8>, h: Seq<u8>, rest: Seq<u8>)
    requires
        h.len() == 32,
    ensures
        p_hash(pre + h + rest, pre.len() as int) == Some((h, pre.len() as int + 32)),
{
    assert((pre + h + rest).subrange(pre.len() as int, pre.len() as int + 32) =~= h);
}

proof fn lemma_p_u64_at(pre: Seq<u8>, x: u64, rest: Seq<u8>)
    ensures
        p_u64(pre + enc_u64(x) + rest, pre.len() as int) == Some((x, pre.len() as int + 8)),
{
    lemma_auto_spec_u64_to_from_le_bytes();
    assert((pre + enc_u64(x) + rest).subrange(pre.len() as int, pre.len() as int + 8) =~= enc_u64(x));
}

proof fn lemma_p_bytes_at(pre: Seq<u8>, b: Seq<u8>, rest: Seq<u8>)
    requires
        bytes_fit(b),
    ensures
        p_bytes(pre + enc_bytes(b) + rest, pre.len() as int) == Some((b, pre.len() as int + 8 + b.len())),
{
    let s = pre + enc_bytes(b) + rest;
    lemma_auto_spec_u64_to_from_le_bytes();
    assert(s =~= pre + enc_u64(b.len() as u64) + (b + rest));
    lemma_p_u64_at(pre, b.len() as u64, b + rest);
    assert(s.subrange(pre.len() as int + 8, pre.len() as int + 8 + b.len()) =~= b);
}

proof fn lemma_enc_u64_list_len(vs: Seq<u64>)
    ensures
        enc_u64_list(vs).len() == 8 * vs.len(),
    decreases vs.len(),
{
    lemma_auto_spec_u64_to_from_le_bytes();
    if vs.len() > 0 {
        lemma_enc_u64_list_len(vs.drop_last());
    }
}

proof fn lemma_p_u64_list_at(pre: Seq<u8>, vs: Seq<u64>, rest: Seq<u8>)
    ensures
        p_u64_list(pre + enc_u64_list(vs) + rest, pre.len() as int, vs.len())
            == Some((vs, pre.len() as int + 8 * vs.len())),
    decreases vs.len(),
{
    if vs.len() > 0 {
        let init = vs.drop_last();
        let x = vs.last();
        let s = pre + enc_u64_list(vs) + rest;
        assert(s =~= pre + enc_u64_list(init) + (enc_u64(x) + rest));
        lemma_p_u64_list_at(pre, init, enc_u64(x) + rest);
        lemma_enc_u64_list_len(init);
        assert(s =~= (pre + enc_u64_list(init)) + enc_u64(x) + rest);
        lemma_p_u64_at(pre + enc_u64_list(init), x, rest);
        assert(init.push(x) =~= vs);
    }
}

proof fn lemma_p_values_at(pre: Seq<u8>, vs: Seq<u64>, rest: Seq<u8>)
    requires
        vs.len() <= MAX_TENSOR_VALUES,
    ensures
        p_values(pre + enc_values(vs) + rest, pre.len() as int) == Some((vs, pre.len() as int + 8 + 8 * vs.len())),
{
    let s = pre + enc_values(vs) + rest;
    assert(s =~= pre + enc_u64(vs.len() as u64) + (enc_u64_list(vs) + rest));
    lemma_p_u64_at(pre, vs.len() as u64, enc_u64_list(vs) + rest);
    lemma_auto_spec_u64_to_from_le_bytes();
    assert(s =~= (pre + enc_u64(vs.len() as u64)) + enc_u64_list(vs) + rest);
    lemma_p_u64_list_at(pre + enc_u64(vs.len() as u64), vs, rest);
}

proof fn lemma_p_opt_at(pre: Seq<u8>, o: Option<Seq<u8>>, rest: Seq<u8>)
    requires
        o matches Some(b) ==> bytes_fit(b),
    ensures
        p_opt_bytes(pre + enc_opt_bytes(o) + rest, pre.len() as int) == Some((o, pre.len() as int + enc_opt_bytes(o).len())),
{
    let s = pre + enc_opt_bytes(o) + rest;
    lemma_auto_spec_u64_to_from_le_bytes();
    match o {
        Some(b) => {
            assert(s[pre.len() as int] == 1);
            assert(s =~= (pre + seq![1u8]) + enc_bytes(b) + rest);
            lemma_p_bytes_at(pre + seq![1u8], b, rest);
        },
        None => {
            assert(s[pre.len() as int] == 0);
        },
    }
}

proof fn lemma_p_hash_sound(s: Seq<u8>, off: int)
    requires
        p_hash(s, off) is Some,
    ensures
        ({
            let (h, o) = p_hash(s, off)->0;
            0 <= off && o == off + 32 && o <= s.len() && s.subrange(off, o) == h && h.len() == 32
        }),
{
}

proof fn lemma_p_u64_sound(s: Seq<u8>, off: int)
    requires
        p_u64(s, off) is Some,
    ensures
        ({
            let (x, o) = p_u64(s, off)->0;
            0 <= off && o == off + 8 && o <= s.len() && s.subrange(off, o) == enc_u64(x)
        }),
{
    lemma_auto_spec_u64_to_from_le_bytes();
}

proof fn lemma_p_bytes_sound(s: Seq<u8>, off: int)
    requires
        p_bytes(s, off) is Some,
    ensures
        ({
            let (b, o) = p_bytes(s, off)->0;
            0 <= off <= o <= s.len() && s.subrange(off, o) == enc_bytes(b) && bytes_fit(b)
        }),
{
    lemma_p_u64_sound(s, off);
    let (n, o1) = p_u64(s, off)->0;
    let (b, o) = p_bytes(s, off)->0;
    assert(b.len() == n);
    assert(s.subrange(off, o) =~= s.subrange(off, o1) + s.subrange(o1, o));
}

proof fn lemma_p_u64_list_sound(s: Seq<u8>, off: int, n: nat)
    requires
        0 <= off <= s.len(),
        p_u64_list(s, off, n) is Some,
    ensures
        ({
            let (vs, o) = p_u64_list(s, off, n)->0;
            vs.len() == n && off <= o <= s.len() && s.subrange(off, o) == enc_u64_list(vs)
        }),
    decreases n,
{
    if n == 0 {
        assert(s.subrange(off, off) =~= Seq::<u8>::empty());
    } else {
        lemma_p_u64_list_sound(s, off, (n - 1) as nat);
        let (init, o1) = p_u64_list(s, off, (n - 1) as nat)->0;
        lemma_p_u64_sound(s, o1);
        let (vs, o) = p_u64_list(s, off, n)->0;
        assert(vs.drop_last() =~= init);
        assert(s.subrange(off, o) =~= s.subrange(off, o1) + s.subrange(o1, o));
    }
}

proof fn lemma_p_values_sound(s: Seq<u8>, off: int)
    requires
        p_values(s, off) is Some,
    ensures
        ({
            let (vs, o) = p_values(s, off)->0;
            0 <= off <= o <= s.len() && s.subrange(off, o) == enc_values(vs) && vs.len() <= MAX_TENSOR_VALUES
        }),
{
    lemma_p_u64_sound(s, off);
    let (n, o1) = p_u64(s, off)->0;
    lemma_p_u64_list_sound(s, o1, n as nat);
    let (vs, o) = p_values(s, off)->0;
    assert(s.subrange(off, o) =~= s.subrange(off, o1) + s.subrange(o1, o));
}

proof fn lemma_p_opt_sound(s: Seq<u8>, off: int)
    requires
        p_opt_bytes(s, off) is Some,
    ensures
        ({
            let (b, o) = p_opt_bytes(s, off)->0;
            0 <= off <= o <= s.len() && s.subrange(off, o) == enc_opt_bytes(b) && (b matches Some(p) ==> bytes_fit(p))
        }),
{
    let (b, o) = p_opt_bytes(s, off)->0;
    if s[off] == 0 {
        assert(s.subrange(off, o) =~= seq![0u8]);
    } else {
        lemma_p_bytes_sound(s, off + 1);
        assert(s.subrange(off, o) =~= seq![1u8] + s.subrange(off + 1, o));
    }
}

/// The fields of a well-formed message read back from its encoding, and end
/// where the encoding ends, whatever follows it.
pub proof fn lemma_fields_encoded(m: MessageView, rest: Seq<u8>)
    requires
        wire_valid(m),
    ensures
        message_fields(spec_encode_message(m) + rest) == Some((m, spec_encode_message(m).len() as int)),
{
    let s = spec_encode_message(m) + rest;
    let r = rest;
    lemma_auto_spec_u64_to_from_le_bytes();
    match m {
        MessageView::NewBlock(h) => {
            assert(s =~= seq![1u8] + h + r);
            lemma_p_hash_at(seq![1u8], h, r);
        },
        MessageView::NewBlockHeader { height, block_hash } => {
            assert(s =~= seq![12u8] + enc_u64(height) + (block_hash + r));
            lemma_p_u64_at(seq![12u8], height, block_hash + r);
            lemma_p_hash_at(seq![12u8] + enc_u64(height), block_hash, r);
            assert(s =~= seq![12u8] + enc_u64(height) + block_hash + r);
        },
        MessageView::NewBlockPayload { height, block_hash, payload } => {
            let a = seq![18u8];
            let b = enc_u64(height);
            assert(s =~= a + b + (block_hash + enc_bytes(payload) + r));
            lemma_p_u64_at(a, height, block_hash + enc_bytes(payload) + r);
            assert(s =~= (a + b) + block_hash + (enc_bytes(payload) + r));
            lemma_p_hash_at(a + b, block_hash, enc_bytes(payload) + r);
            assert(s =~= (a + b + block_hash) + enc_bytes(payload) + r);
            lemma_p_bytes_at(a + b + block_hash, payload, r);
        },
        MessageView::NewBlockVotePayload { block_hash, validator, payload } => {
            let a = seq![19u8];
            assert(s =~= a + block_hash + (validator + enc_bytes(payload) + r));
            lemma_p_hash_at(a, block_hash, validator + enc_bytes(payload) + r);
            assert(s =~= (a + block_hash) + validator + (enc_bytes(payload) + r));
            lemma_p_hash_at(a + block_hash, validator, enc_bytes(payload) + r);
            assert(s =~= (a + block_hash + validator) + enc_bytes(payload) + r);
            lemma_p_bytes_at(a + block_hash + validator, payload, r);
        },
        MessageView::NewJob(h) => {
            assert(s =~= seq![2u8] + h + r);
            lemma_p_hash_at(seq![2u8], h, r);
        },
        MessageView::NewJobPayload { job_id, payload } => {
            let a = seq![13u8];
            assert(s =~= a + job_id + (enc_bytes(payload) + r));
            lemma_p_hash_at(a, job_id, enc_bytes(payload) + r);
            assert(s =~= (a + job_id) + enc_bytes(payload) + r);
            lemma_p_bytes_at(a + job_id, payload, r);
        },
        MessageView::NewReceipt(h) => {
            assert(s =~= seq![3u8] + h + r);
            lemma_p_hash_at(seq![3u8], h, r);
        },
        MessageView::NewReceiptPayload { receipt_id, payload } => {
            let a = seq![14u8];
            assert(s =~= a + receipt_id + (enc_bytes(payload) + r));
            lemma_p_hash_at(a, receipt_id, enc_bytes(payload) + r);
            assert(s =~= (a + receipt_id) + enc_bytes(payload) + r);
            lemma_p_bytes_at(a + receipt_id, payload, r);
        },
        MessageView::NewAttestation(h) => {
            assert(s =~= seq![4u8] + h + r);
            lemma_p_hash_at(seq![4u8], h, r);
        },
        MessageView::NewAttestationPayload { attestation_id, payload } => {
            let a = seq![15u8];
            assert(s =~= a + attestation_id + (enc_bytes(payload) + r));
            lemma_p_hash_at(a, attestation_id, enc_bytes(payload) + r);
            assert(s =~= (a + attestation_id) + enc_bytes(payload) + r);
            lemma_p_bytes_at(a + attestation_id, payload, r);
        },
        MessageView::RequestTensorChunk { tensor_id, chunk_index } => {
            let a = seq![5u8];
            assert(s =~= a + tensor_id + (enc_u64(chunk_index) + r));
            lemma_p_hash_at(a, tensor_id, enc_u64(chunk_index) + r);
            assert(s =~= (a + tensor_id) + enc_u64(chunk_index) + r);
            lemma_p_u64_at(a + tensor_id, chunk_index, r);
        },
        MessageView::TensorChunkResponse { tensor_id, chunk_index, bytes } => {
            let a = seq![6u8];
            assert(s =~= a + tensor_id + (enc_u64(chunk_index) + enc_bytes(bytes) + r));
            lemma_p_hash_at(a, tensor_id, enc_u64(chunk_index) + enc_bytes(bytes) + r);
            assert(s =~= (a + tensor_id) + enc_u64(chunk_index) + (enc_bytes(bytes) + r));
            lemma_p_u64_at(a + tensor_id, chunk_index, enc_bytes(bytes) + r);
            assert(s =~= (a + tensor_id + enc_u64(chunk_index)) + enc_bytes(bytes) + r);
            lemma_p_bytes_at(a + tensor_id + enc_u64(chunk_index), bytes, r);
        },
        MessageView::RequestTensorRow { tensor_id, row_index } => {
            let a = seq![7u8];
            assert(s =~= a + tensor_id + (enc_u64(row_index) + r));
            lemma_p_hash_at(a, tensor_id, enc_u64(row_index) + r);
            assert(s =~= (a + tensor_id) + enc_u64(row_index) + r);
            lemma_p_u64_at(a + tensor_id, row_index, r);
        },
        MessageView::TensorRowResponse { tensor_id, row_index, values } => {
            let a = seq![8u8];
            assert(s =~= a + tensor_id + (enc_u64(row_index) + enc_values(values) + r));
            lemma_p_hash_at(a, tensor_id, enc_u64(row_index) + enc_values(values) + r);
            assert(s =~= (a + tensor_id) + enc_u64(row_index) + (enc_values(values) + r));
            lemma_p_u64_at(a + tensor_id, row_index, enc_values(values) + r);
            assert(s =~= (a + tensor_id + enc_u64(row_index)) + enc_values(values) + r);
            lemma_p_values_at(a + tensor_id + enc_u64(row_index), values, r);
            lemma_enc_u64_list_len(values);
        },
        MessageView::RequestTensorByCommitmentRoot { commitment_root } => {
            assert(s =~= seq![16u8] + commitment_root + r);
            lemma_p_hash_at(seq![16u8], commitment_root, r);
        },
        MessageView::TensorByCommitmentRootResponse { commitment_root, payload } => {
            let a = seq![17u8];
            assert(s =~= a + commitment_root + (enc_opt_bytes(payload) + r));
            lemma_p_hash_at(a, commitment_root, enc_opt_bytes(payload) + r);
            assert(s =~= (a + commitment_root) + enc_opt_bytes(payload) + r);
            lemma_p_opt_at(a + commitment_root, payload, r);
        },
        MessageView::RequestProgram(h) => {
            assert(s =~= seq![9u8] + h + r);
            lemma_p_hash_at(seq![9u8], h, r);
        },
        MessageView::ProgramResponse { program_hash, bytes } => {
            let a = seq![10u8];
            assert(s =~= a + program_hash + (enc_bytes(bytes) + r));
            lemma_p_hash_at(a, program_hash, enc_bytes(bytes) + r);
            assert(s =~= (a + program_hash) + enc_bytes(bytes) + r);
            lemma_p_bytes_at(a + program_hash, bytes, r);
        },
        MessageView::PeerInfo { address } => {
            assert(s =~= seq![11u8] + address + r);
            lemma_p_hash_at(seq![11u8], address, r);
        },
    }
}

/// A well-formed message reads back from its encoding.
pub proof fn lemma_decode_encoded(m: MessageView)
    requires
        wire_valid(m),
    ensures
        spec_decode_message(spec_encode_message(m)) == Some(m),
{
    lemma_fields_encoded(m, Seq::empty());
    assert(spec_encode_message(m) + Seq::<u8>::empty() =~= spec_encode_message(m));
}

proof fn lemma_head(s: Seq<u8>, o: int)
    requires
        1 <= o <= s.len(),
    ensures
        s.subrange(0, o) == seq![s[0]] + s.subrange(1, o),
{
    assert(s.subrange(0, o) =~= seq![s[0]] + s.subrange(1, o));
}

proof fn lemma_join(s: Seq<u8>, a: int, b: int, c: int)
    requires
        0 <= a <= b <= c <= s.len(),
    ensures
        s.subrange(a, c) == s.subrange(a, b) + s.subrange(b, c),
{
    assert(s.subrange(a, c) =~= s.subrange(a, b) + s.subrange(b, c));
}

proof fn lemma_whole(s: Seq<u8>)
    ensures
        s.subrange(0, s.len() as int) == s,
{
    assert(s.subrange(0, s.len() as int) =~= s);
}

/// What decodes was the encoding of a well-formed message.
pub proof fn lemma_encode_decoded(s: Seq<u8>)
    requires
        spec_decode_message(s) is Some,
    ensures
        wire_valid(spec_decode_message(s)->0),
        spec_encode_message(spec_decode_message(s)->0) == s,
{
    lemma_whole(s);
    let t = s[0];
    let n = s.len() as int;
    if t == 1 || t == 2 || t == 3 || t == 4 || t == 16 || t == 9 || t == 11 {
        lemma_p_hash_sound(s, 1);
        lemma_head(s, n);
    } else if t == 12 {
        lemma_p_u64_sound(s, 1);
        let o1 = (p_u64(s, 1)->0).1;
        lemma_p_hash_sound(s, o1);
        lemma_head(s, n);
        lemma_join(s, 1, o1, n);
    } else if t == 18 {
        lemma_p_u64_sound(s, 1);
        let o1 = (p_u64(s, 1)->0).1;
        lemma_p_hash_sound(s, o1);
        let o2 = (p_hash(s, o1)->0).1;
        lemma_p_bytes_sound(s, o2);
        lemma_head(s, n);
        lemma_join(s, 1, o1, n);
        lemma_join(s, o1, o2, n);
    } else if t == 19 {
        lemma_p_hash_sound(s, 1);
        let o1 = (p_hash(s, 1)->0).1;
        lemma_p_hash_sound(s, o1);
        let o2 = (p_hash(s, o1)->0).1;
        lemma_p_bytes_sound(s, o2);
        lemma_head(s, n);
        lemma_join(s, 1, o1, n);
        lemma_join(s, o1, o2, n);
    } else if t == 13 || t == 14 || t == 15 || t == 10 {
        lemma_p_hash_sound(s, 1);
        let o1 = (p_hash(s, 1)->0).1;
        lemma_p_bytes_sound(s, o1);
        lemma_head(s, n);
        lemma_join(s, 1, o1, n);
    } else if t == 5 || t == 7 {
        lemma_p_hash_sound(s, 1);
        let o1 = (p_hash(s, 1)->0).1;
        lemma_p_u64_sound(s, o1);
        lemma_head(s, n);
        lemma_join(s, 1, o1, n);
    } else if t == 6 {
        lemma_p_hash_sound(s, 1);
        let o1 = (p_hash(s, 1)->0).1;
        lemma_p_u64_sound(s, o1);
        let o2 = (p_u64(s, o1)->0).1;
        lemma_p_bytes_sound(s, o2);
        lemma_head(s, n);
        lemma_join(s, 1, o1, n);
        lemma_join(s, o1, o2, n);
    } else if t == 8 {
        lemma_p_hash_sound(s, 1);
        let o1 = (p_hash(s, 1)->0).1;
        lemma_p_u64_sound(s, o1);
        let o2 = (p_u64(s, o1)->0).1;
        lemma_p_values_sound(s, o2);
        lemma_head(s, n);
        lemma_join(s, 1, o1, n);
        lemma_join(s, o1, o2, n);
    } else if t == 17 {
        lemma_p_hash_sound(s, 1);
        let o1 = (p_hash(s, 1)->0).1;
        lemma_p_opt_sound(s, o1);
        lemma_head(s, n);
        lemma_join(s, 1, o1, n);
    }
}

/// The wire encoding is one-to-one on well-formed messages: two messages
/// with the same bytes are the same message.
pub proof fn lemma_message_encoding_injective(a: MessageView, b: MessageView)
    requires
        wire_valid(a),
        wire_valid(b),
        spec_encode_message(a) == spec_encode_message(b),
    ensures
        a == b,
{
    lemma_decode_encoded(a);
    lemma_decode_encoded(b);
}

// ---------------------------------------------------------------------------
// Writers.

pub(crate) fn write_hash(out: &mut Vec<u8>, hash: &Hash32)
    ensures
        final(out)@ == old(out)@ + hash@,
{
    let mut i: usize = 0;
    while i < 32
        invariant
            i <= 32,
            hash@.len() == 32,
            out@ == old(out)@ + hash@.subrange(0, i as int),
        decreases 32 - i,
    {
        out.push(hash[i]);
        proof {
            assert(hash@.subrange(0, i + 1) =~= hash@.subrange(0, i as int).push(hash@[i as int]));
        }
        i += 1;
    }
    assert(hash@.subrange(0, 32) =~= hash@);
}

pub(crate) fn write_u64(out: &mut Vec<u8>, value: u64)
    ensures
        final(out)@ == old(out)@ + enc_u64(value),
{
    let bytes = u64_to_le_bytes(value);
    write_slice(out, bytes.as_slice());
}

pub(crate) fn write_slice(out: &mut Vec<u8>, bytes: &[u8])
    ensures
        final(out)@ == old(out)@ + bytes@,
{
    let mut i: usize = 0;
    while i < bytes.len()
        invariant
            i <= bytes@.len(),
            out@ == old(out)@ + bytes@.subrange(0, i as int),
        decreases bytes@.len() - i,
    {
        out.push(bytes[i]);
        proof {
            assert(bytes@.subrange(0, i + 1) =~= bytes@.subrange(0, i as int).push(bytes@[i as int]));
        }
        i += 1;
    }
    assert(bytes@.subrange(0, bytes@.len() as int) =~= bytes@);
}

pub(crate) fn write_bytes(out: &mut Vec<u8>, bytes: &[u8])
    ensures
        final(out)@ == old(out)@ + enc_bytes(bytes@),
{
    write_u64(out, bytes.len() as u64);
    write_slice(out, bytes);
    assert(final(out)@ =~= old(out)@ + enc_bytes(bytes@));
}

fn write_optional_bytes(out: &mut Vec<u8>, bytes: &Option<Vec<u8>>)
    ensures
        final(out)@ == old(out)@ + enc_opt_bytes(match bytes {
            Some(b) => Some(b@),
            None => None,
        }),
{
    match bytes {
        Some(b) => {
            out.push(1);
            let ghost mid = out@;
            write_bytes(out, b.as_slice());
            assert(final(out)@ =~= old(out)@ + (seq![1u8] + enc_bytes(b@)));
        },
        None => {
            out.push(0);
            assert(final(out)@ =~= old(out)@ + seq![0u8]);
        },
    }
}

fn write_values(out: &mut Vec<u8>, values: &Vec<u64>)
    ensures
        final(out)@ == old(out)@ + enc_values(values@),
{
    write_u64(out, values.len() as u64);
    let ghost start = out@;
    let mut i: usize = 0;
    while i < values.len()
        invariant
            i <= values@.len(),
            out@ == start + enc_u64_list(values@.subrange(0, i as int)),
        decreases values@.len() - i,
    {
        write_u64(out, values[i]);
        proof {
            let vs = values@.subrange(0, i + 1);
            assert(vs.drop_last() =~= values@.subrange(0, i as int));
        }
        i += 1;
    }
    assert(values@.subrange(0, values@.len() as int) =~= values@);
    assert(final(out)@ =~= old(out)@ + enc_values(values@));
}

/// The wire bytes of a message: its tag, then its fields.
pub fn encode_message(message: &P2pMessage) -> (out: Vec<u8>)
    ensures
        out@ == spec_encode_message(message@),
{
    let mut out: Vec<u8> = Vec::new();
    match message {
        P2pMessage::NewBlock(hash) => {
            out.push(1);
            write_hash(&mut out, hash);
        },
        P2pMessage::NewBlockHeader { height, block_hash } => {
            out.push(12);
            write_u64(&mut out, *height);
            write_hash(&mut out, block_hash);
        },
        P2pMessage::NewBlockPayload { height, block_hash, payload } => {
            out.push(18);
            write_u64(&mut out, *height);
            write_hash(&mut out, block_hash);
            write_bytes(&mut out, payload.as_slice());
        },
        P2pMessage::NewBlockVotePayload { block_hash, validator, payload } => {
            out.push(19);
            write_hash(&mut out, block_hash);
            write_hash(&mut out, validator);
            write_bytes(&mut out, payload.as_slice());
        },
        P2pMessage::NewJob(hash) => {
            out.push(2);
            write_hash(&mut out, hash);
        },
        P2pMessage::NewJobPayload { job_id, payload } => {
            out.push(13);
            write_hash(&mut out, job_id);
            write_bytes(&mut out, payload.as_slice());
        },
        P2pMessage::NewReceipt(hash) => {
            out.push(3);
            write_hash(&mut out, hash);
        },
        P2pMessage::NewReceiptPayload { receipt_id, payload } => {
            out.push(14);
            write_hash(&mut out, receipt_id);
            write_bytes(&mut out, payload.as_slice());
        },
        P2pMessage::NewAttestation(hash) => {
            out.push(4);
            write_hash(&mut out, hash);
        },
        P2pMessage::NewAttestationPayload { attestation_id, payload } => {
            out.push(15);
            write_hash(&mut out, attestation_id);
            write_bytes(&mut out, payload.as_slice());
        },
        P2pMessage::RequestTensorChunk { tensor_id, chunk_index } => {
            out.push(5);
            write_hash(&mut out, tensor_id);
            write_u64(&mut out, *chunk_index);
        },
        P2pMessage::TensorChunkResponse { tensor_id, chunk_index, bytes } => {
            out.push(6);
            write_hash(&mut out, tensor_id);
            write_u64(&mut out, *chunk_index);
            write_bytes(&mut out, bytes.as_slice());
        },
        P2pMessage::RequestTensorRow { tensor_id, row_index } => {
            out.push(7);
            write_hash(&mut out, tensor_id);
            write_u64(&mut out, *row_index);
        },
        P2pMessage::TensorRowResponse { tensor_id, row_index, values } => {
            out.push(8);
            write_hash(&mut out, tensor_id);
            write_u64(&mut out, *row_index);
            write_values(&mut out, values);
        },
        P2pMessage::RequestTensorByCommitmentRoot { commitment_root } => {
            out.push(16);
            write_hash(&mut out, commitment_root);
        },
        P2pMessage::TensorByCommitmentRootResponse { commitment_root, payload } => {
            out.push(17);
            write_hash(&mut out, commitment_root);
            write_optional_bytes(&mut out, payload);
        },
        P2pMessage::RequestProgram(hash) => {
            out.push(9);
            write_hash(&mut out, hash);
        },
        P2pMessage::ProgramResponse { program_hash, bytes } => {
            out.push(10);
            write_hash(&mut out, program_hash);
            write_bytes(&mut out, bytes.as_slice());
        },
        P2pMessage::PeerInfo { address } => {
            out.push(11);
            write_hash(&mut out, address);
        },
    }
    assert(out@ =~= spec_encode_message(message@));
    out
}

// ---------------------------------------------------------------------------
// Reader.

pub(crate) struct Reader<'a> {
    pub(crate) input: &'a [u8],
    pub(crate) offset: usize,
}

fn short() -> (e: TvmError)
    ensures
        e == TvmError::InvalidReceipt("short p2p message"),
{
    TvmError::InvalidReceipt("short p2p message")
}

impl<'a> Reader<'a> {
    pub(crate) fn new(input: &'a [u8]) -> (r: Self)
        ensures
            r.input@ == input@,
            r.offset == 0,
    {
        Reader { input, offset: 0 }
    }

    pub(crate) fn read_u8(&mut self) -> (out: Result<u8>)
        requires
            old(self).offset <= old(self).input@.len(),
        ensures
            final(self).input@ == old(self).input@,
            final(self).offset <= final(self).input@.len(),
            old(self).offset < old(self).input@.len() ==> out == Ok::<u8, TvmError>(old(self).input@[old(self).offset as int])
                && final(self).offset == old(self).offset + 1,
            old(self).offset >= old(self).input@.len() ==> out == Err::<u8, TvmError>(short_input()),
    {
        if self.offset >= self.input.len() {
            return Err(short());
        }
        let byte = self.input[self.offset];
        self.offset = self.offset + 1;
        Ok(byte)
    }

    fn read_exact(&mut self, len: usize) -> (out: Result<&'a [u8]>)
        requires
            old(self).offset <= old(self).input@.len(),
        ensures
            final(self).input@ == old(self).input@,
            final(self).offset <= final(self).input@.len(),
            old(self).offset + len <= old(self).input@.len() ==> (out matches Ok(b)
                && b@ == old(self).input@.subrange(old(self).offset as int, old(self).offset + len)
                && final(self).offset == old(self).offset + len),
            old(self).offset + len > old(self).input@.len() ==> out == Err::<&'a [u8], TvmError>(short_input()),
    {
        if len > self.input.len() - self.offset {
            return Err(short());
        }
        let end = self.offset + len;
        let bytes = &self.input[self.offset..end];
        self.offset = end;
        Ok(bytes)
    }

    pub(crate) fn read_u64(&mut self) -> (out: Result<u64>)
        requires
            old(self).offset <= old(self).input@.len(),
        ensures
            final(self).input@ == old(self).input@,
            final(self).offset <= final(self).input@.len(),
            match p_u64(old(self).input@, old(self).offset as int) {
                Some((v, o)) => out == Ok::<u64, TvmError>(v) && final(self).offset == o,
                None => out == Err::<u64, TvmError>(short_input()),
            },
    {
        let bytes = self.read_exact(8)?;
        Ok(u64_from_le_bytes(bytes))
    }

    pub(crate) fn read_hash(&mut self) -> (out: Result<Hash32>)
        requires
            old(self).offset <= old(self).input@.len(),
        ensures
            final(self).input@ == old(self).input@,
            final(self).offset <= final(self).input@.len(),
            match p_hash(old(self).input@, old(self).offset as int) {
                Some((h, o)) => (out matches Ok(v) && v@ == h) && final(self).offset == o,
                None => out is Err,
            },
    {
        let bytes = self.read_exact(32)?;
        let mut out = [0u8; 32];
        let mut i: usize = 0;
        while i < 32
            invariant
                i <= 32,
                bytes@.len() == 32,
                out@.len() == 32,
                forall|j: int| 0 <= j < i ==> out@[j] == bytes@[j],
            decreases 32 - i,
        {
            out.set(i, bytes[i]);
            i += 1;
        }
        assert(out@ =~= bytes@);
        Ok(out)
    }

    pub(crate) fn read_bytes(&mut self) -> (out: Result<Vec<u8>>)
        requires
            old(self).offset <= old(self).input@.len(),
        ensures
            final(self).input@ == old(self).input@,
            final(self).offset <= final(self).input@.len(),
            match p_bytes(old(self).input@, old(self).offset as int) {
                Some((b, o)) => (out matches Ok(v) && v@ == b) && final(self).offset == o,
                None => out is Err,
            },
    {
        let len = self.read_u64()?;
        if len > MAX_WIRE_BYTES as u64 {
            return Err(TvmError::InvalidReceipt("p2p byte payload too large"));
        }
        let bytes = self.read_exact(len as usize)?;
        Ok(vstd::slice::slice_to_vec(bytes))
    }

    fn read_values(&mut self) -> (out: Result<Vec<u64>>)
        requires
            old(self).offset <= old(self).input@.len(),
        ensures
            final(self).input@ == old(self).input@,
            final(self).offset <= final(self).input@.len(),
            match p_values(old(self).input@, old(self).offset as int) {
                Some((v, o)) => (out matches Ok(w) && w@ == v) && final(self).offset == o,
                None => out is Err,
            },
    {
        let len = self.read_u64()?;
        if len > MAX_TENSOR_VALUES as u64 {
            return Err(TvmError::InvalidReceipt("tensor row response too large"));
        }
        let ghost start = self.offset as int;
        assert(p_values(old(self).input@, old(self).offset as int) == p_u64_list(self.input@, start, len as nat));
        let mut values: Vec<u64> = Vec::new();
        let mut i: u64 = 0;
        while i < len
            invariant
                self.input@ == old(self).input@,
                self.offset <= self.input@.len(),
                i <= len,
                p_values(old(self).input@, old(self).offset as int) == p_u64_list(self.input@, start, len as nat),
                p_u64_list(self.input@, start, i as nat) == Some((values@, self.offset as int)),
            decreases len - i,
        {
            let ghost before = self.offset as int;
            assert(p_u64_list(self.input@, start, i as nat) == Some((values@, before)));
            let v = match self.read_u64() {
                Ok(v) => v,
                Err(e) => {
                    proof {
                        assert(p_u64(self.input@, before) is None);
                        assert(((i + 1) as nat - 1) as nat == i as nat);
                        assert(p_u64_list(self.input@, start, (i + 1) as nat) is None);
                        lemma_u64_list_none_extends(self.input@, start, (i + 1) as nat, len as nat);
                    }
                    return Err(e);
                },
            };
            values.push(v);
            i += 1;
        }
        Ok(values)
    }

    fn read_optional_bytes(&mut self) -> (out: Result<Option<Vec<u8>>>)
        requires
            old(self).offset <= old(self).input@.len(),
        ensures
            final(self).input@ == old(self).input@,
            final(self).offset <= final(self).input@.len(),
            match p_opt_bytes(old(self).input@, old(self).offset as int) {
                Some((b, o)) => (out matches Ok(v) && match v {
                    Some(w) => b == Some(w@),
                    None => b is None,
                }) && final(self).offset == o,
                None => out is Err,
            },
    {
        match self.read_u8()? {
            0 => Ok(None),
            1 => {
                let bytes = self.read_bytes()?;
                Ok(Some(bytes))
            },
            _ => Err(TvmError::InvalidReceipt("invalid optional bytes tag")),
        }
    }

    pub(crate) fn is_done(&self) -> (done: bool)
        ensures
            done == (self.offset == self.input@.len()),
    {
        self.offset == self.input.len()
    }
}

proof fn lemma_u64_list_none_extends(s: Seq<u8>, off: int, n: nat, m: nat)
    requires
        n <= m,
        p_u64_list(s, off, n) is None,
    ensures
        p_u64_list(s, off, m) is None,
    decreases m - n,
{
    if n < m {
        assert(p_u64_list(s, off, (n + 1) as nat) is None);
        lemma_u64_list_none_extends(s, off, n + 1, m);
    }
}

/// Whether a byte is the tag of a kind of message.
pub open spec fn known_message_tag(tag: u8) -> bool {
    1 <= tag <= 19
}

fn decode_body(reader: &mut Reader, tag: u8) -> (out: Result<P2pMessage>)
    requires
        old(reader).offset == 1,
        old(reader).input@.len() >= 1,
        old(reader).input@[0] == tag,
    ensures
        !known_message_tag(tag) ==> out == Err::<P2pMessage, TvmError>(TvmError::InvalidReceipt("unknown p2p message tag")),
        final(reader).input@ == old(reader).input@,
        final(reader).offset <= final(reader).input@.len(),
        match message_fields(old(reader).input@) {
            Some((v, o)) => out matches Ok(m) && m@ == v && final(reader).offset == o,
            None => out is Err,
        },
{
    let ghost s = reader.input@;
    if tag == 1 {
        Ok(P2pMessage::NewBlock(reader.read_hash()?))
    } else if tag == 12 {
        let height = reader.read_u64()?;
        let block_hash = reader.read_hash()?;
        Ok(P2pMessage::NewBlockHeader { height, block_hash })
    } else if tag == 18 {
        let height = reader.read_u64()?;
        let block_hash = reader.read_hash()?;
        let payload = reader.read_bytes()?;
        Ok(P2pMessage::NewBlockPayload { height, block_hash, payload })
    } else if tag == 19 {
        let block_hash = reader.read_hash()?;
        let validator = reader.read_hash()?;
        let payload = reader.read_bytes()?;
        Ok(P2pMessage::NewBlockVotePayload { block_hash, validator, payload })
    } else if tag == 2 {
        Ok(P2pMessage::NewJob(reader.read_hash()?))
    } else if tag == 13 {
        let job_id = reader.read_hash()?;
        let payload = reader.read_bytes()?;
        Ok(P2pMessage::NewJobPayload { job_id, payload })
    } else if tag == 3 {
        Ok(P2pMessage::NewReceipt(reader.read_hash()?))
    } else if tag == 14 {
        let receipt_id = reader.read_hash()?;
        let payload = reader.read_bytes()?;
        Ok(P2pMessage::NewReceiptPayload { receipt_id, payload })
    } else if tag == 4 {
        Ok(P2pMessage::NewAttestation(reader.read_hash()?))
    } else if tag == 15 {
        let attestation_id = reader.read_hash()?;
        let payload = reader.read_bytes()?;
        Ok(P2pMessage::NewAttestationPayload { attestation_id, payload })
    } else if tag == 5 {
        let tensor_id = reader.read_hash()?;
        let chunk_index = reader.read_u64()?;
        Ok(P2pMessage::RequestTensorChunk { tensor_id, chunk_index })
    } else if tag == 6 {
        let tensor_id = reader.read_hash()?;
        let chunk_index = reader.read_u64()?;
        let bytes = reader.read_bytes()?;
        Ok(P2pMessage::TensorChunkResponse { tensor_id, chunk_index, bytes })
    } else if tag == 7 {
        let tensor_id = reader.read_hash()?;
        let row_index = reader.read_u64()?;
        Ok(P2pMessage::RequestTensorRow { tensor_id, row_index })
    } else if tag == 8 {
        let tensor_id = reader.read_hash()?;
        let row_index = reader.read_u64()?;
        let values = reader.read_values()?;
        Ok(P2pMessage::TensorRowResponse { tensor_id, row_index, values })
    } else if tag == 16 {
        let commitment_root = reader.read_hash()?;
        Ok(P2pMessage::RequestTensorByCommitmentRoot { commitment_root })
    } else if tag == 17 {
        let commitment_root = reader.read_hash()?;
        let payload = reader.read_optional_bytes()?;
        Ok(P2pMessage::TensorByCommitmentRootResponse { commitment_root, payload })
    } else if tag == 9 {
        Ok(P2pMessage::RequestProgram(reader.read_hash()?))
    } else if tag == 10 {
        let program_hash = reader.read_hash()?;
        let bytes = reader.read_bytes()?;
        Ok(P2pMessage::ProgramResponse { program_hash, bytes })
    } else if tag == 11 {
        let address = reader.read_hash()?;
        Ok(P2pMessage::PeerInfo { address })
    } else {
        Err(TvmError::InvalidReceipt("unknown p2p message tag"))
    }
}

fn decode_operational(input: &[u8]) -> (out: Result<P2pMessage>)
    ensures
        input@.len() == 0 ==> out == Err::<P2pMessage, TvmError>(TvmError::InvalidReceipt("short p2p message")),
        input@.len() > 0 && !known_message_tag(input@[0]) ==> out == Err::<P2pMessage, TvmError>(
            TvmError::InvalidReceipt("unknown p2p message tag"),
        ),
        match spec_decode_message(input@) {
            Some(v) => out matches Ok(m) && m@ == v,
            None => out is Err,
        },
        (message_fields(input@) matches Some((v, o)) && o != input@.len()) ==> out == Err::<P2pMessage, TvmError>(
            TvmError::InvalidReceipt("trailing p2p bytes"),
        ),
{
    let mut reader = Reader::new(input);
    let ghost o2 = reader.offset as int;
    let tag = reader.read_u8()?;
    let message = decode_body(&mut reader, tag)?;
    if !reader.is_done() {
        return Err(TvmError::InvalidReceipt("trailing p2p bytes"));
    }
    Ok(message)
}

/// Reads a message from its wire bytes. It succeeds exactly on the encodings
/// of well-formed messages, and then gives back the message encoded. Empty
/// input is refused as short, an unknown first byte as an unknown tag, and an
/// encoding followed by more bytes as trailing bytes.
pub fn decode_message(input: &[u8]) -> (out: Result<P2pMessage>)
    ensures
        match out {
            Ok(m) => wire_valid(m@) && spec_encode_message(m@) == input@,
            Err(e) => (e matches TvmError::InvalidReceipt(_))
                && forall|v: MessageView| wire_valid(v) ==> spec_encode_message(v) != input@,
        },
        input@.len() == 0 ==> out == Err::<P2pMessage, TvmError>(TvmError::InvalidReceipt("short p2p message")),
        input@.len() > 0 && !known_message_tag(input@[0]) ==> out == Err::<P2pMessage, TvmError>(
            TvmError::InvalidReceipt("unknown p2p message tag"),
        ),
        forall|v: MessageView, rest: Seq<u8>|
            #![trigger spec_encode_message(v) + rest]
            wire_valid(v) && rest.len() > 0 && input@ == spec_encode_message(v) + rest
                ==> out == Err::<P2pMessage, TvmError>(TvmError::InvalidReceipt("trailing p2p bytes")),
{
    let out = decode_operational(input);
    proof {
        match spec_decode_message(input@) {
            Some(v) => lemma_encode_decoded(input@),
            None => {
                assert forall|v: MessageView| wire_valid(v) implies spec_encode_message(v) != input@ by {
                    if spec_encode_message(v) == input@ {
                        lemma_decode_encoded(v);
                    }
                }
            },
        }
    }
    assert forall|v: MessageView, rest: Seq<u8>|
        wire_valid(v) && rest.len() > 0 && input@ == #[trigger] (spec_encode_message(v) + rest)
        implies out == Err::<P2pMessage, TvmError>(TvmError::InvalidReceipt("trailing p2p bytes")) by {
        lemma_fields_encoded(v, rest);
    }
    match out {
        Ok(m) => Ok(m),
        Err(e) => Err(invalid_receipt_of(e)),
    }
}

fn invalid_receipt_of(e: TvmError) -> (out: TvmError)
    ensures
        out matches TvmError::InvalidReceipt(_),
        (e matches TvmError::InvalidReceipt(_)) ==> out == e,
{
    match e {
        TvmError::InvalidReceipt(message) => TvmError::InvalidReceipt(message),
        _ => TvmError::InvalidReceipt("invalid p2p message"),
    }
}

// ---------------------------------------------------------------------------
// Routing.

/// The gossip topic that carries a message; requests and responses travel by
/// request-response and have none.
pub open spec fn spec_gossip_topic(m: MessageView) -> Option<GossipTopic> {
    match m {
        MessageView::NewBlock(_) | MessageView::NewBlockHeader { .. } | MessageView::NewBlockPayload { .. }
        | MessageView::NewBlockVotePayload { .. } => Some(GossipTopic::Blocks),
        MessageView::NewJob(_) | MessageView::NewJobPayload { .. } => Some(GossipTopic::Jobs),
        MessageView::NewReceipt(_) | MessageView::NewReceiptPayload { .. } => Some(GossipTopic::Receipts),
        MessageView::NewAttestation(_) | MessageView::NewAttestationPayload { .. } => Some(GossipTopic::Attestations),
        MessageView::PeerInfo { .. } => Some(GossipTopic::Peers),
        _ => None,
    }
}

/// The request-response protocol that carries a message; announcements are
/// gossiped and have none.
pub open spec fn spec_request_response_protocol(m: MessageView) -> Option<RequestResponseProtocol> {
    match m {
        MessageView::RequestTensorChunk { .. } | MessageView::TensorChunkResponse { .. } => Some(RequestResponseProtocol::TensorChunk),
        MessageView::RequestTensorRow { .. } | MessageView::TensorRowResponse { .. } => Some(RequestResponseProtocol::TensorRow),
        MessageView::RequestTensorByCommitmentRoot { .. } | MessageView::TensorByCommitmentRootResponse { .. } => Some(RequestResponseProtocol::TensorByRoot),
        MessageView::RequestProgram(_) | MessageView::ProgramResponse { .. } => Some(RequestResponseProtocol::Program),
        _ => None,
    }
}

/// Whether a message is a request of a request-response protocol.
pub open spec fn spec_is_request(m: MessageView) -> bool {
    match m {
        MessageView::RequestTensorChunk { .. } | MessageView::RequestTensorRow { .. }
        | MessageView::RequestTensorByCommitmentRoot { .. } | MessageView::RequestProgram(_) => true,
        _ => false,
    }
}

/// The gossip topic of a message, if it is an announcement.
pub fn gossip_topic_for_message(message: &P2pMessage) -> (out: Option<GossipTopic>)
    ensures
        out == spec_gossip_topic(message@),
{
    match message {
        P2pMessage::NewBlock(_) | P2pMessage::NewBlockHeader { .. } | P2pMessage::NewBlockPayload { .. }
        | P2pMessage::NewBlockVotePayload { .. } => Some(GossipTopic::Blocks),
        P2pMessage::NewJob(_) | P2pMessage::NewJobPayload { .. } => Some(GossipTopic::Jobs),
        P2pMessage::NewReceipt(_) | P2pMessage::NewReceiptPayload { .. } => Some(GossipTopic::Receipts),
        P2pMessage::NewAttestation(_) | P2pMessage::NewAttestationPayload { .. } => Some(GossipTopic::Attestations),
        P2pMessage::PeerInfo { .. } => Some(GossipTopic::Peers),
        P2pMessage::RequestTensorChunk { .. } | P2pMessage::TensorChunkResponse { .. }
        | P2pMessage::RequestTensorRow { .. } | P2pMessage::TensorRowResponse { .. }
        | P2pMessage::RequestTensorByCommitmentRoot { .. } | P2pMessage::TensorByCommitmentRootResponse { .. }
        | P2pMessage::RequestProgram(_) | P2pMessage::ProgramResponse { .. } => None,
    }
}

/// A gossip announcement as it is published: its topic and its encoding;
/// any other message is refused.
pub fn encode_gossipsub_message(message: &P2pMessage) -> (out: Result<(GossipTopic, Vec<u8>)>)
    ensures
        match spec_gossip_topic(message@) {
            Some(t) => out matches Ok((topic, bytes)) && topic == t && bytes@ == spec_encode_message(message@),
            None => out == Err::<(GossipTopic, Vec<u8>), TvmError>(
                TvmError::InvalidReceipt("message is not a gossipsub announcement"),
            ),
        },
{
    match gossip_topic_for_message(message) {
        Some(topic) => Ok((topic, encode_message(message))),
        None => Err(TvmError::InvalidReceipt("message is not a gossipsub announcement")),
    }
}

/// The request-response protocol of a message, if it is a request or a
/// response.
pub fn request_response_protocol_for_message(message: &P2pMessage) -> (out: Option<RequestResponseProtocol>)
    ensures
        out == spec_request_response_protocol(message@),
{
    match message {
        P2pMessage::RequestTensorChunk { .. } | P2pMessage::TensorChunkResponse { .. } => Some(RequestResponseProtocol::TensorChunk),
        P2pMessage::RequestTensorRow { .. } | P2pMessage::TensorRowResponse { .. } => Some(RequestResponseProtocol::TensorRow),
        P2pMessage::RequestTensorByCommitmentRoot { .. } | P2pMessage::TensorByCommitmentRootResponse { .. } => Some(RequestResponseProtocol::TensorByRoot),
        P2pMessage::RequestProgram(_) | P2pMessage::ProgramResponse { .. } => Some(RequestResponseProtocol::Program),
        P2pMessage::NewBlock(_) | P2pMessage::NewBlockHeader { .. } | P2pMessage::NewBlockPayload { .. }
        | P2pMessage::NewBlockVotePayload { .. } | P2pMessage::NewJob(_) | P2pMessage::NewJobPayload { .. }
        | P2pMessage::NewReceipt(_) | P2pMessage::NewReceiptPayload { .. } | P2pMessage::NewAttestation(_)
        | P2pMessage::NewAttestationPayload { .. } | P2pMessage::PeerInfo { .. } => None,
    }
}

/// Whether a message is a request of a request-response protocol.
pub fn is_request_response_request(message: &P2pMessage) -> (out: bool)
    ensures
        out == spec_is_request(message@),
{
    match message {
        P2pMessage::RequestTensorChunk { .. } | P2pMessage::RequestTensorRow { .. }
        | P2pMessage::RequestTensorByCommitmentRoot { .. } | P2pMessage::RequestProgram(_) => true,
        _ => false,
    }
}

/// Every message travels one way: by gossip or by request-response, never
/// both and never neither.
pub proof fn lemma_message_has_one_transport(m: MessageView)
    ensures
        spec_gossip_topic(m) is Some != spec_request_response_protocol(m) is Some,
        spec_is_request(m) ==> spec_request_response_protocol(m) is Some,
{
}

/// Each announcement is gossiped on the topic of the kind of thing it
/// announces, and each topic carries that kind alone: blocks (announcements,
/// headers, payloads and votes), jobs, receipts and attestations (their
/// announcements and payloads), and peer information.
pub proof fn lemma_gossip_topic_by_kind(m: MessageView)
    ensures
        spec_gossip_topic(m) == Some(GossipTopic::Blocks) <==> (m is NewBlock || m is NewBlockHeader
            || m is NewBlockPayload || m is NewBlockVotePayload),
        spec_gossip_topic(m) == Some(GossipTopic::Jobs) <==> (m is NewJob || m is NewJobPayload),
        spec_gossip_topic(m) == Some(GossipTopic::Receipts) <==> (m is NewReceipt || m is NewReceiptPayload),
        spec_gossip_topic(m) == Some(GossipTopic::Attestations) <==> (m is NewAttestation
            || m is NewAttestationPayload),
        spec_gossip_topic(m) == Some(GossipTopic::Peers) <==> m is PeerInfo,
{
}

/// Each request and its response travel on the protocol of what is asked
/// for, and each protocol carries that pair alone.
pub proof fn lemma_request_response_protocol_by_kind(m: MessageView)
    ensures
        spec_request_response_protocol(m) == Some(RequestResponseProtocol::TensorChunk) <==> (m is RequestTensorChunk
            || m is TensorChunkResponse),
        spec_request_response_protocol(m) == Some(RequestResponseProtocol::TensorRow) <==> (m is RequestTensorRow
            || m is TensorRowResponse),
        spec_request_response_protocol(m) == Some(RequestResponseProtocol::TensorByRoot) <==> (
            m is RequestTensorByCommitmentRoot || m is TensorByCommitmentRootResponse),
        spec_request_response_protocol(m) == Some(RequestResponseProtocol::Program) <==> (m is RequestProgram
            || m is ProgramResponse),
{
}

// ---------------------------------------------------------------------------
// Tensor payloads.

/// Most dimensions a tensor payload may carry.
pub const MAX_TENSOR_SHAPE_DIMS: usize = 16;

/// The dimensions of a shape as `u64` values.
pub open spec fn dims_u64(shape: Seq<usize>) -> Seq<u64> {
    shape.map_values(|d: usize| d as u64)
}

/// The payload of a tensor: its dimensions as a counted list, its dtype
/// tag, then its values as a counted list.
pub open spec fn spec_encode_tensor_payload(shape: Seq<usize>, dtype: DType, values: Seq<u64>) -> Seq<u8> {
    enc_values(dims_u64(shape)) + seq![dtype.spec_tag()] + enc_values(values)
}

/// The error for input that ends too early.
pub open spec fn short_input() -> TvmError {
    TvmError::InvalidReceipt("short p2p message")
}

/// A count: a `u64` that must fit a `usize`.
pub open spec fn p_count(s: Seq<u8>, off: int) -> core::result::Result<(usize, int), TvmError> {
    match p_u64(s, off) {
        None => Err(short_input()),
        Some((n, o)) => if n > usize::MAX {
            Err(TvmError::InvalidReceipt("usize overflow"))
        } else {
            Ok((n as usize, o))
        },
    }
}

/// `n` counts in order.
pub open spec fn p_count_list(s: Seq<u8>, off: int, n: nat) -> core::result::Result<(Seq<usize>, int), TvmError>
    decreases n,
{
    if n == 0 {
        Ok((Seq::empty(), off))
    } else {
        match p_count_list(s, off, (n - 1) as nat) {
            Err(e) => Err(e),
            Ok((vs, o)) => match p_count(s, o) {
                Err(e) => Err(e),
                Ok((x, o2)) => Ok((vs.push(x), o2)),
            },
        }
    }
}

/// What a tensor payload decodes to: the shape and values of a
/// field-element tensor, or the first error met reading it.
pub open spec fn spec_decode_tensor_payload(s: Seq<u8>) -> core::result::Result<(Seq<usize>, Seq<u64>), TvmError> {
    match p_count(s, 0) {
        Err(e) => Err(e),
        Ok((n, o1)) => if n > MAX_TENSOR_SHAPE_DIMS {
            Err(TvmError::InvalidReceipt("shape vector too large"))
        } else {
            match p_count_list(s, o1, n as nat) {
                Err(e) => Err(e),
                Ok((shape, o2)) => if o2 >= s.len() {
                    Err(short_input())
                } else if s[o2] != 1 {
                    Err(TvmError::InvalidReceipt("unknown dtype tag"))
                } else {
                    match p_count(s, o2 + 1) {
                        Err(e) => Err(e),
                        Ok((m, o3)) => if m > MAX_TENSOR_VALUES {
                            Err(TvmError::InvalidReceipt("tensor payload too large"))
                        } else {
                            match p_u64_list(s, o3, m as nat) {
                                None => Err(short_input()),
                                Some((values, o4)) => if o4 != s.len() {
                                    Err(TvmError::InvalidReceipt("trailing tensor payload bytes"))
                                } else if shape_product(shape) != values.len() {
                                    Err(TvmError::InvalidReceipt("tensor data does not match shape"))
                                } else if !all_in_field(values) {
                                    Err(TvmError::InvalidReceipt("tensor value outside field"))
                                } else {
                                    Ok((shape, values))
                                },
                            }
                        },
                    }
                },
            }
        },
    }
}

fn write_u64_values(out: &mut Vec<u8>, values: &[u64])
    ensures
        final(out)@ == old(out)@ + enc_values(values@),
{
    write_u64(out, values.len() as u64);
    let ghost start = out@;
    let mut i: usize = 0;
    while i < values.len()
        invariant
            i <= values@.len(),
            out@ == start + enc_u64_list(values@.subrange(0, i as int)),
        decreases values@.len() - i,
    {
        write_u64(out, values[i]);
        proof {
            let vs = values@.subrange(0, i + 1);
            assert(vs.drop_last() =~= values@.subrange(0, i as int));
        }
        i += 1;
    }
    assert(values@.subrange(0, values@.len() as int) =~= values@);
    assert(final(out)@ =~= old(out)@ + enc_values(values@));
}

fn write_dims(out: &mut Vec<u8>, dims: &[usize])
    ensures
        final(out)@ == old(out)@ + enc_values(dims_u64(dims@)),
{
    write_u64(out, dims.len() as u64);
    let ghost start = out@;
    let mut i: usize = 0;
    while i < dims.len()
        invariant
            i <= dims@.len(),
            out@ == start + enc_u64_list(dims_u64(dims@.subrange(0, i as int))),
        decreases dims@.len() - i,
    {
        write_u64(out, dims[i] as u64);
        proof {
            let ds = dims_u64(dims@.subrange(0, i + 1));
            assert(ds.drop_last() =~= dims_u64(dims@.subrange(0, i as int)));
            assert(ds.last() == dims@[i as int] as u64);
        }
        i += 1;
    }
    assert(dims@.subrange(0, dims@.len() as int) =~= dims@);
    assert(dims_u64(dims@).len() == dims@.len());
    assert(final(out)@ =~= old(out)@ + enc_values(dims_u64(dims@)));
}

proof fn lemma_p_count_list_at(pre: Seq<u8>, ds: Seq<usize>, rest: Seq<u8>)
    ensures
        p_count_list(pre + enc_u64_list(dims_u64(ds)) + rest, pre.len() as int, ds.len())
            == Ok::<(Seq<usize>, int), TvmError>((ds, pre.len() as int + 8 * ds.len())),
    decreases ds.len(),
{
    if ds.len() > 0 {
        let init = ds.drop_last();
        let x = ds.last();
        let us = dims_u64(ds);
        assert(us.drop_last() =~= dims_u64(init));
        assert(us.last() == x as u64);
        let s = pre + enc_u64_list(us) + rest;
        assert(s =~= pre + enc_u64_list(dims_u64(init)) + (enc_u64(x as u64) + rest));
        lemma_p_count_list_at(pre, init, enc_u64(x as u64) + rest);
        lemma_enc_u64_list_len(dims_u64(init));
        assert(s =~= (pre + enc_u64_list(dims_u64(init))) + enc_u64(x as u64) + rest);
        lemma_p_u64_at(pre + enc_u64_list(dims_u64(init)), x as u64, rest);
        assert(init.push(x) =~= ds);
        let o = pre.len() as int + 8 * init.len();
        assert(p_count(s, o) == Ok::<(usize, int), TvmError>((x, o + 8)));
    } else {
        assert(ds =~= Seq::<usize>::empty());
    }
}

/// Encodes a tensor as a payload; decoding gives back its shape and
/// values whenever the shape has at most `MAX_TENSOR_SHAPE_DIMS`
/// dimensions and the tensor at most `MAX_TENSOR_VALUES` values.
pub fn encode_tensor_payload(tensor: &Tensor) -> (out: Vec<u8>)
    ensures
        out@ == spec_encode_tensor_payload(tensor.shape_view(), tensor.dtype_view(), tensor.values()),
        tensor.shape_view().len() <= MAX_TENSOR_SHAPE_DIMS && tensor.values().len() <= MAX_TENSOR_VALUES
            ==> spec_decode_tensor_payload(out@) == Ok::<(Seq<usize>, Seq<u64>), TvmError>((tensor.shape_view(), tensor.values())),
{
    let values = tensor.as_slice();
    let mut out: Vec<u8> = Vec::new();
    write_dims(&mut out, tensor.shape());
    out.push(tensor.dtype().tag());
    write_u64_values(&mut out, values);
    proof {
        let sh = tensor.shape_view();
        let vs = tensor.values();
        assert(out@ =~= spec_encode_tensor_payload(sh, tensor.dtype_view(), vs));
        if sh.len() <= MAX_TENSOR_SHAPE_DIMS && vs.len() <= MAX_TENSOR_VALUES {
            let s = out@;
            let e = Seq::<u8>::empty();
            let tag = tensor.dtype_view().spec_tag();
            assert(tag == 1) by {
                match tensor.dtype_view() {
                    DType::FieldElement => {},
                }
            }
            lemma_auto_spec_u64_to_from_le_bytes();
            assert(dims_u64(sh).len() == sh.len());
            let tail1 = enc_u64_list(dims_u64(sh)) + seq![tag] + enc_values(vs);
            assert(s =~= e + enc_u64(sh.len() as u64) + tail1);
            lemma_p_u64_at(e, sh.len() as u64, tail1);
            lemma_enc_u64_list_len(dims_u64(sh));
            let pre1 = enc_u64(sh.len() as u64);
            let tail2 = seq![tag] + enc_values(vs);
            assert(s =~= pre1 + enc_u64_list(dims_u64(sh)) + tail2);
            lemma_p_count_list_at(pre1, sh, tail2);
            let o2 = (8 + 8 * sh.len()) as int;
            assert(s[o2] == tag);
            let pre3 = pre1 + enc_u64_list(dims_u64(sh)) + seq![tag];
            assert(s =~= pre3 + enc_u64(vs.len() as u64) + enc_u64_list(vs));
            lemma_p_u64_at(pre3, vs.len() as u64, enc_u64_list(vs));
            let pre4 = pre3 + enc_u64(vs.len() as u64);
            assert(s =~= pre4 + enc_u64_list(vs) + e);
            lemma_p_u64_list_at(pre4, vs, e);
            lemma_enc_u64_list_len(vs);
        }
    }
    out
}

impl<'a> Reader<'a> {
    fn read_count(&mut self) -> (out: Result<usize>)
        requires
            old(self).offset <= old(self).input@.len(),
        ensures
            final(self).input@ == old(self).input@,
            final(self).offset <= final(self).input@.len(),
            match p_count(old(self).input@, old(self).offset as int) {
                Ok((v, o)) => out == Ok::<usize, TvmError>(v) && final(self).offset == o,
                Err(e) => out == Err::<usize, TvmError>(e),
            },
    {
        let v = self.read_u64()?;
        if v > usize::MAX as u64 {
            return Err(TvmError::InvalidReceipt("usize overflow"));
        }
        Ok(v as usize)
    }
}

/// Decodes a tensor payload: a field-element tensor with at most
/// `MAX_TENSOR_SHAPE_DIMS` dimensions and `MAX_TENSOR_VALUES` values, or
/// the first error met reading it.
pub fn decode_tensor_payload(input: &[u8]) -> (out: Result<Tensor>)
    ensures
        match (out, spec_decode_tensor_payload(input@)) {
            (Ok(t), Ok((shape, values))) => t.shape_view() == shape && t.values() == values
                && t.dtype_view() == DType::FieldElement,
            (Err(e), Err(f)) => e == f,
            _ => false,
        },
{
    let mut reader = Reader::new(input);
    let n = reader.read_count()?;
    if n > MAX_TENSOR_SHAPE_DIMS {
        return Err(TvmError::InvalidReceipt("shape vector too large"));
    }
    let ghost o1 = reader.offset as int;
    let mut shape: Vec<usize> = Vec::new();
    let mut i: usize = 0;
    while i < n
        invariant
            reader.input@ == input@,
            reader.offset <= reader.input@.len(),
            i <= n,
            n <= MAX_TENSOR_SHAPE_DIMS,
            p_count(input@, 0) == Ok::<(usize, int), TvmError>((n, o1)),
            p_count_list(input@, o1, i as nat) == Ok::<(Seq<usize>, int), TvmError>((shape@, reader.offset as int)),
        decreases n - i,
    {
        let ghost before = shape@;
        let d = match reader.read_count() {
            Ok(d) => d,
            Err(e) => {
                proof {
                    assert(p_count_list(input@, o1, (i + 1) as nat) == Err::<(Seq<usize>, int), TvmError>(e));
                    lemma_p_count_list_err(input@, o1, (i + 1) as nat, n as nat);
                }
                return Err(e);
            },
        };
        shape.push(d);
        i += 1;
    }
    let ghost o2 = reader.offset as int;
    let tag = reader.read_u8()?;
    if tag != 1 {
        return Err(TvmError::InvalidReceipt("unknown dtype tag"));
    }
    let m = reader.read_count()?;
    if m > MAX_TENSOR_VALUES {
        return Err(TvmError::InvalidReceipt("tensor payload too large"));
    }
    let ghost o3 = reader.offset as int;
    let mut values: Vec<u64> = Vec::new();
    let mut j: usize = 0;
    while j < m
        invariant
            reader.input@ == input@,
            reader.offset <= reader.input@.len(),
            j <= m,
            n <= MAX_TENSOR_SHAPE_DIMS,
            m <= MAX_TENSOR_VALUES,
            p_count(input@, 0) == Ok::<(usize, int), TvmError>((n, o1)),
            p_count_list(input@, o1, n as nat) == Ok::<(Seq<usize>, int), TvmError>((shape@, o2)),
            o2 < input@.len(),
            input@[o2] == 1,
            p_count(input@, o2 + 1) == Ok::<(usize, int), TvmError>((m, o3)),
            p_u64_list(input@, o3, j as nat) == Some((values@, reader.offset as int)),
        decreases m - j,
    {
        let v = match reader.read_u64() {
            Ok(v) => v,
            Err(e) => {
                proof {
                    lemma_p_u64_list_none(input@, o3, (j + 1) as nat, m as nat);
                }
                return Err(e);
            },
        };
        values.push(v);
        j += 1;
    }
    if reader.offset != input.len() {
        return Err(TvmError::InvalidReceipt("trailing tensor payload bytes"));
    }
    Tensor::from_vec(shape, DType::FieldElement, values)
}

proof fn lemma_p_count_list_err(s: Seq<u8>, off: int, i: nat, n: nat)
    requires
        i <= n,
        p_count_list(s, off, i) is Err,
    ensures
        p_count_list(s, off, n) == p_count_list(s, off, i),
    decreases n - i,
{
    if i < n {
        lemma_p_count_list_err(s, off, i, (n - 1) as nat);
    }
}

proof fn lemma_p_u64_list_none(s: Seq<u8>, off: int, i: nat, n: nat)
    requires
        i <= n,
        p_u64_list(s, off, i) is None,
    ensures
        p_u64_list(s, off, n) is None,
    decreases n - i,
{
    if i < n {
        lemma_p_u64_list_none(s, off, i, (n - 1) as nat);
    }
}

proof fn lemma_p_count_list_sound(s: Seq<u8>, off: int, n: nat)
    requires
        0 <= off <= s.len(),
        p_count_list(s, off, n) is Ok,
    ensures
        ({
            let (ds, o) = p_count_list(s, off, n)->Ok_0;
            ds.len() == n && off <= o <= s.len() && s.subrange(off, o) == enc_u64_list(dims_u64(ds))
        }),
    decreases n,
{
    if n == 0 {
        assert(s.subrange(off, off) =~= Seq::<u8>::empty());
    } else {
        lemma_p_count_list_sound(s, off, (n - 1) as nat);
        let (init, o1) = p_count_list(s, off, (n - 1) as nat)->Ok_0;
        lemma_p_u64_sound(s, o1);
        let (ds, o) = p_count_list(s, off, n)->Ok_0;
        assert(ds.drop_last() =~= init);
        assert(dims_u64(ds).drop_last() =~= dims_u64(init));
        assert(s.subrange(off, o) =~= s.subrange(off, o1) + s.subrange(o1, o));
    }
}

/// A tensor payload that decodes is the encoding of what it decodes to:
/// no other byte string stands for the same tensor.
pub proof fn lemma_tensor_payload_canonical(s: Seq<u8>)
    requires
        spec_decode_tensor_payload(s) is Ok,
    ensures
        s == spec_encode_tensor_payload(
            spec_decode_tensor_payload(s)->Ok_0.0,
            DType::FieldElement,
            spec_decode_tensor_payload(s)->Ok_0.1,
        ),
{
    let (shape, values) = spec_decode_tensor_payload(s)->Ok_0;
    lemma_p_u64_sound(s, 0);
    let (n, o1) = p_count(s, 0)->Ok_0;
    lemma_p_count_list_sound(s, o1, n as nat);
    let (sh, o2) = p_count_list(s, o1, n as nat)->Ok_0;
    lemma_p_u64_sound(s, o2 + 1);
    let (m, o3) = p_count(s, o2 + 1)->Ok_0;
    lemma_p_u64_list_sound(s, o3, m as nat);
    let (vs, o4) = p_u64_list(s, o3, m as nat)->0;
    lemma_auto_spec_u64_to_from_le_bytes();
    assert(dims_u64(sh).len() == sh.len());
    assert(s.subrange(0, 8) == enc_u64(dims_u64(sh).len() as u64));
    assert(s.subrange(o2 + 1, o3) == enc_u64(vs.len() as u64));
    assert(s =~= s.subrange(0, 8) + s.subrange(o1, o2) + seq![s[o2]] + s.subrange(o2 + 1, o3) + s.subrange(o3, o4));
    assert(DType::FieldElement.spec_tag() == 1);
    assert(s =~= spec_encode_tensor_payload(shape, DType::FieldElement, values));
}

} // verus!
