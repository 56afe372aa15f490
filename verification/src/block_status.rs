//! The block status report of a node: which votes count towards a block's
//! finality, which receipts were submitted at its height, and the
//! `key=value` report that lists it all.

use vstd::prelude::*;
use vstd::string::{StrSliceExecFns, StringExecFns, StringSliceAdditionalSpecFns};
use crate::hash::{hex, spec_hex};
use crate::rpc::{decimal_chars, push_decimal};
use crate::service::{
    finality_threshold_stake, hex_hash_list, spec_finality_threshold_stake, spec_hex_hash_list, spec_status_field, status_field,
};
use crate::text::string_from_chars;
use crate::types::Hash32;
use crate::node::runtime_state::NetworkEventIngest;

verus! {

/// The decimal text of a number.
pub fn decimal_text(n: u64) -> (out: String)
    ensures
        out@ == decimal_chars(n as nat),
{
    let mut chars: Vec<char> = Vec::new();
    push_decimal(&mut chars, n);
    assert(chars@ =~= decimal_chars(n as nat));
    string_from_chars(chars.as_slice())
}

/// `true` or `false`.
pub open spec fn bool_chars(b: bool) -> Seq<char> {
    if b {
        "true"@
    } else {
        "false"@
    }
}

fn bool_text(b: bool) -> (out: String)
    ensures
        out@ == bool_chars(b),
{
    if b {
        "true".to_owned()
    } else {
        "false".to_owned()
    }
}

/// A report of `key=value` lines, one per field, joined by newlines.
pub open spec fn report_text(fields: Seq<(Seq<char>, Seq<char>)>) -> Seq<char>
    decreases fields.len(),
{
    if fields.len() == 0 {
        Seq::empty()
    } else if fields.len() == 1 {
        fields[0].0 + "="@ + fields[0].1
    } else {
        report_text(fields.drop_last()) + "\n"@ + fields.last().0 + "="@ + fields.last().1
    }
}

pub open spec fn fields_view(fields: Seq<(&str, String)>) -> Seq<(Seq<char>, Seq<char>)> {
    fields.map_values(|f: (&str, String)| (f.0@, f.1@))
}

/// Writes fields as `key=value` lines.
pub fn key_value_report(fields: &[(&str, String)]) -> (out: String)
    ensures
        out@ == report_text(fields_view(fields@)),
{
    let ghost fv = fields_view(fields@);
    let mut out = String::new();
    let mut i: usize = 0;
    assert(fv.take(0) =~= Seq::<(Seq<char>, Seq<char>)>::empty());
    while i < fields.len()
        invariant
            fv == fields_view(fields@),
            i <= fields@.len(),
            out@ == report_text(fv.take(i as int)),
        decreases fields@.len() - i,
    {
        if i > 0 {
            out.append("\n");
        }
        out.append(fields[i].0);
        out.append("=");
        out.append(fields[i].1.as_str());
        proof {
            let t = fv.take(i + 1);
            assert(t.drop_last() =~= fv.take(i as int));
            assert(t.last() == (fields@[i as int].0@, fields@[i as int].1@));
            if i == 0 {
                assert(Seq::<char>::empty() + t[0].0 + "="@ + t[0].1 =~= t[0].0 + "="@ + t[0].1);
            }
        }
        i += 1;
    }
    assert(fv.take(fields@.len() as int) =~= fv);
    out
}

/// A vote cast on a block, as the report weighs it: who cast it, the stake
/// it claims and whether its signature checks out.
#[derive(Clone, Copy, Debug, PartialEq, Eq)]
pub struct BlockVoteFacts {
    pub validator: Hash32,
    pub stake: u64,
    pub signature_valid: bool,
}

/// The stake a validator is registered with, by its first entry.
pub open spec fn registered_stake(validators: Seq<(Hash32, u64)>, v: Hash32) -> Option<u64>
    decreases validators.len(),
{
    if validators.len() == 0 {
        None
    } else if validators[0].0 == v {
        Some(validators[0].1)
    } else {
        registered_stake(validators.drop_first(), v)
    }
}

/// A sum that stops at `u64::MAX`.
pub open spec fn sat_u64(x: nat) -> nat {
    if x > u64::MAX {
        u64::MAX as nat
    } else {
        x
    }
}

/// The validators whose votes count, in the order of their first counted
/// vote, and their stake: a vote counts when its validator is registered
/// with exactly the stake it claims and its signature is valid, once per
/// validator.
pub open spec fn counted_votes(validators: Seq<(Hash32, u64)>, votes: Seq<BlockVoteFacts>) -> (Seq<Hash32>, nat)
    decreases votes.len(),
{
    if votes.len() == 0 {
        (Seq::empty(), 0)
    } else {
        let (seen, stake) = counted_votes(validators, votes.drop_last());
        let v = votes.last();
        if registered_stake(validators, v.validator) == Some(v.stake) && v.signature_valid
            && !seen.contains(v.validator) {
            (seen.push(v.validator), sat_u64(stake + v.stake as nat))
        } else {
            (seen, stake)
        }
    }
}

fn find_stake(validators: &[(Hash32, u64)], v: &Hash32) -> (out: Option<u64>)
    ensures
        out == registered_stake(validators@, *v),
{
    let mut i: usize = 0;
    assert(validators@.skip(0) =~= validators@);
    while i < validators.len()
        invariant
            i <= validators@.len(),
            registered_stake(validators@.skip(i as int), *v) == registered_stake(validators@, *v),
        decreases validators@.len() - i,
    {
        assert(validators@.skip(i as int).drop_first() =~= validators@.skip(i + 1));
        assert(validators@.skip(i as int)[0] == validators@[i as int]);
        if crate::types::hash_eq(&validators[i].0, v) {
            assert(validators@[i as int].0@ == v@);
            assert(validators@[i as int].0 =~= *v);
            return Some(validators[i].1);
        }
        i += 1;
    }
    None
}

fn contains_hash(hs: &Vec<Hash32>, h: &Hash32) -> (out: bool)
    ensures
        out == hs@.contains(*h),
{
    let mut i: usize = 0;
    while i < hs.len()
        invariant
            i <= hs@.len(),
            forall|j: int| 0 <= j < i ==> hs@[j] != *h,
        decreases hs@.len() - i,
    {
        if crate::types::hash_eq(&hs[i], h) {
            assert(hs@[i as int] =~= *h);
            assert(hs@.contains(*h));
            return true;
        }
        i += 1;
    }
    false
}

/// Weighs the votes on a block.
pub fn count_valid_votes(votes: &[BlockVoteFacts], validators: &[(Hash32, u64)]) -> (out: (Vec<Hash32>, u64))
    ensures
        out.0@ == counted_votes(validators@, votes@).0,
        out.1 == counted_votes(validators@, votes@).1,
{
    let mut seen: Vec<Hash32> = Vec::new();
    let mut stake: u64 = 0;
    let mut i: usize = 0;
    assert(votes@.take(0) =~= Seq::<BlockVoteFacts>::empty());
    while i < votes.len()
        invariant
            i <= votes@.len(),
            seen@ == counted_votes(validators@, votes@.take(i as int)).0,
            stake == counted_votes(validators@, votes@.take(i as int)).1,
        decreases votes@.len() - i,
    {
        let v = votes[i];
        proof {
            assert(votes@.take(i + 1).drop_last() =~= votes@.take(i as int));
            assert(votes@.take(i + 1).last() == v);
        }
        match find_stake(validators, &v.validator) {
            Some(s) => {
                if s == v.stake && v.signature_valid && !contains_hash(&seen, &v.validator) {
                    seen.push(v.validator);
                    stake = stake.saturating_add(v.stake);
                }
            },
            None => {},
        }
        i += 1;
    }
    assert(votes@.take(votes@.len() as int) =~= votes@);
    (seen, stake)
}

/// The primitive a receipt reports work for.
#[derive(Clone, Copy, Debug, PartialEq, Eq, Structural)]
pub enum ReceiptKind {
    TensorOp,
    LinearTrainingStep,
}

/// A receipt as the report sorts it.
#[derive(Clone, Copy, Debug, PartialEq, Eq)]
pub struct BlockReceiptFacts {
    pub receipt_id: Hash32,
    pub submitted_at_block: u64,
    pub settled: bool,
    pub kind: ReceiptKind,
}

/// The receipts submitted at `height`, in order: all of them, those for
/// tensor ops, those for linear training steps, and those settled.
pub open spec fn sorted_receipts(receipts: Seq<BlockReceiptFacts>, height: u64)
    -> (Seq<Hash32>, Seq<Hash32>, Seq<Hash32>, Seq<Hash32>)
    decreases receipts.len(),
{
    if receipts.len() == 0 {
        (Seq::empty(), Seq::empty(), Seq::empty(), Seq::empty())
    } else {
        let (all, ops, linear, settled) = sorted_receipts(receipts.drop_last(), height);
        let r = receipts.last();
        if r.submitted_at_block != height {
            (all, ops, linear, settled)
        } else {
            (
                all.push(r.receipt_id),
                if r.kind == ReceiptKind::TensorOp { ops.push(r.receipt_id) } else { ops },
                if r.kind == ReceiptKind::LinearTrainingStep { linear.push(r.receipt_id) } else { linear },
                if r.settled { settled.push(r.receipt_id) } else { settled },
            )
        }
    }
}

/// Sorts the receipts submitted at `height`.
pub fn classify_block_receipts(receipts: &[BlockReceiptFacts], height: u64)
    -> (out: (Vec<Hash32>, Vec<Hash32>, Vec<Hash32>, Vec<Hash32>))
    ensures
        (out.0@, out.1@, out.2@, out.3@) == sorted_receipts(receipts@, height),
{
    let mut all: Vec<Hash32> = Vec::new();
    let mut ops: Vec<Hash32> = Vec::new();
    let mut linear: Vec<Hash32> = Vec::new();
    let mut settled: Vec<Hash32> = Vec::new();
    let mut i: usize = 0;
    assert(receipts@.take(0) =~= Seq::<BlockReceiptFacts>::empty());
    while i < receipts.len()
        invariant
            i <= receipts@.len(),
            (all@, ops@, linear@, settled@) == sorted_receipts(receipts@.take(i as int), height),
        decreases receipts@.len() - i,
    {
        let r = receipts[i];
        proof {
            assert(receipts@.take(i + 1).drop_last() =~= receipts@.take(i as int));
            assert(receipts@.take(i + 1).last() == r);
        }
        if r.submitted_at_block == height {
            all.push(r.receipt_id);
            match r.kind {
                ReceiptKind::TensorOp => ops.push(r.receipt_id),
                ReceiptKind::LinearTrainingStep => linear.push(r.receipt_id),
            }
            if r.settled {
                settled.push(r.receipt_id);
            }
        }
        i += 1;
    }
    assert(receipts@.take(receipts@.len() as int) =~= receipts@);
    (all, ops, linear, settled)
}


/// What the block status report is made from: the block's own fields, what
/// the chain says of it, the votes cast on it, the registered validators
/// and their stakes, and the receipts the chain holds.
#[derive(Clone, Debug)]
pub struct BlockStatusInputs {
    pub data_dir: String,
    pub height: u64,
    pub block_hash: Hash32,
    pub parent_hash: Hash32,
    pub proposer: Hash32,
    pub proposer_registered: bool,
    pub state_root: Hash32,
    pub epoch: u64,
    pub latest_height: u64,
    pub finalized: bool,
    pub settled_receipt_set_root: Hash32,
    pub selected_receipt_ids: Vec<Hash32>,
    pub selected_receipt_twu: u64,
    pub selected_receipt_bytes: u64,
    pub block_twu_cap: u64,
    pub block_byte_cap: u64,
    pub block_receipt_cap: u64,
    pub checks_root: Hash32,
    pub block_valid: bool,
    pub difficulty_target: Hash32,
    pub nonce: u64,
    pub pow_header_hash: Hash32,
    pub pow_hash: Hash32,
    pub pow_valid: bool,
    pub votes: Vec<BlockVoteFacts>,
    pub validators: Vec<(Hash32, u64)>,
    pub finality_stake_numerator: u64,
    pub finality_stake_denominator: u64,
    pub receipts: Vec<BlockReceiptFacts>,
}

/// The total stake of the registered validators.
pub open spec fn total_stake(validators: Seq<(Hash32, u64)>) -> nat
    decreases validators.len(),
{
    if validators.len() == 0 {
        0
    } else {
        total_stake(validators.drop_last()) + validators.last().1 as nat
    }
}

/// The fields of the block status report, in order.
pub open spec fn block_status_fields(b: BlockStatusInputs) -> Seq<(Seq<char>, Seq<char>)> {
    let votes = counted_votes(b.validators@, b.votes@);
    let receipts = sorted_receipts(b.receipts@, b.height);
    let threshold = spec_finality_threshold_stake(
        b.finality_stake_numerator,
        b.finality_stake_denominator,
        total_stake(b.validators@) as u64,
    );
    seq![
        ("command"@, "service_block"@),
        ("data_dir"@, b.data_dir@),
        ("height"@, decimal_chars(b.height as nat)),
        ("block_hash"@, spec_hex(b.block_hash@)),
        ("block_validation"@, "useful_verification_pow"@),
        ("parent_hash"@, spec_hex(b.parent_hash@)),
        ("proposer"@, spec_hex(b.proposer@)),
        ("proposer_role"@, "validator"@),
        ("proposer_registered"@, bool_chars(b.proposer_registered)),
        ("tensorwork_proposer_selection"@, "false"@),
        ("state_root"@, spec_hex(b.state_root@)),
        ("epoch"@, decimal_chars(b.epoch as nat)),
        ("latest_height"@, decimal_chars(b.latest_height as nat)),
        ("finalized"@, bool_chars(b.finalized)),
        ("settled_receipt_set_root"@, spec_hex(b.settled_receipt_set_root@)),
        ("selected_receipt_ids"@, spec_hex_hash_list(b.selected_receipt_ids@.map_values(|h: Hash32| h@))),
        ("selected_receipt_count"@, decimal_chars(b.selected_receipt_ids@.len())),
        ("selected_receipt_twu"@, decimal_chars(b.selected_receipt_twu as nat)),
        ("selected_receipt_bytes"@, decimal_chars(b.selected_receipt_bytes as nat)),
        ("block_twu_cap"@, decimal_chars(b.block_twu_cap as nat)),
        ("block_byte_cap"@, decimal_chars(b.block_byte_cap as nat)),
        ("block_receipt_cap"@, decimal_chars(b.block_receipt_cap as nat)),
        ("checks_root"@, spec_hex(b.checks_root@)),
        ("check_leaf_count"@, decimal_chars(b.selected_receipt_ids@.len())),
        ("checks_root_recomputed"@, bool_chars(b.block_valid)),
        ("difficulty_target"@, spec_hex(b.difficulty_target@)),
        ("nonce"@, decimal_chars(b.nonce as nat)),
        ("pow_header_hash"@, spec_hex(b.pow_header_hash@)),
        ("pow_hash"@, spec_hex(b.pow_hash@)),
        ("pow_valid"@, bool_chars(b.pow_valid)),
        ("canonical_blockspace_valid"@, bool_chars(b.block_valid)),
        ("block_vote_count"@, decimal_chars(votes.0.len())),
        ("block_vote_validators"@, spec_hex_hash_list(votes.0.map_values(|h: Hash32| h@))),
        ("block_vote_stake"@, decimal_chars(votes.1 as nat)),
        ("finality_threshold_stake"@, decimal_chars(threshold as nat)),
        ("finality_validated_block"@, bool_chars(b.finalized && b.block_valid)),
        ("receipt_count"@, decimal_chars(receipts.0.len())),
        ("receipt_ids"@, spec_hex_hash_list(receipts.0.map_values(|h: Hash32| h@))),
        ("tensor_op_receipt_count"@, decimal_chars(receipts.1.len())),
        ("tensor_op_receipt_ids"@, spec_hex_hash_list(receipts.1.map_values(|h: Hash32| h@))),
        ("linear_training_receipt_count"@, decimal_chars(receipts.2.len())),
        ("linear_training_receipt_ids"@, spec_hex_hash_list(receipts.2.map_values(|h: Hash32| h@))),
        ("settled_receipt_count"@, decimal_chars(receipts.3.len())),
        ("settled_receipt_ids"@, spec_hex_hash_list(receipts.3.map_values(|h: Hash32| h@))),
        ("status_source"@, "node_store"@),
    ]
}

fn sum_stake(validators: &[(Hash32, u64)]) -> (out: u64)
    requires
        total_stake(validators@) <= u64::MAX,
    ensures
        out == total_stake(validators@),
{
    let mut total: u64 = 0;
    let mut i: usize = 0;
    assert(validators@.take(0) =~= Seq::<(Hash32, u64)>::empty());
    while i < validators.len()
        invariant
            i <= validators@.len(),
            total == total_stake(validators@.take(i as int)),
            total_stake(validators@) <= u64::MAX,
        decreases validators@.len() - i,
    {
        proof {
            assert(validators@.take(i + 1).drop_last() =~= validators@.take(i as int));
            lemma_total_stake_prefix(validators@, i + 1);
        }
        total = total + validators[i].1;
        i += 1;
    }
    assert(validators@.take(validators@.len() as int) =~= validators@);
    total
}

proof fn lemma_total_stake_prefix(v: Seq<(Hash32, u64)>, k: int)
    requires
        0 <= k <= v.len(),
    ensures
        total_stake(v.take(k)) <= total_stake(v),
    decreases v.len() - k,
{
    if k < v.len() {
        lemma_total_stake_prefix(v, k + 1);
        assert(v.take(k + 1).drop_last() =~= v.take(k));
    } else {
        assert(v.take(k) =~= v);
    }
}

/// The block status report: the block, its proof of useful work, its
/// blockspace, the votes that count towards its finality (each validator
/// once, registered with the stake it claims, with a valid signature)
/// against the finality threshold, and the receipts submitted at its height.
/// The registered stakes must add up within a `u64`.
#[verifier::spinoff_prover]
#[verifier::rlimit(60)]
pub fn block_status_report(b: &BlockStatusInputs) -> (out: String)
    requires
        total_stake(b.validators@) <= u64::MAX,
    ensures
        out@ == report_text(block_status_fields(*b)),
{
    let (vote_validators, vote_stake) = count_valid_votes(b.votes.as_slice(), b.validators.as_slice());
    let (all, ops, linear, settled) = classify_block_receipts(b.receipts.as_slice(), b.height);
    let total = sum_stake(b.validators.as_slice());
    let threshold = finality_threshold_stake(b.finality_stake_numerator, b.finality_stake_denominator, total);
    let mut fields: Vec<(&str, String)> = Vec::new();
    fields.push(("command", "service_block".to_owned()));
    fields.push(("data_dir", b.data_dir.clone()));
    fields.push(("height", decimal_text(b.height)));
    fields.push(("block_hash", hex(&b.block_hash)));
    fields.push(("block_validation", "useful_verification_pow".to_owned()));
    fields.push(("parent_hash", hex(&b.parent_hash)));
    fields.push(("proposer", hex(&b.proposer)));
    fields.push(("proposer_role", "validator".to_owned()));
    fields.push(("proposer_registered", bool_text(b.proposer_registered)));
    fields.push(("tensorwork_proposer_selection", "false".to_owned()));
    fields.push(("state_root", hex(&b.state_root)));
    fields.push(("epoch", decimal_text(b.epoch)));
    fields.push(("latest_height", decimal_text(b.latest_height)));
    fields.push(("finalized", bool_text(b.finalized)));
    fields.push(("settled_receipt_set_root", hex(&b.settled_receipt_set_root)));
    fields.push(("selected_receipt_ids", hex_hash_list(b.selected_receipt_ids.as_slice())));
    fields.push(("selected_receipt_count", decimal_text(b.selected_receipt_ids.len() as u64)));
    fields.push(("selected_receipt_twu", decimal_text(b.selected_receipt_twu)));
    fields.push(("selected_receipt_bytes", decimal_text(b.selected_receipt_bytes)));
    fields.push(("block_twu_cap", decimal_text(b.block_twu_cap)));
    fields.push(("block_byte_cap", decimal_text(b.block_byte_cap)));
    fields.push(("block_receipt_cap", decimal_text(b.block_receipt_cap)));
    fields.push(("checks_root", hex(&b.checks_root)));
    fields.push(("check_leaf_count", decimal_text(b.selected_receipt_ids.len() as u64)));
    fields.push(("checks_root_recomputed", bool_text(b.block_valid)));
    fields.push(("difficulty_target", hex(&b.difficulty_target)));
    fields.push(("nonce", decimal_text(b.nonce)));
    fields.push(("pow_header_hash", hex(&b.pow_header_hash)));
    fields.push(("pow_hash", hex(&b.pow_hash)));
    fields.push(("pow_valid", bool_text(b.pow_valid)));
    fields.push(("canonical_blockspace_valid", bool_text(b.block_valid)));
    fields.push(("block_vote_count", decimal_text(vote_validators.len() as u64)));
    fields.push(("block_vote_validators", hex_hash_list(vote_validators.as_slice())));
    fields.push(("block_vote_stake", decimal_text(vote_stake)));
    fields.push(("finality_threshold_stake", decimal_text(threshold)));
    fields.push(("finality_validated_block", bool_text(b.finalized && b.block_valid)));
    fields.push(("receipt_count", decimal_text(all.len() as u64)));
    fields.push(("receipt_ids", hex_hash_list(all.as_slice())));
    fields.push(("tensor_op_receipt_count", decimal_text(ops.len() as u64)));
    fields.push(("tensor_op_receipt_ids", hex_hash_list(ops.as_slice())));
    fields.push(("linear_training_receipt_count", decimal_text(linear.len() as u64)));
    fields.push(("linear_training_receipt_ids", hex_hash_list(linear.as_slice())));
    fields.push(("settled_receipt_count", decimal_text(settled.len() as u64)));
    fields.push(("settled_receipt_ids", hex_hash_list(settled.as_slice())));
    fields.push(("status_source", "node_store".to_owned()));
    proof {
        reveal_strlit("service_block");
        reveal_strlit("useful_verification_pow");
        reveal_strlit("validator");
        reveal_strlit("false");
        reveal_strlit("node_store");
    }
    assert(fields_view(fields@) =~= block_status_fields(*b));
    key_value_report(fields.as_slice())
}

/// The text given when no loaded block has the height asked for.
pub open spec fn missing_block_text(height: u64, data_dir: Seq<char>) -> Seq<char> {
    "block height "@ + decimal_chars(height as nat) + " is not in node store "@ + data_dir
}

/// Whether `i` is the first position in `heights` holding `height`.
pub open spec fn first_at_height(heights: Seq<u64>, height: u64, i: int) -> bool {
    &&& 0 <= i < heights.len()
    &&& heights[i] == height
    &&& forall|j: int| 0 <= j < i ==> heights[j] != height
}

/// Finds the block at `height` among the loaded blocks, given by their
/// heights in the order loaded: the first block at that height, or, when
/// none is, the error naming the height and the node store's directory.
pub fn find_block_at_height(heights: &[u64], height: u64, data_dir: &str) -> (out: Result<usize, String>)
    ensures
        match out {
            Ok(i) => first_at_height(heights@, height, i as int),
            Err(e) => e@ == missing_block_text(height, data_dir@)
                && forall|j: int| 0 <= j < heights@.len() ==> heights@[j] != height,
        },
{
    let mut i: usize = 0;
    while i < heights.len()
        invariant
            i <= heights@.len(),
            forall|j: int| 0 <= j < i ==> heights@[j] != height,
        decreases heights@.len() - i,
    {
        if heights[i] == height {
            return Ok(i);
        }
        i += 1;
    }
    let mut e = String::new();
    e.append("block height ");
    e.append(decimal_text(height).as_str());
    e.append(" is not in node store ");
    e.append(data_dir);
    proof {
        reveal_strlit("block height ");
        reveal_strlit(" is not in node store ");
    }
    assert(e@ =~= missing_block_text(height, data_dir@));
    Err(e)
}

/// The heights of the blocks, in order.
pub open spec fn block_heights(blocks: Seq<BlockStatusInputs>) -> Seq<u64> {
    blocks.map_values(|b: BlockStatusInputs| b.height)
}

/// The status report of the block at `height` among the loaded blocks, or
/// the error for a height no block has. The stakes registered for a block at
/// that height must add up within a `u64`.
pub fn block_status_at_height(blocks: &[BlockStatusInputs], height: u64, data_dir: &str) -> (out: Result<String, String>)
    requires
        forall|j: int| 0 <= j < blocks@.len() && blocks@[j].height == height
            ==> total_stake(#[trigger] blocks@[j].validators@) <= u64::MAX,
    ensures
        match out {
            Ok(r) => exists|i: int| first_at_height(block_heights(blocks@), height, i)
                && r@ == report_text(block_status_fields(blocks@[i])),
            Err(e) => e@ == missing_block_text(height, data_dir@)
                && forall|j: int| 0 <= j < blocks@.len() ==> blocks@[j].height != height,
        },
{
    let mut heights: Vec<u64> = Vec::new();
    let mut k: usize = 0;
    while k < blocks.len()
        invariant
            k <= blocks@.len(),
            heights@ == block_heights(blocks@.take(k as int)),
        decreases blocks@.len() - k,
    {
        heights.push(blocks[k].height);
        assert(block_heights(blocks@.take(k + 1)) =~= block_heights(blocks@.take(k as int)).push(blocks@[k as int].height));
        k += 1;
    }
    assert(blocks@.take(blocks@.len() as int) =~= blocks@);
    match find_block_at_height(heights.as_slice(), height, data_dir) {
        Ok(i) => {
            let report = block_status_report(&blocks[i]);
            assert(first_at_height(block_heights(blocks@), height, i as int));
            Ok(report)
        },
        Err(e) => {
            assert forall|j: int| 0 <= j < blocks@.len() implies blocks@[j].height != height by {
                assert(heights@[j] == blocks@[j].height);
            }
            Err(e)
        },
    }
}


/// What a role service's closing report is made from: its command and
/// role, its wallet, the work its role loop saw and did, its network
/// settings and what its p2p service observed, the text of its p2p
/// identity, and the counts of network ingestion.
pub struct RuntimeReportInputs {
    pub runtime_command: String,
    pub role: String,
    pub chain_profile: String,
    pub can_produce_blocks: bool,
    pub wallet_address: String,
    pub wallet_registration: String,
    pub wallet_registered: bool,
    pub miner_work_ready: bool,
    pub miner_assigned_jobs_seen: u64,
    pub miner_unreceipted_jobs: u64,
    pub miner_receipts_submitted: u64,
    pub miner_tensors_inserted: u64,
    pub validator_work_ready: bool,
    pub validator_assigned_receipts_seen: u64,
    pub validator_unattested_receipts: u64,
    pub validator_artifact_ready_receipts: u64,
    pub validator_artifact_missing_receipts: u64,
    pub validator_remote_tensor_fetch_attempts: u64,
    pub validator_remote_tensor_fetch_successes: u64,
    pub validator_remote_tensor_fetch_failures: u64,
    pub validator_remote_tensor_fetch_bytes: u64,
    pub validator_remote_tensors_inserted: u64,
    pub validator_attestations_submitted: u64,
    pub validator_block_votes_submitted: u64,
    pub local_producer: bool,
    pub listen: String,
    pub p2p_listen: String,
    pub p2p_peer_id: String,
    pub p2p_connected_peers: u64,
    pub p2p_observed_block_gossip_count: u64,
    pub p2p_observed_block_payload_gossip_count: u64,
    pub p2p_observed_block_vote_gossip_count: u64,
    pub p2p_observed_job_gossip_count: u64,
    pub p2p_observed_receipt_gossip_count: u64,
    pub p2p_observed_attestation_gossip_count: u64,
    pub p2p_latest_observed_block_height: u64,
    pub p2p_latest_observed_block_hash: Hash32,
    pub p2p_observed_block_hashes: Vec<Hash32>,
    pub p2p_latest_observed_block_payload_height: u64,
    pub p2p_latest_observed_block_payload_hash: Hash32,
    pub p2p_observed_block_payload_hashes: Vec<Hash32>,
    pub p2p_topics: u64,
    pub p2p_request_response_protocols: u64,
    pub bootstrap_peer_count: u64,
    pub max_transmit_bytes: u64,
    pub request_timeout_seconds: u64,
    pub max_concurrent_streams: u64,
    pub idle_timeout_seconds: u64,
    pub data_dir: String,
    pub served_requests: u64,
    pub produced_blocks: u64,
    pub network_applied_blocks: u64,
    pub identity: String,
    pub network_events: NetworkEventIngest,
}

/// The fields of a runtime report before the identity text.
pub open spec fn runtime_report_head(r: RuntimeReportInputs) -> Seq<(Seq<char>, Seq<char>)> {
    seq![
        ("command"@, "service_serve"@),
        ("runtime_command"@, r.runtime_command@),
        ("role"@, r.role@),
        ("chain_profile"@, r.chain_profile@),
        ("role_loop_ready"@, "true"@),
        ("role_can_produce_blocks"@, bool_chars(r.can_produce_blocks)),
        ("role_wallet_address"@, r.wallet_address@),
        ("role_wallet_registration"@, r.wallet_registration@),
        ("role_wallet_registered"@, bool_chars(r.wallet_registered)),
        ("miner_work_ready"@, bool_chars(r.miner_work_ready)),
        ("miner_assigned_jobs_seen"@, decimal_chars(r.miner_assigned_jobs_seen as nat)),
        ("miner_unreceipted_jobs"@, decimal_chars(r.miner_unreceipted_jobs as nat)),
        ("miner_receipts_submitted"@, decimal_chars(r.miner_receipts_submitted as nat)),
        ("miner_tensors_inserted"@, decimal_chars(r.miner_tensors_inserted as nat)),
        ("validator_work_ready"@, bool_chars(r.validator_work_ready)),
        ("validator_assigned_receipts_seen"@, decimal_chars(r.validator_assigned_receipts_seen as nat)),
        ("validator_unattested_receipts"@, decimal_chars(r.validator_unattested_receipts as nat)),
        ("validator_artifact_ready_receipts"@, decimal_chars(r.validator_artifact_ready_receipts as nat)),
        ("validator_artifact_missing_receipts"@, decimal_chars(r.validator_artifact_missing_receipts as nat)),
        ("validator_remote_tensor_fetch_attempts"@, decimal_chars(r.validator_remote_tensor_fetch_attempts as nat)),
        ("validator_remote_tensor_fetch_successes"@, decimal_chars(r.validator_remote_tensor_fetch_successes as nat)),
        ("validator_remote_tensor_fetch_failures"@, decimal_chars(r.validator_remote_tensor_fetch_failures as nat)),
        ("validator_remote_tensor_fetch_bytes"@, decimal_chars(r.validator_remote_tensor_fetch_bytes as nat)),
        ("validator_remote_tensors_inserted"@, decimal_chars(r.validator_remote_tensors_inserted as nat)),
        ("validator_attestations_submitted"@, decimal_chars(r.validator_attestations_submitted as nat)),
        ("validator_block_votes_submitted"@, decimal_chars(r.validator_block_votes_submitted as nat)),
        ("local_producer"@, bool_chars(r.local_producer)),
        ("listen"@, r.listen@),
        ("p2p_listen"@, r.p2p_listen@),
        ("p2p_runtime"@, "libp2p"@),
        ("p2p_peer_id"@, r.p2p_peer_id@),
        ("p2p_connected_peers"@, decimal_chars(r.p2p_connected_peers as nat)),
        ("p2p_observed_block_gossip_count"@, decimal_chars(r.p2p_observed_block_gossip_count as nat)),
        ("p2p_observed_block_payload_gossip_count"@, decimal_chars(r.p2p_observed_block_payload_gossip_count as nat)),
        ("p2p_observed_block_vote_gossip_count"@, decimal_chars(r.p2p_observed_block_vote_gossip_count as nat)),
        ("p2p_observed_job_gossip_count"@, decimal_chars(r.p2p_observed_job_gossip_count as nat)),
        ("p2p_observed_receipt_gossip_count"@, decimal_chars(r.p2p_observed_receipt_gossip_count as nat)),
        ("p2p_observed_attestation_gossip_count"@, decimal_chars(r.p2p_observed_attestation_gossip_count as nat)),
        ("p2p_latest_observed_block_height"@, decimal_chars(r.p2p_latest_observed_block_height as nat)),
        ("p2p_latest_observed_block_hash"@, spec_hex(r.p2p_latest_observed_block_hash@)),
        ("p2p_observed_block_hashes"@, spec_hex_hash_list(r.p2p_observed_block_hashes@.map_values(|h: Hash32| h@))),
        ("p2p_latest_observed_block_payload_height"@, decimal_chars(r.p2p_latest_observed_block_payload_height as nat)),
        ("p2p_latest_observed_block_payload_hash"@, spec_hex(r.p2p_latest_observed_block_payload_hash@)),
        ("p2p_observed_block_payload_hashes"@, spec_hex_hash_list(r.p2p_observed_block_payload_hashes@.map_values(|h: Hash32| h@))),
        ("p2p_gossipsub_topics"@, decimal_chars(r.p2p_topics as nat)),
        ("p2p_request_response_protocols"@, decimal_chars(r.p2p_request_response_protocols as nat)),
        ("p2p_bootstrap_peers"@, decimal_chars(r.bootstrap_peer_count as nat)),
    ]
}

/// The fields of a runtime report after the identity text.
pub open spec fn runtime_report_tail(r: RuntimeReportInputs) -> Seq<(Seq<char>, Seq<char>)> {
    seq![
        ("p2p_max_transmit_bytes"@, decimal_chars(r.max_transmit_bytes as nat)),
        ("p2p_request_timeout_seconds"@, decimal_chars(r.request_timeout_seconds as nat)),
        ("p2p_max_concurrent_streams"@, decimal_chars(r.max_concurrent_streams as nat)),
        ("p2p_idle_timeout_seconds"@, decimal_chars(r.idle_timeout_seconds as nat)),
        ("data_dir"@, r.data_dir@),
        ("served_requests"@, decimal_chars(r.served_requests as nat)),
        ("produced_blocks"@, decimal_chars(r.produced_blocks as nat)),
        ("network_applied_blocks"@, decimal_chars(r.network_applied_blocks as nat)),
        ("network_events_ingested"@, decimal_chars(r.network_events.events as nat)),
        ("network_block_events_ingested"@, decimal_chars(r.network_events.block_announcements as nat)),
        ("network_block_headers_ingested"@, decimal_chars(r.network_events.block_headers as nat)),
        ("network_block_payloads_ingested"@, decimal_chars(r.network_events.block_payloads as nat)),
        ("network_block_payloads_applied"@, decimal_chars(r.network_events.block_payloads_applied as nat)),
        ("network_block_votes_ingested"@, decimal_chars(r.network_events.block_votes as nat)),
        ("network_block_votes_applied"@, decimal_chars(r.network_events.block_votes_applied as nat)),
        ("network_job_events_ingested"@, decimal_chars(r.network_events.jobs as nat)),
        ("network_job_payloads_ingested"@, decimal_chars(r.network_events.job_payloads as nat)),
        ("network_job_payloads_applied"@, decimal_chars(r.network_events.job_payloads_applied as nat)),
        ("network_receipt_events_ingested"@, decimal_chars(r.network_events.receipts as nat)),
        ("network_receipt_payloads_ingested"@, decimal_chars(r.network_events.receipt_payloads as nat)),
        ("network_receipt_payloads_applied"@, decimal_chars(r.network_events.receipt_payloads_applied as nat)),
        ("network_attestation_events_ingested"@, decimal_chars(r.network_events.attestations as nat)),
        ("network_attestation_payloads_ingested"@, decimal_chars(r.network_events.attestation_payloads as nat)),
        ("network_attestation_payloads_applied"@, decimal_chars(r.network_events.attestation_payloads_applied as nat)),
        ("network_peer_events_ingested"@, decimal_chars(r.network_events.peers as nat)),
        ("network_invalid_events"@, decimal_chars(r.network_events.invalid_events as nat)),
    ]
}

/// A role service's closing report: `key=value` lines, with the p2p
/// identity text in its own lines between the bootstrap peer count and the
/// p2p limits.
pub open spec fn spec_runtime_report(r: RuntimeReportInputs) -> Seq<char> {
    report_text(runtime_report_head(r)) + "\n"@ + r.identity@ + "\n"@ + report_text(runtime_report_tail(r))
}

#[verifier::spinoff_prover]
#[verifier::rlimit(60)]
pub fn runtime_report(r: &RuntimeReportInputs) -> (out: String)
    ensures
        out@ == spec_runtime_report(*r),
{
    let mut head: Vec<(&str, String)> = Vec::new();
    head.push(("command", "service_serve".to_owned()));
    head.push(("runtime_command", r.runtime_command.clone()));
    head.push(("role", r.role.clone()));
    head.push(("chain_profile", r.chain_profile.clone()));
    head.push(("role_loop_ready", "true".to_owned()));
    head.push(("role_can_produce_blocks", bool_text(r.can_produce_blocks)));
    head.push(("role_wallet_address", r.wallet_address.clone()));
    head.push(("role_wallet_registration", r.wallet_registration.clone()));
    head.push(("role_wallet_registered", bool_text(r.wallet_registered)));
    head.push(("miner_work_ready", bool_text(r.miner_work_ready)));
    head.push(("miner_assigned_jobs_seen", decimal_text(r.miner_assigned_jobs_seen)));
    head.push(("miner_unreceipted_jobs", decimal_text(r.miner_unreceipted_jobs)));
    head.push(("miner_receipts_submitted", decimal_text(r.miner_receipts_submitted)));
    head.push(("miner_tensors_inserted", decimal_text(r.miner_tensors_inserted)));
    head.push(("validator_work_ready", bool_text(r.validator_work_ready)));
    head.push(("validator_assigned_receipts_seen", decimal_text(r.validator_assigned_receipts_seen)));
    head.push(("validator_unattested_receipts", decimal_text(r.validator_unattested_receipts)));
    head.push(("validator_artifact_ready_receipts", decimal_text(r.validator_artifact_ready_receipts)));
    head.push(("validator_artifact_missing_receipts", decimal_text(r.validator_artifact_missing_receipts)));
    head.push(("validator_remote_tensor_fetch_attempts", decimal_text(r.validator_remote_tensor_fetch_attempts)));
    head.push(("validator_remote_tensor_fetch_successes", decimal_text(r.validator_remote_tensor_fetch_successes)));
    head.push(("validator_remote_tensor_fetch_failures", decimal_text(r.validator_remote_tensor_fetch_failures)));
    head.push(("validator_remote_tensor_fetch_bytes", decimal_text(r.validator_remote_tensor_fetch_bytes)));
    head.push(("validator_remote_tensors_inserted", decimal_text(r.validator_remote_tensors_inserted)));
    head.push(("validator_attestations_submitted", decimal_text(r.validator_attestations_submitted)));
    head.push(("validator_block_votes_submitted", decimal_text(r.validator_block_votes_submitted)));
    head.push(("local_producer", bool_text(r.local_producer)));
    head.push(("listen", r.listen.clone()));
    head.push(("p2p_listen", r.p2p_listen.clone()));
    head.push(("p2p_runtime", "libp2p".to_owned()));
    head.push(("p2p_peer_id", r.p2p_peer_id.clone()));
    head.push(("p2p_connected_peers", decimal_text(r.p2p_connected_peers)));
    head.push(("p2p_observed_block_gossip_count", decimal_text(r.p2p_observed_block_gossip_count)));
    head.push(("p2p_observed_block_payload_gossip_count", decimal_text(r.p2p_observed_block_payload_gossip_count)));
    head.push(("p2p_observed_block_vote_gossip_count", decimal_text(r.p2p_observed_block_vote_gossip_count)));
    head.push(("p2p_observed_job_gossip_count", decimal_text(r.p2p_observed_job_gossip_count)));
    head.push(("p2p_observed_receipt_gossip_count", decimal_text(r.p2p_observed_receipt_gossip_count)));
    head.push(("p2p_observed_attestation_gossip_count", decimal_text(r.p2p_observed_attestation_gossip_count)));
    head.push(("p2p_latest_observed_block_height", decimal_text(r.p2p_latest_observed_block_height)));
    head.push(("p2p_latest_observed_block_hash", hex(&r.p2p_latest_observed_block_hash)));
    head.push(("p2p_observed_block_hashes", hex_hash_list(r.p2p_observed_block_hashes.as_slice())));
    head.push(("p2p_latest_observed_block_payload_height", decimal_text(r.p2p_latest_observed_block_payload_height)));
    head.push(("p2p_latest_observed_block_payload_hash", hex(&r.p2p_latest_observed_block_payload_hash)));
    head.push(("p2p_observed_block_payload_hashes", hex_hash_list(r.p2p_observed_block_payload_hashes.as_slice())));
    head.push(("p2p_gossipsub_topics", decimal_text(r.p2p_topics)));
    head.push(("p2p_request_response_protocols", decimal_text(r.p2p_request_response_protocols)));
    head.push(("p2p_bootstrap_peers", decimal_text(r.bootstrap_peer_count)));
    let mut tail: Vec<(&str, String)> = Vec::new();
    tail.push(("p2p_max_transmit_bytes", decimal_text(r.max_transmit_bytes)));
    tail.push(("p2p_request_timeout_seconds", decimal_text(r.request_timeout_seconds)));
    tail.push(("p2p_max_concurrent_streams", decimal_text(r.max_concurrent_streams)));
    tail.push(("p2p_idle_timeout_seconds", decimal_text(r.idle_timeout_seconds)));
    tail.push(("data_dir", r.data_dir.clone()));
    tail.push(("served_requests", decimal_text(r.served_requests)));
    tail.push(("produced_blocks", decimal_text(r.produced_blocks)));
    tail.push(("network_applied_blocks", decimal_text(r.network_applied_blocks)));
    tail.push(("network_events_ingested", decimal_text(r.network_events.events as u64)));
    tail.push(("network_block_events_ingested", decimal_text(r.network_events.block_announcements as u64)));
    tail.push(("network_block_headers_ingested", decimal_text(r.network_events.block_headers as u64)));
    tail.push(("network_block_payloads_ingested", decimal_text(r.network_events.block_payloads as u64)));
    tail.push(("network_block_payloads_applied", decimal_text(r.network_events.block_payloads_applied as u64)));
    tail.push(("network_block_votes_ingested", decimal_text(r.network_events.block_votes as u64)));
    tail.push(("network_block_votes_applied", decimal_text(r.network_events.block_votes_applied as u64)));
    tail.push(("network_job_events_ingested", decimal_text(r.network_events.jobs as u64)));
    tail.push(("network_job_payloads_ingested", decimal_text(r.network_events.job_payloads as u64)));
    tail.push(("network_job_payloads_applied", decimal_text(r.network_events.job_payloads_applied as u64)));
    tail.push(("network_receipt_events_ingested", decimal_text(r.network_events.receipts as u64)));
    tail.push(("network_receipt_payloads_ingested", decimal_text(r.network_events.receipt_payloads as u64)));
    tail.push(("network_receipt_payloads_applied", decimal_text(r.network_events.receipt_payloads_applied as u64)));
    tail.push(("network_attestation_events_ingested", decimal_text(r.network_events.attestations as u64)));
    tail.push(("network_attestation_payloads_ingested", decimal_text(r.network_events.attestation_payloads as u64)));
    tail.push(("network_attestation_payloads_applied", decimal_text(r.network_events.attestation_payloads_applied as u64)));
    tail.push(("network_peer_events_ingested", decimal_text(r.network_events.peers as u64)));
    tail.push(("network_invalid_events", decimal_text(r.network_events.invalid_events as u64)));
    proof {
        reveal_strlit("service_serve");
        reveal_strlit("true");
        reveal_strlit("libp2p");
    }
    assert(fields_view(head@) =~= runtime_report_head(*r));
    assert(fields_view(tail@) =~= runtime_report_tail(*r));
    let mut out = key_value_report(head.as_slice());
    out.append("\n");
    out.append(r.identity.as_str());
    out.append("\n");
    let rest = key_value_report(tail.as_slice());
    out.append(rest.as_str());
    out
}


/// The value a status file gives `key`; `unknown` where there is no file
/// or no such field.
pub open spec fn file_field(contents: Option<Seq<char>>, key: Seq<char>) -> Seq<char> {
    match contents {
        Some(c) => spec_status_field(c, key),
        None => "unknown"@,
    }
}

pub open spec fn text_option(s: Option<String>) -> Option<Seq<char>> {
    match s {
        Some(t) => Some(t@),
        None => None,
    }
}

/// The fields `keys` of a status file, each under its own key.
pub open spec fn file_fields(contents: Option<Seq<char>>, keys: Seq<Seq<char>>) -> Seq<(Seq<char>, Seq<char>)> {
    keys.map_values(|k: Seq<char>| (k, file_field(contents, k)))
}

fn file_field_text(contents: &Option<String>, key: &str) -> (out: String)
    ensures
        out@ == file_field(text_option(*contents), key@),
{
    match contents {
        Some(c) => status_field(c.as_str(), key),
        None => "unknown".to_owned(),
    }
}

fn read_file_fields<'a>(contents: &Option<String>, keys: &[&'a str], fields: &mut Vec<(&'a str, String)>)
    ensures
        fields_view(final(fields)@) == fields_view(old(fields)@)
            + file_fields(text_option(*contents), keys@.map_values(|k: &str| k@)),
{
    let ghost ks = keys@.map_values(|k: &str| k@);
    let ghost start = fields_view(fields@);
    let mut i: usize = 0;
    while i < keys.len()
        invariant
            ks == keys@.map_values(|k: &str| k@),
            i <= keys@.len(),
            fields_view(fields@) == start + file_fields(text_option(*contents), ks.take(i as int)),
        decreases keys@.len() - i,
    {
        let ghost before = fields@;
        let value = file_field_text(contents, keys[i]);
        fields.push((keys[i], value));
        proof {
            assert(ks.take(i + 1) =~= ks.take(i as int).push(keys@[i as int]@));
            assert(fields_view(fields@) =~= fields_view(before).push((keys@[i as int]@, value@)));
        }
        i += 1;
    }
    assert(ks.take(keys@.len() as int) =~= ks);
}

/// A block as the service status counts it.
#[derive(Clone, Copy, Debug, PartialEq, Eq)]
pub struct StatusBlockFacts {
    pub height: u64,
    pub hash: Hash32,
    pub finalized: bool,
}

/// The height of the last block, or 0.
pub open spec fn latest_height(blocks: Seq<StatusBlockFacts>) -> u64 {
    if blocks.len() == 0 { 0 } else { blocks.last().height }
}

/// How many blocks are finalized.
pub open spec fn finalized_count(blocks: Seq<StatusBlockFacts>) -> nat
    decreases blocks.len(),
{
    if blocks.len() == 0 {
        0
    } else {
        finalized_count(blocks.drop_last()) + if blocks.last().finalized { 1nat } else { 0nat }
    }
}

/// The position of the first block above height 2, or the length.
pub open spec fn first_live_index(blocks: Seq<StatusBlockFacts>, i: int) -> int
    decreases blocks.len() - i,
{
    if 0 <= i < blocks.len() && blocks[i].height <= 2 {
        first_live_index(blocks, i + 1)
    } else {
        i
    }
}

/// The height of the first block above height 2, or 0.
pub open spec fn first_live_height(blocks: Seq<StatusBlockFacts>) -> u64 {
    let i = first_live_index(blocks, 0);
    if 0 <= i < blocks.len() { blocks[i].height } else { 0 }
}

/// The hash of the first block above height 2, or zeros.
pub open spec fn first_live_hash(blocks: Seq<StatusBlockFacts>) -> Seq<u8> {
    let i = first_live_index(blocks, 0);
    if 0 <= i < blocks.len() { blocks[i].hash@ } else { Seq::new(32, |k: int| 0u8) }
}

/// The sum of some counts.
pub open spec fn sum_counts(counts: Seq<u64>) -> nat
    decreases counts.len(),
{
    if counts.len() == 0 { 0 } else { sum_counts(counts.drop_last()) + counts.last() as nat }
}

/// How many balances are above zero.
pub open spec fn positive_count(balances: Seq<u64>) -> nat
    decreases balances.len(),
{
    if balances.len() == 0 {
        0
    } else {
        positive_count(balances.drop_last()) + if balances.last() > 0 { 1nat } else { 0nat }
    }
}

/// What the service status is made from: the data directory, the texts of
/// the ready file and of the role runtime status file where they exist,
/// the chain's figures, its blocks, the attestation count of each receipt
/// and the reward balances.
pub struct ServiceStatusInputs {
    pub data_dir: String,
    pub ready_file: Option<String>,
    pub role_runtime_file: Option<String>,
    pub height: u64,
    pub epoch: u64,
    pub block_count: u64,
    pub blocks: Vec<StatusBlockFacts>,
    pub latest_block_hash: Hash32,
    pub state_root: Hash32,
    pub block_log_root: Hash32,
    pub registered_miner_count: u64,
    pub registered_validator_count: u64,
    pub job_count: u64,
    pub receipt_count: u64,
    pub settled_receipt_count: u64,
    pub attestation_counts: Vec<u64>,
    pub reward_balances: Vec<u64>,
    pub model_count: u64,
    pub bootstrap_peer_count: u64,
}

/// The keys the status copies from the role runtime status file.
pub open spec fn role_runtime_keys() -> Seq<Seq<char>> {
    seq![
        "role_runtime_command"@,
        "role_loop_ready"@,
        "role_loop_role"@,
        "role_chain_profile"@,
        "role_can_produce_blocks"@,
        "role_wallet_address"@,
        "role_wallet_registration"@,
        "role_wallet_registered"@,
        "role_miner_work_ready"@,
        "role_miner_assigned_jobs_seen"@,
        "role_miner_unreceipted_jobs"@,
        "role_miner_receipts_submitted"@,
        "role_miner_tensors_inserted"@,
        "role_validator_work_ready"@,
        "role_validator_assigned_receipts_seen"@,
        "role_validator_unattested_receipts"@,
        "role_validator_artifact_ready_receipts"@,
        "role_validator_artifact_missing_receipts"@,
        "role_validator_remote_tensor_fetch_attempts"@,
        "role_validator_remote_tensor_fetch_successes"@,
        "role_validator_remote_tensor_fetch_failures"@,
        "role_validator_remote_tensor_fetch_bytes"@,
        "role_validator_remote_tensors_inserted"@,
        "role_validator_attestations_submitted"@,
        "role_validator_block_votes_submitted"@,
        "role_local_producer"@,
        "role_served_requests"@,
        "role_produced_blocks"@,
        "role_network_applied_blocks"@,
        "role_network_events_ingested"@,
        "role_network_block_events_ingested"@,
        "role_network_block_headers_ingested"@,
        "role_network_block_payloads_ingested"@,
        "role_network_block_payloads_applied"@,
        "role_network_block_votes_ingested"@,
        "role_network_block_votes_applied"@,
        "role_network_job_events_ingested"@,
        "role_network_job_payloads_ingested"@,
        "role_network_job_payloads_applied"@,
        "role_network_receipt_events_ingested"@,
        "role_network_receipt_payloads_ingested"@,
        "role_network_receipt_payloads_applied"@,
        "role_network_attestation_events_ingested"@,
        "role_network_attestation_payloads_ingested"@,
        "role_network_attestation_payloads_applied"@,
        "role_network_peer_events_ingested"@,
        "role_network_invalid_events"@,
        "role_latest_height"@,
        "role_p2p_connected_peers"@,
        "role_p2p_observed_blocks"@,
        "role_p2p_observed_block_payloads"@,
        "role_p2p_observed_block_votes"@,
        "role_p2p_observed_jobs"@,
        "role_p2p_observed_receipts"@,
        "role_p2p_observed_attestations"@,
        "role_p2p_latest_observed_block_height"@,
        "role_p2p_latest_observed_block_hash"@,
        "role_p2p_observed_block_hashes"@,
        "role_p2p_latest_observed_block_payload_height"@,
        "role_p2p_latest_observed_block_payload_hash"@,
        "role_p2p_observed_block_payload_hashes"@,
    ]
}

/// The fields of the service status, in order.
pub open spec fn service_status_fields(b: ServiceStatusInputs) -> Seq<(Seq<char>, Seq<char>)> {
    let ready = text_option(b.ready_file);
    seq![("command"@, "service_status"@), ("data_dir"@, b.data_dir@)]
        + file_fields(ready, seq!["operator_name"@, "operator_id"@, "role"@, "runtime_command"@])
        + file_fields(text_option(b.role_runtime_file), role_runtime_keys())
        + file_fields(ready, seq!["node_multiaddr"@, "p2p_peer_id"@])
        + seq![
            ("height"@, decimal_chars(b.height as nat)),
            ("epoch"@, decimal_chars(b.epoch as nat)),
            ("block_count"@, decimal_chars(b.block_count as nat)),
            ("latest_block_height"@, decimal_chars(latest_height(b.blocks@) as nat)),
            ("latest_block_hash"@, spec_hex(b.latest_block_hash@)),
            ("state_root"@, spec_hex(b.state_root@)),
            ("block_log_root"@, spec_hex(b.block_log_root@)),
            ("finalized_block_count"@, decimal_chars(finalized_count(b.blocks@))),
            ("first_live_block_height"@, decimal_chars(first_live_height(b.blocks@) as nat)),
            ("first_live_block_hash"@, spec_hex(first_live_hash(b.blocks@))),
            ("registered_miner_count"@, decimal_chars(b.registered_miner_count as nat)),
            ("registered_validator_count"@, decimal_chars(b.registered_validator_count as nat)),
            ("job_count"@, decimal_chars(b.job_count as nat)),
            ("receipt_count"@, decimal_chars(b.receipt_count as nat)),
            ("settled_receipt_count"@, decimal_chars(b.settled_receipt_count as nat)),
            ("attestation_count"@, decimal_chars(sum_counts(b.attestation_counts@))),
            ("reward_account_count"@, decimal_chars(positive_count(b.reward_balances@))),
            ("model_count"@, decimal_chars(b.model_count as nat)),
            ("bootstrap_peer_count"@, decimal_chars(b.bootstrap_peer_count as nat)),
            ("node_store_ready"@, "true"@),
            ("status_source"@, "node_store"@),
        ]
}

fn count_blocks(blocks: &[StatusBlockFacts]) -> (out: (u64, u64, u64, Hash32))
    ensures
        out.0 == latest_height(blocks@),
        out.1 == finalized_count(blocks@),
        out.2 == first_live_height(blocks@),
        out.3@ == first_live_hash(blocks@),
{
    let n = blocks.len();
    let latest = if n == 0 { 0 } else { blocks[n - 1].height };
    let mut finalized: u64 = 0;
    let mut i: usize = 0;
    assert(blocks@.take(0) =~= Seq::<StatusBlockFacts>::empty());
    while i < n
        invariant
            n == blocks@.len(),
            i <= n,
            finalized == finalized_count(blocks@.take(i as int)),
            finalized <= i,
        decreases n - i,
    {
        assert(blocks@.take(i + 1).drop_last() =~= blocks@.take(i as int));
        if blocks[i].finalized {
            finalized = finalized + 1;
        }
        i += 1;
    }
    assert(blocks@.take(n as int) =~= blocks@);
    let mut j: usize = 0;
    while j < n && blocks[j].height <= 2
        invariant
            n == blocks@.len(),
            j <= n,
            first_live_index(blocks@, j as int) == first_live_index(blocks@, 0),
        decreases n - j,
    {
        j += 1;
    }
    if j < n {
        (latest, finalized, blocks[j].height, blocks[j].hash)
    } else {
        let zero = [0u8; 32];
        assert(zero@ =~= Seq::new(32, |k: int| 0u8));
        (latest, finalized, 0, zero)
    }
}

fn sum_count_values(counts: &[u64]) -> (out: u64)
    requires
        sum_counts(counts@) <= u64::MAX,
    ensures
        out == sum_counts(counts@),
{
    let mut total: u64 = 0;
    let mut i: usize = 0;
    assert(counts@.take(0) =~= Seq::<u64>::empty());
    while i < counts.len()
        invariant
            i <= counts@.len(),
            total == sum_counts(counts@.take(i as int)),
            sum_counts(counts@) <= u64::MAX,
        decreases counts@.len() - i,
    {
        proof {
            assert(counts@.take(i + 1).drop_last() =~= counts@.take(i as int));
            lemma_sum_counts_prefix(counts@, i + 1);
        }
        total = total + counts[i];
        i += 1;
    }
    assert(counts@.take(counts@.len() as int) =~= counts@);
    total
}

proof fn lemma_sum_counts_prefix(v: Seq<u64>, k: int)
    requires
        0 <= k <= v.len(),
    ensures
        sum_counts(v.take(k)) <= sum_counts(v),
    decreases v.len() - k,
{
    if k < v.len() {
        lemma_sum_counts_prefix(v, k + 1);
        assert(v.take(k + 1).drop_last() =~= v.take(k));
    } else {
        assert(v.take(k) =~= v);
    }
}

fn count_positive(balances: &[u64]) -> (out: u64)
    ensures
        out == positive_count(balances@),
{
    let mut count: u64 = 0;
    let mut i: usize = 0;
    assert(balances@.take(0) =~= Seq::<u64>::empty());
    while i < balances.len()
        invariant
            i <= balances@.len(),
            count == positive_count(balances@.take(i as int)),
            count <= i,
        decreases balances@.len() - i,
    {
        assert(balances@.take(i + 1).drop_last() =~= balances@.take(i as int));
        if balances[i] > 0 {
            count = count + 1;
        }
        i += 1;
    }
    assert(balances@.take(balances@.len() as int) =~= balances@);
    count
}

/// The service status report: the fields of the ready file and of the role
/// runtime status file (`unknown` where missing), then the chain's figures:
/// the last block's height, how many blocks are finalized, the first block
/// above height 2 (or 0 and zeros), the attestations over all receipts and
/// the accounts with a reward balance. The attestation counts must add up
/// within a `u64`.
#[verifier::spinoff_prover]
#[verifier::rlimit(60)]
pub fn service_status_report(b: &ServiceStatusInputs) -> (out: String)
    requires
        sum_counts(b.attestation_counts@) <= u64::MAX,
    ensures
        out@ == report_text(service_status_fields(*b)),
{
    let (latest, finalized, live_height, live_hash) = count_blocks(b.blocks.as_slice());
    let attestations = sum_count_values(b.attestation_counts.as_slice());
    let rewards = count_positive(b.reward_balances.as_slice());
    let mut fields: Vec<(&str, String)> = Vec::new();
    fields.push(("command", "service_status".to_owned()));
    fields.push(("data_dir", b.data_dir.clone()));
    let ghost head = fields_view(fields@);
    assert(head =~= seq![("command"@, "service_status"@), ("data_dir"@, b.data_dir@)]);
    let ready_keys = ["operator_name", "operator_id", "role", "runtime_command"];
    assert(ready_keys@.map_values(|k: &str| k@) =~= seq!["operator_name"@, "operator_id"@, "role"@, "runtime_command"@]);
    read_file_fields(&b.ready_file, &ready_keys, &mut fields);
    let role_keys = [
        "role_runtime_command",
        "role_loop_ready",
        "role_loop_role",
        "role_chain_profile",
        "role_can_produce_blocks",
        "role_wallet_address",
        "role_wallet_registration",
        "role_wallet_registered",
        "role_miner_work_ready",
        "role_miner_assigned_jobs_seen",
        "role_miner_unreceipted_jobs",
        "role_miner_receipts_submitted",
        "role_miner_tensors_inserted",
        "role_validator_work_ready",
        "role_validator_assigned_receipts_seen",
        "role_validator_unattested_receipts",
        "role_validator_artifact_ready_receipts",
        "role_validator_artifact_missing_receipts",
        "role_validator_remote_tensor_fetch_attempts",
        "role_validator_remote_tensor_fetch_successes",
        "role_validator_remote_tensor_fetch_failures",
        "role_validator_remote_tensor_fetch_bytes",
        "role_validator_remote_tensors_inserted",
        "role_validator_attestations_submitted",
        "role_validator_block_votes_submitted",
        "role_local_producer",
        "role_served_requests",
        "role_produced_blocks",
        "role_network_applied_blocks",
        "role_network_events_ingested",
        "role_network_block_events_ingested",
        "role_network_block_headers_ingested",
        "role_network_block_payloads_ingested",
        "role_network_block_payloads_applied",
        "role_network_block_votes_ingested",
        "role_network_block_votes_applied",
        "role_network_job_events_ingested",
        "role_network_job_payloads_ingested",
        "role_network_job_payloads_applied",
        "role_network_receipt_events_ingested",
        "role_network_receipt_payloads_ingested",
        "role_network_receipt_payloads_applied",
        "role_network_attestation_events_ingested",
        "role_network_attestation_payloads_ingested",
        "role_network_attestation_payloads_applied",
        "role_network_peer_events_ingested",
        "role_network_invalid_events",
        "role_latest_height",
        "role_p2p_connected_peers",
        "role_p2p_observed_blocks",
        "role_p2p_observed_block_payloads",
        "role_p2p_observed_block_votes",
        "role_p2p_observed_jobs",
        "role_p2p_observed_receipts",
        "role_p2p_observed_attestations",
        "role_p2p_latest_observed_block_height",
        "role_p2p_latest_observed_block_hash",
        "role_p2p_observed_block_hashes",
        "role_p2p_latest_observed_block_payload_height",
        "role_p2p_latest_observed_block_payload_hash",
        "role_p2p_observed_block_payload_hashes",
    ];
    assert(role_keys@.map_values(|k: &str| k@) =~= role_runtime_keys());
    read_file_fields(&b.role_runtime_file, &role_keys, &mut fields);
    let node_keys = ["node_multiaddr", "p2p_peer_id"];
    assert(node_keys@.map_values(|k: &str| k@) =~= seq!["node_multiaddr"@, "p2p_peer_id"@]);
    read_file_fields(&b.ready_file, &node_keys, &mut fields);
    let ghost mid = fields_view(fields@);
    let mut rest: Vec<(&str, String)> = Vec::new();
    rest.push(("height", decimal_text(b.height)));
    rest.push(("epoch", decimal_text(b.epoch)));
    rest.push(("block_count", decimal_text(b.block_count)));
    rest.push(("latest_block_height", decimal_text(latest)));
    rest.push(("latest_block_hash", hex(&b.latest_block_hash)));
    rest.push(("state_root", hex(&b.state_root)));
    rest.push(("block_log_root", hex(&b.block_log_root)));
    rest.push(("finalized_block_count", decimal_text(finalized)));
    rest.push(("first_live_block_height", decimal_text(live_height)));
    rest.push(("first_live_block_hash", hex(&live_hash)));
    rest.push(("registered_miner_count", decimal_text(b.registered_miner_count)));
    rest.push(("registered_validator_count", decimal_text(b.registered_validator_count)));
    rest.push(("job_count", decimal_text(b.job_count)));
    rest.push(("receipt_count", decimal_text(b.receipt_count)));
    rest.push(("settled_receipt_count", decimal_text(b.settled_receipt_count)));
    rest.push(("attestation_count", decimal_text(attestations)));
    rest.push(("reward_account_count", decimal_text(rewards)));
    rest.push(("model_count", decimal_text(b.model_count)));
    rest.push(("bootstrap_peer_count", decimal_text(b.bootstrap_peer_count)));
    rest.push(("node_store_ready", "true".to_owned()));
    rest.push(("status_source", "node_store".to_owned()));
    proof {
        reveal_strlit("true");
        reveal_strlit("node_store");
    }
    let ghost rv = fields_view(rest@);
    let mut i: usize = 0;
    while i < rest.len()
        invariant
            i <= rest@.len(),
            rv == fields_view(rest@),
            fields_view(fields@) == mid + rv.take(i as int),
        decreases rest@.len() - i,
    {
        let ghost before = fields@;
        let entry = (rest[i].0, rest[i].1.clone());
        fields.push(entry);
        proof {
            assert(rv.take(i + 1) =~= rv.take(i as int).push(rv[i as int]));
            assert(fields_view(fields@) =~= fields_view(before).push((entry.0@, entry.1@)));
        }
        i += 1;
    }
    assert(rv.take(rest@.len() as int) =~= rv);
    assert(fields_view(fields@) =~= service_status_fields(*b));
    key_value_report(fields.as_slice())
}

} // verus!
