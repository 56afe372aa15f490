use vstd::prelude::*;
use vstd::string::StringSliceAdditionalSpecFns;
use vstd::utf8::{decode_utf8, encode_utf8, valid_utf8, encode_utf8_decode_utf8};
use std::collections::VecDeque;
use crate::error::{Result, TvmError};
use crate::text::{split_whitespace, str_eq, utf8_str, words, parse_u64_text, spec_parse_unsigned};
use crate::types::{Address, Hash32, hash_eq, parse_hash_hex, spec_parse_hash_hex};

verus! {

/// A chain transaction.
#[derive(Clone, Debug, Eq, PartialEq)]
pub enum Transaction {
    RegisterMiner(Address),
    RegisterValidator(Address),
    ClaimReward(Address),
    SubmitTensorOpReceipt(Hash32),
    SubmitLinearTrainingStepReceipt(Hash32),
    SubmitAttestation(Hash32),
    Transfer { to: Address, amount: u64 },
}

/// A transaction with its optional sender.
#[derive(Clone, Debug, Eq, PartialEq)]
pub struct TransactionEnvelope {
    pub sender: Option<Address>,
    pub transaction: Transaction,
}

/// The queue of submitted transactions, first in first out, which refuses a
/// receipt it has already seen.
#[derive(Clone, Debug)]
pub struct TxPool {
    queue: VecDeque<Transaction>,
    seen_receipts: Vec<Hash32>,
    seen_attestations: Vec<Hash32>,
}

/// The receipt a transaction submits, if it submits one.
pub open spec fn receipt_id_of(tx: Transaction) -> Option<Hash32> {
    match tx {
        Transaction::SubmitTensorOpReceipt(id) => Some(id),
        Transaction::SubmitLinearTrainingStepReceipt(id) => Some(id),
        _ => None,
    }
}

/// The attestation a transaction submits, if it submits one.
pub open spec fn attestation_id_of(tx: Transaction) -> Option<Hash32> {
    match tx {
        Transaction::SubmitAttestation(id) => Some(id),
        _ => None,
    }
}

/// A pool refuses exactly the second submission of a receipt: tensor-op and
/// linear-training receipts are known by the receipt they submit, and once
/// either kind has been accepted for a receipt, any later receipt
/// submission for it (of either kind) is refused; attestations, whether
/// seen before or not, and every other transaction are always accepted.
pub proof fn lemma_pool_refuses_only_repeated_receipts(seen: Set<Hash32>, tx: Transaction)
    ensures
        (receipt_id_of(tx) matches Some(id) && seen.contains(id)) <==> (
            (tx matches Transaction::SubmitTensorOpReceipt(h) && seen.contains(h))
            || (tx matches Transaction::SubmitLinearTrainingStepReceipt(h) && seen.contains(h))),
        forall|h: Hash32| #![trigger receipt_id_of(Transaction::SubmitTensorOpReceipt(h))]
            receipt_id_of(Transaction::SubmitTensorOpReceipt(h)) == Some(h)
            && receipt_id_of(Transaction::SubmitLinearTrainingStepReceipt(h)) == Some(h),
        forall|h: Hash32| #![trigger attestation_id_of(Transaction::SubmitAttestation(h))]
            attestation_id_of(Transaction::SubmitAttestation(h)) == Some(h)
            && receipt_id_of(Transaction::SubmitAttestation(h)) is None,
        !(tx is SubmitTensorOpReceipt || tx is SubmitLinearTrainingStepReceipt) ==> receipt_id_of(tx) is None,
        !(tx is SubmitAttestation) ==> attestation_id_of(tx) is None,
{
}

impl Default for TxPool {
    /// An empty pool.
    fn default() -> (out: Self)
        ensures
            out.queue() == Seq::<Transaction>::empty(),
            out.seen_receipts() == Set::<Hash32>::empty(),
            out.seen_attestations() == Set::<Hash32>::empty(),
    {
        let out = TxPool { queue: VecDeque::new(), seen_receipts: Vec::new(), seen_attestations: Vec::new() };
        assert(out.seen_receipts@.to_set() =~= Set::<Hash32>::empty());
        assert(out.seen_attestations@.to_set() =~= Set::<Hash32>::empty());
        out
    }
}

fn contains_hash(hashes: &Vec<Hash32>, id: &Hash32) -> (found: bool)
    ensures
        found == hashes@.contains(*id),
{
    let mut i: usize = 0;
    while i < hashes.len()
        invariant
            i <= hashes@.len(),
            forall|j: int| 0 <= j < i ==> hashes@[j] != *id,
        decreases hashes@.len() - i,
    {
        if hash_eq(&hashes[i], id) {
            assert(hashes@[i as int] =~= *id);
            return true;
        }
        i += 1;
    }
    false
}

impl TxPool {
    /// The queued transactions, oldest first.
    pub closed spec fn queue(&self) -> Seq<Transaction> {
        self.queue@
    }

    /// The receipts the pool has accepted.
    pub closed spec fn seen_receipts(&self) -> Set<Hash32> {
        self.seen_receipts@.to_set()
    }

    /// The attestations the pool has accepted.
    pub closed spec fn seen_attestations(&self) -> Set<Hash32> {
        self.seen_attestations@.to_set()
    }

    fn mark_seen(&mut self, tx: &Transaction) -> (fresh: bool)
        ensures
            final(self).queue() == old(self).queue(),
            match receipt_id_of(*tx) {
                Some(id) => fresh == !old(self).seen_receipts().contains(id)
                    && final(self).seen_receipts() == old(self).seen_receipts().insert(id)
                    && final(self).seen_attestations() == old(self).seen_attestations(),
                None => fresh && final(self).seen_receipts() == old(self).seen_receipts()
                    && final(self).seen_attestations() == match attestation_id_of(*tx) {
                        Some(id) => old(self).seen_attestations().insert(id),
                        None => old(self).seen_attestations(),
                    },
            },
    {
        match tx {
            Transaction::SubmitTensorOpReceipt(id) | Transaction::SubmitLinearTrainingStepReceipt(id) => {
                if contains_hash(&self.seen_receipts, id) {
                    assert(old(self).seen_receipts@.to_set().insert(*id) =~= old(self).seen_receipts@.to_set());
                    false
                } else {
                    self.seen_receipts.push(*id);
                    proof { old(self).seen_receipts@.lemma_push_to_set_commute(*id); }
                    assert(self.seen_receipts@.to_set() =~= old(self).seen_receipts@.to_set().insert(*id));
                    true
                }
            },
            Transaction::SubmitAttestation(id) => {
                if !contains_hash(&self.seen_attestations, id) {
                    self.seen_attestations.push(*id);
                    proof { old(self).seen_attestations@.lemma_push_to_set_commute(*id); }
                    assert(self.seen_attestations@.to_set() =~= old(self).seen_attestations@.to_set().insert(*id));
                } else {
                    assert(old(self).seen_attestations@.to_set().insert(*id) =~= old(self).seen_attestations@.to_set());
                }
                true
            },
            _ => true,
        }
    }

    /// Queues a transaction. A receipt submission whose receipt the pool has
    /// already seen is refused and leaves the pool as it was; any other
    /// transaction is queued, and the receipt or attestation it carries is
    /// remembered.
    pub fn submit(&mut self, tx: Transaction) -> (accepted: bool)
        ensures
            accepted == !(receipt_id_of(tx) matches Some(id) && old(self).seen_receipts().contains(id)),
            accepted ==> final(self).queue() == old(self).queue().push(tx),
            !accepted ==> final(self).queue() == old(self).queue(),
            final(self).seen_receipts() == match receipt_id_of(tx) {
                Some(id) => old(self).seen_receipts().insert(id),
                None => old(self).seen_receipts(),
            },
            final(self).seen_attestations() == match attestation_id_of(tx) {
                Some(id) => old(self).seen_attestations().insert(id),
                None => old(self).seen_attestations(),
            },
    {
        if !self.mark_seen(&tx) {
            return false;
        }
        self.queue.push_back(tx);
        true
    }

    /// Queues the transaction of an envelope, as `submit` does.
    pub fn submit_envelope(&mut self, envelope: &TransactionEnvelope) -> (accepted: bool)
        ensures
            accepted == !(receipt_id_of(envelope.transaction) matches Some(id) && old(self).seen_receipts().contains(id)),
            accepted ==> final(self).queue() == old(self).queue().push(envelope.transaction),
            !accepted ==> final(self).queue() == old(self).queue(),
            final(self).seen_receipts() == match receipt_id_of(envelope.transaction) {
                Some(id) => old(self).seen_receipts().insert(id),
                None => old(self).seen_receipts(),
            },
            final(self).seen_attestations() == match attestation_id_of(envelope.transaction) {
                Some(id) => old(self).seen_attestations().insert(id),
                None => old(self).seen_attestations(),
            },
    {
        let tx = copy_transaction(&envelope.transaction);
        self.submit(tx)
    }

    /// Takes the oldest queued transaction.
    pub fn pop(&mut self) -> (out: Option<Transaction>)
        ensures
            old(self).queue().len() == 0 ==> out is None && final(self).queue() == old(self).queue(),
            old(self).queue().len() > 0 ==> out == Some(old(self).queue()[0])
                && final(self).queue() == old(self).queue().drop_first(),
            final(self).seen_receipts() == old(self).seen_receipts(),
            final(self).seen_attestations() == old(self).seen_attestations(),
    {
        self.queue.pop_front()
    }

    /// Takes every queued transaction, oldest first.
    pub fn drain(&mut self) -> (out: Vec<Transaction>)
        ensures
            out@ == old(self).queue(),
            final(self).queue() == Seq::<Transaction>::empty(),
            final(self).seen_receipts() == old(self).seen_receipts(),
            final(self).seen_attestations() == old(self).seen_attestations(),
    {
        let mut out: Vec<Transaction> = Vec::new();
        while self.queue.len() > 0
            invariant
                out@ + self.queue@ == old(self).queue@,
                self.seen_receipts == old(self).seen_receipts,
                self.seen_attestations == old(self).seen_attestations,
            decreases self.queue@.len(),
        {
            let ghost before = self.queue@;
            match self.queue.pop_front() {
                Some(tx) => {
                    out.push(tx);
                    assert(out@ + self.queue@ =~= old(self).queue@);
                },
                None => {},
            }
        }
        assert(out@ =~= old(self).queue@);
        out
    }

    /// The number of queued transactions.
    pub fn len(&self) -> (n: usize)
        ensures
            n == self.queue().len(),
    {
        self.queue.len()
    }

    /// Whether no transaction is queued.
    pub fn is_empty(&self) -> (empty: bool)
        ensures
            empty == (self.queue().len() == 0),
    {
        self.queue.len() == 0
    }
}

fn copy_transaction(tx: &Transaction) -> (out: Transaction)
    ensures
        out == *tx,
{
    match tx {
        Transaction::RegisterMiner(a) => Transaction::RegisterMiner(*a),
        Transaction::RegisterValidator(a) => Transaction::RegisterValidator(*a),
        Transaction::ClaimReward(a) => Transaction::ClaimReward(*a),
        Transaction::SubmitTensorOpReceipt(h) => Transaction::SubmitTensorOpReceipt(*h),
        Transaction::SubmitLinearTrainingStepReceipt(h) => Transaction::SubmitLinearTrainingStepReceipt(*h),
        Transaction::SubmitAttestation(h) => Transaction::SubmitAttestation(*h),
        Transaction::Transfer { to, amount } => Transaction::Transfer { to: *to, amount: *amount },
    }
}

/// The digest a word spells: exactly 64 bytes of hexadecimal text.
pub open spec fn hash_word(w: Seq<char>) -> core::result::Result<Seq<u8>, &'static str> {
    let b = encode_utf8(w);
    if b.len() != 64 {
        Err("invalid hash length")
    } else {
        match spec_parse_hash_hex(b) {
            Ok(h) => Ok(h),
            Err(_) => Err("invalid hex"),
        }
    }
}

/// The amount a word spells.
pub open spec fn u64_word(w: Seq<char>) -> core::result::Result<u64, &'static str> {
    match spec_parse_unsigned(encode_utf8(w), u64::MAX as nat) {
        Some(v) => Ok(v as u64),
        None => Err("invalid integer token"),
    }
}

/// The digest argument at `i`, or why there is none.
pub open spec fn hash_arg(args: Seq<Seq<char>>, i: int) -> core::result::Result<Seq<u8>, &'static str> {
    if i < args.len() {
        hash_word(args[i])
    } else {
        Err("missing hash token")
    }
}

/// The amount argument at `i`, or why there is none.
pub open spec fn u64_arg(args: Seq<Seq<char>>, i: int) -> core::result::Result<u64, &'static str> {
    if i < args.len() {
        u64_word(args[i])
    } else {
        Err("missing integer token")
    }
}

/// The number of arguments a transaction kind takes, or 0 for a word that
/// names no kind.
pub open spec fn kind_arity(kind: Seq<char>) -> int {
    if kind == "register_miner"@ || kind == "register_validator"@ || kind == "claim_reward"@
        || kind == "submit_tensor_receipt"@ || kind == "submit_linear_receipt"@ || kind == "submit_attestation"@ {
        1
    } else if kind == "transfer"@ {
        3
    } else {
        0
    }
}

/// Why a transaction body is refused, or `None` when it is accepted.
pub open spec fn spec_envelope_error(body: Seq<u8>) -> Option<&'static str> {
    if !valid_utf8(body) {
        Some("transaction body is not utf-8")
    } else {
        let w = words(decode_utf8(body));
        if w.len() == 0 {
            Some("empty transaction body")
        } else {
            let args = w.subrange(1, w.len() as int);
            let arity = kind_arity(w[0]);
            if arity == 0 {
                Some("unknown transaction kind")
            } else if args.len() > arity {
                Some("unexpected transaction body token")
            } else if hash_arg(args, 0) is Err {
                Some(hash_arg(args, 0)->Err_0)
            } else if arity == 3 && hash_arg(args, 1) is Err {
                Some(hash_arg(args, 1)->Err_0)
            } else if arity == 3 && u64_arg(args, 2) is Err {
                Some(u64_arg(args, 2)->Err_0)
            } else {
                None
            }
        }
    }
}

/// Whether an envelope is what an accepted body says.
pub open spec fn envelope_denotes(e: TransactionEnvelope, body: Seq<u8>) -> bool {
    let w = words(decode_utf8(body));
    let kind = w[0];
    let args = w.subrange(1, w.len() as int);
    let a = hash_arg(args, 0)->Ok_0;
    if kind == "transfer"@ {
        &&& e.sender matches Some(s) && s@ == a
        &&& e.transaction matches Transaction::Transfer { to, amount }
            && to@ == hash_arg(args, 1)->Ok_0 && amount == u64_arg(args, 2)->Ok_0
    } else {
        e.sender is None && if kind == "register_miner"@ {
            e.transaction matches Transaction::RegisterMiner(x) && x@ == a
        } else if kind == "register_validator"@ {
            e.transaction matches Transaction::RegisterValidator(x) && x@ == a
        } else if kind == "claim_reward"@ {
            e.transaction matches Transaction::ClaimReward(x) && x@ == a
        } else if kind == "submit_tensor_receipt"@ {
            e.transaction matches Transaction::SubmitTensorOpReceipt(x) && x@ == a
        } else if kind == "submit_linear_receipt"@ {
            e.transaction matches Transaction::SubmitLinearTrainingStepReceipt(x) && x@ == a
        } else {
            e.transaction matches Transaction::SubmitAttestation(x) && x@ == a
        }
    }
}

fn parse_hash_token(args: &Vec<&str>, i: usize) -> (out: Result<Hash32>)
    ensures
        match hash_arg(args@.map_values(|w: &str| w@), i as int) {
            Ok(h) => out matches Ok(v) && v@ == h,
            Err(m) => out matches Err(TvmError::InvalidReceipt(x)) && x@ == m@,
        },
{
    if i >= args.len() {
        return Err(TvmError::InvalidReceipt("missing hash token"));
    }
    let token = args[i];
    assert(args@.map_values(|w: &str| w@)[i as int] == token@);
    assert(token.spec_bytes() == encode_utf8(token@));
    if token.as_bytes().len() != 64 {
        return Err(TvmError::InvalidReceipt("invalid hash length"));
    }
    let r = parse_hash_hex(token);
    match r {
        Ok(h) => {
            assert(spec_parse_hash_hex(encode_utf8(token@)) == Ok::<Seq<u8>, crate::types::HashHexParseError>(h@));
            assert(hash_word(token@) == Ok::<Seq<u8>, &'static str>(h@));
            Ok(h)
        },
        Err(_) => {
            assert(spec_parse_hash_hex(encode_utf8(token@)) is Err);
            assert(hash_word(token@) == Err::<Seq<u8>, &'static str>("invalid hex"));
            Err(TvmError::InvalidReceipt("invalid hex"))
        },
    }
}

fn parse_u64_token(args: &Vec<&str>, i: usize) -> (out: Result<u64>)
    ensures
        match u64_arg(args@.map_values(|w: &str| w@), i as int) {
            Ok(v) => out == Ok::<u64, TvmError>(v),
            Err(m) => out matches Err(TvmError::InvalidReceipt(x)) && x@ == m@,
        },
{
    if i >= args.len() {
        return Err(TvmError::InvalidReceipt("missing integer token"));
    }
    let token = args[i];
    assert(args@.map_values(|w: &str| w@)[i as int] == token@);
    match parse_u64_text(token.as_bytes()) {
        Some(v) => Ok(v),
        None => Err(TvmError::InvalidReceipt("invalid integer token")),
    }
}

/// Reads a transaction from its text form: a kind word and its arguments,
/// separated by whitespace. `transfer` takes a sender, a receiver and an
/// amount; the other kinds take one 64-digit hexadecimal digest.
pub fn parse_transaction_envelope(body: &[u8]) -> (out: Result<TransactionEnvelope>)
    ensures
        match out {
            Ok(e) => spec_envelope_error(body@) is None && envelope_denotes(e, body@),
            Err(err) => spec_envelope_error(body@) matches Some(m)
                && (err matches TvmError::InvalidReceipt(x) && x@ == m@),
        },
{
    let text = match utf8_str(body) {
        Some(t) => t,
        None => return Err(TvmError::InvalidReceipt("transaction body is not utf-8")),
    };
    proof {
        encode_utf8_decode_utf8(text@);
    }
    let tokens = split_whitespace(text);
    let ghost w = tokens@.map_values(|t: &str| t@);
    assert(w == words(decode_utf8(body@)));
    if tokens.len() == 0 {
        return Err(TvmError::InvalidReceipt("empty transaction body"));
    }
    let kind = tokens[0];
    assert(w[0] == kind@);
    let mut args: Vec<&str> = Vec::new();
    let mut i: usize = 1;
    while i < tokens.len()
        invariant
            1 <= i <= tokens@.len(),
            args@.map_values(|t: &str| t@) == w.subrange(1, i as int),
            w == tokens@.map_values(|t: &str| t@),
        decreases tokens@.len() - i,
    {
        let ghost before = args@;
        args.push(tokens[i]);
        assert(w[i as int] == tokens@[i as int]@);
        assert(args@.map_values(|t: &str| t@) =~= before.map_values(|t: &str| t@).push(tokens@[i as int]@));
        assert(args@.map_values(|t: &str| t@) =~= w.subrange(1, i + 1));
        i += 1;
    }
    let ghost a = args@.map_values(|t: &str| t@);
    let single = str_eq(kind, "register_miner") || str_eq(kind, "register_validator")
        || str_eq(kind, "claim_reward") || str_eq(kind, "submit_tensor_receipt")
        || str_eq(kind, "submit_linear_receipt") || str_eq(kind, "submit_attestation");
    if single {
        if args.len() > 1 {
            return Err(TvmError::InvalidReceipt("unexpected transaction body token"));
        }
        let h = parse_hash_token(&args, 0)?;
        let transaction = if str_eq(kind, "register_miner") {
            Transaction::RegisterMiner(h)
        } else if str_eq(kind, "register_validator") {
            Transaction::RegisterValidator(h)
        } else if str_eq(kind, "claim_reward") {
            Transaction::ClaimReward(h)
        } else if str_eq(kind, "submit_tensor_receipt") {
            Transaction::SubmitTensorOpReceipt(h)
        } else if str_eq(kind, "submit_linear_receipt") {
            Transaction::SubmitLinearTrainingStepReceipt(h)
        } else {
            Transaction::SubmitAttestation(h)
        };
        proof {
            reveal_strlit("transfer");
            reveal_strlit("register_miner");
            reveal_strlit("register_validator");
            reveal_strlit("claim_reward");
            reveal_strlit("submit_tensor_receipt");
            reveal_strlit("submit_linear_receipt");
            reveal_strlit("submit_attestation");
            assert(kind@ != "transfer"@);
        }
        Ok(TransactionEnvelope { sender: None, transaction })
    } else if str_eq(kind, "transfer") {
        if args.len() > 3 {
            return Err(TvmError::InvalidReceipt("unexpected transaction body token"));
        }
        let sender = parse_hash_token(&args, 0)?;
        let to = parse_hash_token(&args, 1)?;
        let amount = parse_u64_token(&args, 2)?;
        Ok(TransactionEnvelope { sender: Some(sender), transaction: Transaction::Transfer { to, amount } })
    } else {
        Err(TvmError::InvalidReceipt("unknown transaction kind"))
    }
}

} // verus!
