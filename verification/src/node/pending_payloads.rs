use vstd::prelude::*;
use crate::types::Hash32;
use crate::node::keys::{QueueKey, lex_lt, lemma_lex_irreflexive, lemma_lex_transitive, lemma_lex_total};
use crate::node::payload_processor::{NetworkBlockPayloadApply, NetworkPayloadApply, NetworkPayloadProcessor};
use crate::node::runtime_state::NetworkEventIngest;

verus! {

/// Whether the entries are in strictly ascending key order.
pub open spec fn sorted_keys<K: QueueKey>(s: Seq<(K, Seq<u8>)>) -> bool {
    forall|i: int, j: int|
        0 <= i < j < s.len() ==> lex_lt(#[trigger] s[i].0.order_key(), #[trigger] s[j].0.order_key())
}

/// Whether some entry has key `k`.
pub open spec fn holds_key<K>(s: Seq<(K, Seq<u8>)>, k: K) -> bool {
    exists|i: int| 0 <= i < s.len() && s[i].0 == k
}

/// A sorted entry list with `(k, p)` added in its place, or unchanged where
/// `k` is already there: the first payload queued under a key is kept.
pub open spec fn insert_sorted<K: QueueKey>(s: Seq<(K, Seq<u8>)>, k: K, p: Seq<u8>) -> Seq<(K, Seq<u8>)>
    decreases s.len(),
{
    if s.len() == 0 {
        seq![(k, p)]
    } else if lex_lt(s[0].0.order_key(), k.order_key()) {
        seq![s[0]] + insert_sorted(s.drop_first(), k, p)
    } else if s[0].0 == k {
        s
    } else {
        seq![(k, p)] + s
    }
}

/// Every entry of `new` is an entry of `old`.
pub open spec fn retained<K>(new: Seq<(K, Seq<u8>)>, old: Seq<(K, Seq<u8>)>) -> bool {
    forall|i: int| 0 <= i < new.len() ==> old.contains(#[trigger] new[i])
}

proof fn lemma_sorted_skip<K: QueueKey>(s: Seq<(K, Seq<u8>)>, i: int)
    requires
        sorted_keys(s),
        0 <= i <= s.len(),
    ensures
        sorted_keys(s.skip(i)),
{
    assert forall|a: int, b: int| 0 <= a < b < s.skip(i).len() implies
        lex_lt(#[trigger] s.skip(i)[a].0.order_key(), #[trigger] s.skip(i)[b].0.order_key()) by {
        assert(s.skip(i)[a] == s[a + i]);
        assert(s.skip(i)[b] == s[b + i]);
    }
}

proof fn lemma_insert_sorted_prefix<K: QueueKey>(s: Seq<(K, Seq<u8>)>, k: K, p: Seq<u8>, i: int)
    requires
        0 <= i <= s.len(),
        forall|j: int| 0 <= j < i ==> lex_lt(#[trigger] s[j].0.order_key(), k.order_key()),
    ensures
        insert_sorted(s, k, p) == s.take(i) + insert_sorted(s.skip(i), k, p),
    decreases i,
{
    if i == 0 {
        assert(s.skip(0) =~= s);
        assert(s.take(0) + insert_sorted(s, k, p) =~= insert_sorted(s, k, p));
    } else {
        let t = s.drop_first();
        assert forall|j: int| 0 <= j < i - 1 implies lex_lt(#[trigger] t[j].0.order_key(), k.order_key()) by {
            assert(t[j] == s[j + 1]);
        }
        lemma_insert_sorted_prefix(t, k, p, i - 1);
        assert(t.skip(i - 1) =~= s.skip(i));
        assert(s.take(i) =~= seq![s[0]] + t.take(i - 1));
        assert(lex_lt(s[0].0.order_key(), k.order_key()));
        assert(seq![s[0]] + (t.take(i - 1) + insert_sorted(s.skip(i), k, p))
            =~= s.take(i) + insert_sorted(s.skip(i), k, p));
    }
}

/// Queueing keeps entries sorted; a key already held leaves the entries as
/// they are; a new key adds exactly one entry, holding the given payload.
pub proof fn lemma_insert_sorted<K: QueueKey>(s: Seq<(K, Seq<u8>)>, k: K, p: Seq<u8>)
    requires
        sorted_keys(s),
    ensures
        sorted_keys(insert_sorted(s, k, p)),
        holds_key(s, k) ==> insert_sorted(s, k, p) == s,
        !holds_key(s, k) ==> insert_sorted(s, k, p).len() == s.len() + 1,
        !holds_key(s, k) ==> insert_sorted(s, k, p).contains((k, p)),
        retained(s, insert_sorted(s, k, p)),
    decreases s.len(),
{
    let r = insert_sorted(s, k, p);
    if s.len() == 0 {
        assert(r[0] == (k, p));
    } else {
        K::lemma_order_key(s[0].0, k);
        lemma_lex_total(s[0].0.order_key(), k.order_key());
        if lex_lt(s[0].0.order_key(), k.order_key()) {
            let t = s.drop_first();
            lemma_sorted_skip(s, 1);
            assert(t =~= s.skip(1));
            lemma_insert_sorted(t, k, p);
            let rt = insert_sorted(t, k, p);
            assert(r == seq![s[0]] + rt);
            assert forall|j: int| 0 <= j < rt.len() implies lex_lt(s[0].0.order_key(), #[trigger] rt[j].0.order_key()) by {
                if rt[j] == (k, p) {
                } else {
                    assert(t.contains(rt[j]) || rt[j] == (k, p)) by {
                        if !holds_key(t, k) {
                        }
                        lemma_insert_sorted_members(t, k, p, j);
                    }
                    let m = choose|m: int| 0 <= m < t.len() && t[m] == rt[j];
                    assert(s[m + 1] == t[m]);
                }
            }
            assert forall|a: int, b: int| 0 <= a < b < r.len() implies
                lex_lt(#[trigger] r[a].0.order_key(), #[trigger] r[b].0.order_key()) by {
                if a == 0 {
                    assert(r[b] == rt[b - 1]);
                } else {
                    assert(r[a] == rt[a - 1]);
                    assert(r[b] == rt[b - 1]);
                }
            }
            if holds_key(s, k) {
                let m = choose|m: int| 0 <= m < s.len() && s[m].0 == k;
                if m == 0 {
                    lemma_lex_irreflexive(k.order_key());
                }
                assert(t[m - 1].0 == k);
                assert(r =~= s);
            } else {
                assert forall|m: int| !(0 <= m < t.len() && t[m].0 == k) by {
                    if 0 <= m < t.len() && t[m].0 == k {
                        assert(s[m + 1].0 == k);
                    }
                }
                let w = choose|w: int| 0 <= w < rt.len() && rt[w] == (k, p);
                assert(r[w + 1] == (k, p));
            }
            assert forall|j: int| 0 <= j < s.len() implies r.contains(#[trigger] s[j]) by {
                if j == 0 {
                    assert(r[0] == s[0]);
                } else {
                    assert(s[j] == t[j - 1]);
                    let w = choose|w: int| 0 <= w < rt.len() && rt[w] == t[j - 1];
                    assert(r[w + 1] == s[j]);
                }
            }
        } else if s[0].0 == k {
            assert(holds_key(s, k));
            assert forall|j: int| 0 <= j < s.len() implies r.contains(#[trigger] s[j]) by {
                assert(r[j] == s[j]);
            }
        } else {
            assert(lex_lt(k.order_key(), s[0].0.order_key()));
            assert forall|a: int, b: int| 0 <= a < b < r.len() implies
                lex_lt(#[trigger] r[a].0.order_key(), #[trigger] r[b].0.order_key()) by {
                if a == 0 {
                    assert(r[b] == s[b - 1]);
                    if b - 1 > 0 {
                        lemma_lex_transitive(k.order_key(), s[0].0.order_key(), s[b - 1].0.order_key());
                    }
                } else {
                    assert(r[a] == s[a - 1]);
                    assert(r[b] == s[b - 1]);
                }
            }
            assert forall|m: int| !(0 <= m < s.len() && s[m].0 == k) by {
                if 0 <= m < s.len() && s[m].0 == k {
                    if m == 0 {
                    } else {
                        lemma_lex_transitive(k.order_key(), s[0].0.order_key(), s[m].0.order_key());
                        lemma_lex_irreflexive(k.order_key());
                    }
                }
            }
            assert(r[0] == (k, p));
            assert forall|j: int| 0 <= j < s.len() implies r.contains(#[trigger] s[j]) by {
                assert(r[j + 1] == s[j]);
            }
        }
    }
}

proof fn lemma_insert_sorted_members<K: QueueKey>(s: Seq<(K, Seq<u8>)>, k: K, p: Seq<u8>, j: int)
    requires
        0 <= j < insert_sorted(s, k, p).len(),
    ensures
        s.contains(insert_sorted(s, k, p)[j]) || insert_sorted(s, k, p)[j] == (k, p),
    decreases s.len(),
{
    let r = insert_sorted(s, k, p);
    if s.len() == 0 {
    } else if lex_lt(s[0].0.order_key(), k.order_key()) {
        if j == 0 {
            assert(r[0] == s[0]);
        } else {
            let t = s.drop_first();
            lemma_insert_sorted_members(t, k, p, j - 1);
            assert(r[j] == insert_sorted(t, k, p)[j - 1]);
            if t.contains(r[j]) {
                let m = choose|m: int| 0 <= m < t.len() && t[m] == r[j];
                assert(s[m + 1] == r[j]);
            }
        }
    } else if s[0].0 == k {
        assert(s[j] == r[j]);
    } else {
        if j > 0 {
            assert(r[j] == s[j - 1]);
        }
    }
}

/// Payloads waiting under keys of type `K`, kept in ascending key order.
#[verifier::reject_recursive_types(K)]
pub struct PayloadQueue<K> {
    entries: Vec<(K, Vec<u8>)>,
}

impl<K: QueueKey> PayloadQueue<K> {
    /// The queued entries in key order.
    pub closed spec fn entries(&self) -> Seq<(K, Seq<u8>)> {
        self.entries@.map_values(|e: (K, Vec<u8>)| (e.0, e.1@))
    }

    fn new() -> (q: Self)
        ensures
            q.entries() == Seq::<(K, Seq<u8>)>::empty(),
    {
        let q = PayloadQueue { entries: Vec::new() };
        assert(q.entries() =~= Seq::<(K, Seq<u8>)>::empty());
        q
    }

    fn len(&self) -> (n: usize)
        ensures
            n == self.entries().len(),
    {
        self.entries.len()
    }

    fn key_at(&self, i: usize) -> (k: K)
        requires
            i < self.entries().len(),
        ensures
            k == self.entries()[i as int].0,
    {
        self.entries[i].0.duplicate()
    }

    fn payload_at(&self, i: usize) -> (p: Vec<u8>)
        requires
            i < self.entries().len(),
        ensures
            p@ == self.entries()[i as int].1,
    {
        let p = self.entries[i].1.clone();
        assert(p@ =~= self.entries@[i as int].1@);
        p
    }

    fn remove_at(&mut self, i: usize)
        requires
            i < old(self).entries().len(),
        ensures
            final(self).entries() == old(self).entries().remove(i as int),
    {
        let ghost before = self.entries@;
        self.entries.remove(i);
        assert(self.entries() =~= before.map_values(|e: (K, Vec<u8>)| (e.0, e.1@)).remove(i as int));
    }

    /// Settles the entry at `i` by what the processor answered for it: an
    /// `Applied` or `Invalid` entry leaves the queue, so the next entry to
    /// offer is again at `i`; a `Pending` one stays, and the next is at
    /// `i + 1`.
    pub fn settle_at(&mut self, i: usize, answer: NetworkPayloadApply) -> (next: usize)
        requires
            i < old(self).entries().len(),
            sorted_keys(old(self).entries()),
        ensures
            sorted_keys(final(self).entries()),
            retained(final(self).entries(), old(self).entries()),
            answer == NetworkPayloadApply::Pending ==> final(self).entries() == old(self).entries() && next == i + 1,
            answer != NetworkPayloadApply::Pending ==> final(self).entries() == old(self).entries().remove(i as int)
                && next == i,
    {
        match answer {
            NetworkPayloadApply::Pending => {
                let n = self.len();
                proof {
                    assert forall|j: int| 0 <= j < self.entries().len() implies
                        self.entries().contains(#[trigger] self.entries()[j]) by {}
                }
                assert(i < n);
                i + 1
            },
            _ => {
                proof {
                    lemma_remove_sorted(self.entries(), i as int);
                }
                self.remove_at(i);
                i
            },
        }
    }

    fn insert_absent(&mut self, key: K, payload: Vec<u8>)
        requires
            sorted_keys(old(self).entries()),
        ensures
            final(self).entries() == insert_sorted(old(self).entries(), key, payload@),
    {
        let ghost s = self.entries();
        let n = self.entries.len();
        let mut i: usize = 0;
        while i < n && self.entries[i].0.precedes(&key)
            invariant
                n == self.entries@.len(),
                s == self.entries(),
                sorted_keys(s),
                i <= n,
                forall|j: int| 0 <= j < i ==> lex_lt(#[trigger] s[j].0.order_key(), key.order_key()),
            decreases n - i,
        {
            assert(s[i as int].0 == self.entries@[i as int].0);
            i += 1;
        }
        proof {
            lemma_insert_sorted_prefix(s, key, payload@, i as int);
        }
        if i < n {
            assert(s[i as int].0 == self.entries@[i as int].0);
            assert(s.skip(i as int)[0] == s[i as int]);
            assert(s.skip(i as int).drop_first() =~= s.skip(i + 1));
            if !key.precedes(&self.entries[i].0) {
                proof {
                    K::lemma_order_key(key, s[i as int].0);
                    lemma_lex_total(key.order_key(), s[i as int].0.order_key());
                    assert(insert_sorted(s.skip(i as int), key, payload@) == s.skip(i as int));
                    assert(s.take(i as int) + s.skip(i as int) =~= s);
                }
                return;
            }
            proof {
                lemma_lex_irreflexive(key.order_key());
                if s[i as int].0 == key {
                }
            }
        }
        let ghost before = self.entries@;
        self.entries.insert(i, (key, payload));
        proof {
            if i < n {
                assert(insert_sorted(s.skip(i as int), key, payload@) == seq![(key, payload@)] + s.skip(i as int));
            } else {
                assert(s.skip(i as int) =~= Seq::<(K, Seq<u8>)>::empty());
            }
            assert(self.entries() =~= s.take(i as int) + insert_sorted(s.skip(i as int), key, payload@));
        }
    }
}

/// What one pass over a queue did: entries applied, entries dropped as
/// invalid, and blocks appended.
struct PassCounts {
    applied: usize,
    invalid: usize,
    appended: usize,
}

/// Payloads that arrived before what they depend on, per kind, each kind
/// in ascending key order with one payload per key.
pub struct PendingNetworkPayloads {
    jobs: PayloadQueue<Hash32>,
    blocks: PayloadQueue<(u64, Hash32)>,
    block_votes: PayloadQueue<(Hash32, Hash32)>,
    receipts: PayloadQueue<Hash32>,
    attestations: PayloadQueue<Hash32>,
}

impl PendingNetworkPayloads {
    pub closed spec fn jobs(&self) -> Seq<(Hash32, Seq<u8>)> {
        self.jobs.entries()
    }

    pub closed spec fn blocks(&self) -> Seq<((u64, Hash32), Seq<u8>)> {
        self.blocks.entries()
    }

    pub closed spec fn block_votes(&self) -> Seq<((Hash32, Hash32), Seq<u8>)> {
        self.block_votes.entries()
    }

    pub closed spec fn receipts(&self) -> Seq<(Hash32, Seq<u8>)> {
        self.receipts.entries()
    }

    pub closed spec fn attestations(&self) -> Seq<(Hash32, Seq<u8>)> {
        self.attestations.entries()
    }

    /// Every kind is in strictly ascending key order.
    pub open spec fn wf(&self) -> bool {
        &&& sorted_keys(self.jobs())
        &&& sorted_keys(self.blocks())
        &&& sorted_keys(self.block_votes())
        &&& sorted_keys(self.receipts())
        &&& sorted_keys(self.attestations())
    }

    /// The number of payloads waiting, of all kinds.
    pub open spec fn total_len(&self) -> int {
        self.jobs().len() + self.blocks().len() + self.block_votes().len() + self.receipts().len()
            + self.attestations().len() as int
    }

    pub fn is_empty(&self) -> (out: bool)
        ensures
            out == (self.total_len() == 0),
    {
        self.jobs.len() == 0 && self.blocks.len() == 0 && self.block_votes.len() == 0
            && self.receipts.len() == 0 && self.attestations.len() == 0
    }

    pub fn pending_job_count(&self) -> (n: usize)
        ensures
            n == self.jobs().len(),
    {
        self.jobs.len()
    }

    pub fn pending_block_count(&self) -> (n: usize)
        ensures
            n == self.blocks().len(),
    {
        self.blocks.len()
    }

    pub fn pending_block_vote_count(&self) -> (n: usize)
        ensures
            n == self.block_votes().len(),
    {
        self.block_votes.len()
    }

    pub fn pending_receipt_count(&self) -> (n: usize)
        ensures
            n == self.receipts().len(),
    {
        self.receipts.len()
    }

    pub fn pending_attestation_count(&self) -> (n: usize)
        ensures
            n == self.attestations().len(),
    {
        self.attestations.len()
    }

    /// Queues a job payload under its key; where the key is already
    /// queued, the payload queued first stays.
    pub fn queue_job(&mut self, job_id: Hash32, payload: Vec<u8>)
        requires
            old(self).wf(),
        ensures
            final(self).wf(),
            final(self).jobs() == insert_sorted(old(self).jobs(), job_id, payload@),
            final(self).blocks() == old(self).blocks(),
            final(self).block_votes() == old(self).block_votes(),
            final(self).receipts() == old(self).receipts(),
            final(self).attestations() == old(self).attestations(),
    {
        proof {
            lemma_insert_sorted(self.jobs(), job_id, payload@);
        }
        self.jobs.insert_absent(job_id, payload);
    }

    /// Queues a receipt payload under its key; where the key is already
    /// queued, the payload queued first stays.
    pub fn queue_receipt(&mut self, receipt_id: Hash32, payload: Vec<u8>)
        requires
            old(self).wf(),
        ensures
            final(self).wf(),
            final(self).receipts() == insert_sorted(old(self).receipts(), receipt_id, payload@),
            final(self).jobs() == old(self).jobs(),
            final(self).blocks() == old(self).blocks(),
            final(self).block_votes() == old(self).block_votes(),
            final(self).attestations() == old(self).attestations(),
    {
        proof {
            lemma_insert_sorted(self.receipts(), receipt_id, payload@);
        }
        self.receipts.insert_absent(receipt_id, payload);
    }

    /// Queues a block payload under its key; where the key is already
    /// queued, the payload queued first stays.
    pub fn queue_block(&mut self, height: u64, block_hash: Hash32, payload: Vec<u8>)
        requires
            old(self).wf(),
        ensures
            final(self).wf(),
            final(self).blocks() == insert_sorted(old(self).blocks(), (height, block_hash), payload@),
            final(self).jobs() == old(self).jobs(),
            final(self).block_votes() == old(self).block_votes(),
            final(self).receipts() == old(self).receipts(),
            final(self).attestations() == old(self).attestations(),
    {
        proof {
            lemma_insert_sorted(self.blocks(), (height, block_hash), payload@);
        }
        self.blocks.insert_absent((height, block_hash), payload);
    }

    /// Queues a block_vote payload under its key; where the key is already
    /// queued, the payload queued first stays.
    pub fn queue_block_vote(&mut self, block_hash: Hash32, validator: Hash32, payload: Vec<u8>)
        requires
            old(self).wf(),
        ensures
            final(self).wf(),
            final(self).block_votes() == insert_sorted(old(self).block_votes(), (block_hash, validator), payload@),
            final(self).jobs() == old(self).jobs(),
            final(self).blocks() == old(self).blocks(),
            final(self).receipts() == old(self).receipts(),
            final(self).attestations() == old(self).attestations(),
    {
        proof {
            lemma_insert_sorted(self.block_votes(), (block_hash, validator), payload@);
        }
        self.block_votes.insert_absent((block_hash, validator), payload);
    }

    /// Queues a attestation payload under its key; where the key is already
    /// queued, the payload queued first stays.
    pub fn queue_attestation(&mut self, attestation_id: Hash32, payload: Vec<u8>)
        requires
            old(self).wf(),
        ensures
            final(self).wf(),
            final(self).attestations() == insert_sorted(old(self).attestations(), attestation_id, payload@),
            final(self).jobs() == old(self).jobs(),
            final(self).blocks() == old(self).blocks(),
            final(self).block_votes() == old(self).block_votes(),
            final(self).receipts() == old(self).receipts(),
    {
        proof {
            lemma_insert_sorted(self.attestations(), attestation_id, payload@);
        }
        self.attestations.insert_absent(attestation_id, payload);
    }
}

proof fn lemma_remove_sorted<K: QueueKey>(s: Seq<(K, Seq<u8>)>, i: int)
    requires
        sorted_keys(s),
        0 <= i < s.len(),
    ensures
        sorted_keys(s.remove(i)),
        retained(s.remove(i), s),
{
    let r = s.remove(i);
    assert forall|a: int, b: int| 0 <= a < b < r.len() implies
        lex_lt(#[trigger] r[a].0.order_key(), #[trigger] r[b].0.order_key()) by {
        let a2 = if a < i { a } else { a + 1 };
        let b2 = if b < i { b } else { b + 1 };
        assert(r[a] == s[a2]);
        assert(r[b] == s[b2]);
    }
    assert forall|j: int| 0 <= j < r.len() implies s.contains(#[trigger] r[j]) by {
        if j < i {
            assert(r[j] == s[j]);
        } else {
            assert(r[j] == s[j + 1]);
        }
    }
}

/// What a pass over queued job payloads comes to, from the
/// entries `es` still to offer, the processor `p`, the entries `kept` so far
/// and the counts so far: each entry is offered in turn to the processor in
/// the state the earlier offers left it in, and is kept exactly when it is
/// answered `Pending`. The result is the kept entries, the processor's last
/// state and the counts of `Applied` and `Invalid` answers.
pub open spec fn job_pass<P: NetworkPayloadProcessor>(
    es: Seq<(Hash32, Seq<u8>)>,
    p: P,
    kept: Seq<(Hash32, Seq<u8>)>,
    applied: nat,
    invalid: nat,
) -> (Seq<(Hash32, Seq<u8>)>, P, nat, nat)
    decreases es.len(),
{
    if es.len() == 0 {
        (kept, p, applied, invalid)
    } else {
        let e = es[0];
        let next = p.after_job(e.0, e.1);
        match p.job_answer(e.0, e.1) {
            NetworkPayloadApply::Applied => job_pass(es.drop_first(), next, kept, applied + 1, invalid),
            NetworkPayloadApply::Invalid => job_pass(es.drop_first(), next, kept, applied, invalid + 1),
            NetworkPayloadApply::Pending => job_pass(es.drop_first(), next, kept.push(e), applied, invalid),
        }
    }
}

/// What a pass over queued receipt payloads comes to, from the
/// entries `es` still to offer, the processor `p`, the entries `kept` so far
/// and the counts so far: each entry is offered in turn to the processor in
/// the state the earlier offers left it in, and is kept exactly when it is
/// answered `Pending`. The result is the kept entries, the processor's last
/// state and the counts of `Applied` and `Invalid` answers.
pub open spec fn receipt_pass<P: NetworkPayloadProcessor>(
    es: Seq<(Hash32, Seq<u8>)>,
    p: P,
    kept: Seq<(Hash32, Seq<u8>)>,
    applied: nat,
    invalid: nat,
) -> (Seq<(Hash32, Seq<u8>)>, P, nat, nat)
    decreases es.len(),
{
    if es.len() == 0 {
        (kept, p, applied, invalid)
    } else {
        let e = es[0];
        let next = p.after_receipt(e.0, e.1);
        match p.receipt_answer(e.0, e.1) {
            NetworkPayloadApply::Applied => receipt_pass(es.drop_first(), next, kept, applied + 1, invalid),
            NetworkPayloadApply::Invalid => receipt_pass(es.drop_first(), next, kept, applied, invalid + 1),
            NetworkPayloadApply::Pending => receipt_pass(es.drop_first(), next, kept.push(e), applied, invalid),
        }
    }
}

/// What a pass over queued attestation payloads comes to, from the
/// entries `es` still to offer, the processor `p`, the entries `kept` so far
/// and the counts so far: each entry is offered in turn to the processor in
/// the state the earlier offers left it in, and is kept exactly when it is
/// answered `Pending`. The result is the kept entries, the processor's last
/// state and the counts of `Applied` and `Invalid` answers.
pub open spec fn attestation_pass<P: NetworkPayloadProcessor>(
    es: Seq<(Hash32, Seq<u8>)>,
    p: P,
    kept: Seq<(Hash32, Seq<u8>)>,
    applied: nat,
    invalid: nat,
) -> (Seq<(Hash32, Seq<u8>)>, P, nat, nat)
    decreases es.len(),
{
    if es.len() == 0 {
        (kept, p, applied, invalid)
    } else {
        let e = es[0];
        let next = p.after_attestation(e.0, e.1);
        match p.attestation_answer(e.0, e.1) {
            NetworkPayloadApply::Applied => attestation_pass(es.drop_first(), next, kept, applied + 1, invalid),
            NetworkPayloadApply::Invalid => attestation_pass(es.drop_first(), next, kept, applied, invalid + 1),
            NetworkPayloadApply::Pending => attestation_pass(es.drop_first(), next, kept.push(e), applied, invalid),
        }
    }
}

/// What a pass over queued block vote payloads comes to, from the
/// entries `es` still to offer, the processor `p`, the entries `kept` so far
/// and the counts so far: each entry is offered in turn to the processor in
/// the state the earlier offers left it in, and is kept exactly when it is
/// answered `Pending`. The result is the kept entries, the processor's last
/// state and the counts of `Applied` and `Invalid` answers.
pub open spec fn block_vote_pass<P: NetworkPayloadProcessor>(
    es: Seq<((Hash32, Hash32), Seq<u8>)>,
    p: P,
    kept: Seq<((Hash32, Hash32), Seq<u8>)>,
    applied: nat,
    invalid: nat,
) -> (Seq<((Hash32, Hash32), Seq<u8>)>, P, nat, nat)
    decreases es.len(),
{
    if es.len() == 0 {
        (kept, p, applied, invalid)
    } else {
        let e = es[0];
        let next = p.after_block_vote(e.0.0, e.0.1, e.1);
        match p.block_vote_answer(e.0.0, e.0.1, e.1) {
            NetworkPayloadApply::Applied => block_vote_pass(es.drop_first(), next, kept, applied + 1, invalid),
            NetworkPayloadApply::Invalid => block_vote_pass(es.drop_first(), next, kept, applied, invalid + 1),
            NetworkPayloadApply::Pending => block_vote_pass(es.drop_first(), next, kept.push(e), applied, invalid),
        }
    }
}

/// A count that stops at `usize::MAX`.
pub open spec fn sat_usize(x: nat) -> nat {
    if x > usize::MAX {
        usize::MAX as nat
    } else {
        x
    }
}

/// What a pass over queued block payloads comes to, as for the other kinds;
/// `appended` adds up, stopping at `usize::MAX`, the blocks each applied
/// payload appended.
pub open spec fn block_pass<P: NetworkPayloadProcessor>(
    es: Seq<((u64, Hash32), Seq<u8>)>,
    p: P,
    kept: Seq<((u64, Hash32), Seq<u8>)>,
    applied: nat,
    invalid: nat,
    appended: nat,
) -> (Seq<((u64, Hash32), Seq<u8>)>, P, nat, nat, nat)
    decreases es.len(),
{
    if es.len() == 0 {
        (kept, p, applied, invalid, appended)
    } else {
        let e = es[0];
        let next = p.after_block(e.0.0, e.0.1, e.1);
        match p.block_answer(e.0.0, e.0.1, e.1) {
            NetworkBlockPayloadApply::Applied { appended: n } => block_pass(
                es.drop_first(), next, kept, applied + 1, invalid, sat_usize(appended + n as nat)),
            NetworkBlockPayloadApply::Invalid => block_pass(es.drop_first(), next, kept, applied, invalid + 1, appended),
            NetworkBlockPayloadApply::Pending => block_pass(es.drop_first(), next, kept.push(e), applied, invalid, appended),
        }
    }
}

proof fn lemma_queue_step<K>(es: Seq<(K, Seq<u8>)>, i: int)
    requires
        0 <= i < es.len(),
    ensures
        es.skip(i)[0] == es[i],
        es.skip(i).drop_first() =~= es.skip(i + 1),
        es.remove(i).take(i) =~= es.take(i),
        es.remove(i).skip(i) =~= es.skip(i + 1),
        es.take(i + 1) =~= es.take(i).push(es[i]),
{
}

/// One pass over the queued job payloads in key order: each is offered
/// to the processor once and leaves the queue unless it is still pending.
fn retry_job_pass<P: NetworkPayloadProcessor>(q: &mut PayloadQueue<Hash32>, processor: &mut P) -> (c: PassCounts)
    requires
        sorted_keys(old(q).entries()),
    ensures
        sorted_keys(final(q).entries()),
        retained(final(q).entries(), old(q).entries()),
        c.applied + c.invalid == old(q).entries().len() - final(q).entries().len(),
        job_pass(old(q).entries(), *old(processor), Seq::empty(), 0, 0)
            == (final(q).entries(), *final(processor), c.applied as nat, c.invalid as nat),
        c.appended == 0,
{
    let ghost start = q.entries();
    let ghost p0 = *processor;
    assert(start.skip(0) =~= start);
    assert(start.take(0) =~= Seq::<(Hash32, Seq<u8>)>::empty());
    let initial_len = q.len();
    let mut applied: usize = 0;
    let mut invalid: usize = 0;
    let mut appended: usize = 0;
    let mut i: usize = 0;
    while i < q.len()
        invariant
            sorted_keys(q.entries()),
            retained(q.entries(), start),
            applied + invalid == start.len() - q.entries().len(),
            q.entries().len() <= start.len(),
            start.len() == initial_len,
            i <= q.entries().len(),
            job_pass(q.entries().skip(i as int), *processor, q.entries().take(i as int), applied as nat, invalid as nat)
                == job_pass(start, p0, Seq::empty(), 0, 0),
            appended == 0,
        decreases q.entries().len() - i,
    {
        let key = q.key_at(i);
        let payload = q.payload_at(i);
        let ghost es = q.entries();
        proof {
            lemma_queue_step(es, i as int);
            assert(es[i as int] == (key, payload@));
        }
        let answer = processor.apply_job(key, payload.as_slice());
        match answer {
            NetworkPayloadApply::Applied => applied = applied + 1,
            NetworkPayloadApply::Invalid => invalid = invalid + 1,
            NetworkPayloadApply::Pending => {},
        }
        i = q.settle_at(i, answer);
    }
    assert(q.entries().skip(i as int) =~= Seq::<_>::empty());
    assert(q.entries().take(i as int) =~= q.entries());
    PassCounts { applied, invalid, appended }
}

/// One pass over the queued receipt payloads in key order: each is offered
/// to the processor once and leaves the queue unless it is still pending.
fn retry_receipt_pass<P: NetworkPayloadProcessor>(q: &mut PayloadQueue<Hash32>, processor: &mut P) -> (c: PassCounts)
    requires
        sorted_keys(old(q).entries()),
    ensures
        sorted_keys(final(q).entries()),
        retained(final(q).entries(), old(q).entries()),
        c.applied + c.invalid == old(q).entries().len() - final(q).entries().len(),
        receipt_pass(old(q).entries(), *old(processor), Seq::empty(), 0, 0)
            == (final(q).entries(), *final(processor), c.applied as nat, c.invalid as nat),
        c.appended == 0,
{
    let ghost start = q.entries();
    let ghost p0 = *processor;
    assert(start.skip(0) =~= start);
    assert(start.take(0) =~= Seq::<(Hash32, Seq<u8>)>::empty());
    let initial_len = q.len();
    let mut applied: usize = 0;
    let mut invalid: usize = 0;
    let mut appended: usize = 0;
    let mut i: usize = 0;
    while i < q.len()
        invariant
            sorted_keys(q.entries()),
            retained(q.entries(), start),
            applied + invalid == start.len() - q.entries().len(),
            q.entries().len() <= start.len(),
            start.len() == initial_len,
            i <= q.entries().len(),
            receipt_pass(q.entries().skip(i as int), *processor, q.entries().take(i as int), applied as nat, invalid as nat)
                == receipt_pass(start, p0, Seq::empty(), 0, 0),
            appended == 0,
        decreases q.entries().len() - i,
    {
        let key = q.key_at(i);
        let payload = q.payload_at(i);
        let ghost es = q.entries();
        proof {
            lemma_queue_step(es, i as int);
            assert(es[i as int] == (key, payload@));
        }
        let answer = processor.apply_receipt(key, payload.as_slice());
        match answer {
            NetworkPayloadApply::Applied => applied = applied + 1,
            NetworkPayloadApply::Invalid => invalid = invalid + 1,
            NetworkPayloadApply::Pending => {},
        }
        i = q.settle_at(i, answer);
    }
    assert(q.entries().skip(i as int) =~= Seq::<_>::empty());
    assert(q.entries().take(i as int) =~= q.entries());
    PassCounts { applied, invalid, appended }
}

/// One pass over the queued attestation payloads in key order: each is offered
/// to the processor once and leaves the queue unless it is still pending.
fn retry_attestation_pass<P: NetworkPayloadProcessor>(q: &mut PayloadQueue<Hash32>, processor: &mut P) -> (c: PassCounts)
    requires
        sorted_keys(old(q).entries()),
    ensures
        sorted_keys(final(q).entries()),
        retained(final(q).entries(), old(q).entries()),
        c.applied + c.invalid == old(q).entries().len() - final(q).entries().len(),
        attestation_pass(old(q).entries(), *old(processor), Seq::empty(), 0, 0)
            == (final(q).entries(), *final(processor), c.applied as nat, c.invalid as nat),
        c.appended == 0,
{
    let ghost start = q.entries();
    let ghost p0 = *processor;
    assert(start.skip(0) =~= start);
    assert(start.take(0) =~= Seq::<(Hash32, Seq<u8>)>::empty());
    let initial_len = q.len();
    let mut applied: usize = 0;
    let mut invalid: usize = 0;
    let mut appended: usize = 0;
    let mut i: usize = 0;
    while i < q.len()
        invariant
            sorted_keys(q.entries()),
            retained(q.entries(), start),
            applied + invalid == start.len() - q.entries().len(),
            q.entries().len() <= start.len(),
            start.len() == initial_len,
            i <= q.entries().len(),
            attestation_pass(q.entries().skip(i as int), *processor, q.entries().take(i as int), applied as nat, invalid as nat)
                == attestation_pass(start, p0, Seq::empty(), 0, 0),
            appended == 0,
        decreases q.entries().len() - i,
    {
        let key = q.key_at(i);
        let payload = q.payload_at(i);
        let ghost es = q.entries();
        proof {
            lemma_queue_step(es, i as int);
            assert(es[i as int] == (key, payload@));
        }
        let answer = processor.apply_attestation(key, payload.as_slice());
        match answer {
            NetworkPayloadApply::Applied => applied = applied + 1,
            NetworkPayloadApply::Invalid => invalid = invalid + 1,
            NetworkPayloadApply::Pending => {},
        }
        i = q.settle_at(i, answer);
    }
    assert(q.entries().skip(i as int) =~= Seq::<_>::empty());
    assert(q.entries().take(i as int) =~= q.entries());
    PassCounts { applied, invalid, appended }
}

/// One pass over the queued block payloads in key order: each is offered
/// to the processor once and leaves the queue unless it is still pending.
fn retry_block_pass<P: NetworkPayloadProcessor>(q: &mut PayloadQueue<(u64, Hash32)>, processor: &mut P) -> (c: PassCounts)
    requires
        sorted_keys(old(q).entries()),
    ensures
        sorted_keys(final(q).entries()),
        retained(final(q).entries(), old(q).entries()),
        c.applied + c.invalid == old(q).entries().len() - final(q).entries().len(),
        block_pass(old(q).entries(), *old(processor), Seq::empty(), 0, 0, 0)
            == (final(q).entries(), *final(processor), c.applied as nat, c.invalid as nat, c.appended as nat),
{
    let ghost start = q.entries();
    let ghost p0 = *processor;
    assert(start.skip(0) =~= start);
    assert(start.take(0) =~= Seq::<((u64, Hash32), Seq<u8>)>::empty());
    let initial_len = q.len();
    let mut applied: usize = 0;
    let mut invalid: usize = 0;
    let mut appended: usize = 0;
    let mut i: usize = 0;
    while i < q.len()
        invariant
            sorted_keys(q.entries()),
            retained(q.entries(), start),
            applied + invalid == start.len() - q.entries().len(),
            q.entries().len() <= start.len(),
            start.len() == initial_len,
            i <= q.entries().len(),
            block_pass(q.entries().skip(i as int), *processor, q.entries().take(i as int), applied as nat, invalid as nat, appended as nat)
                == block_pass(start, p0, Seq::empty(), 0, 0, 0),
        decreases q.entries().len() - i,
    {
        let key = q.key_at(i);
        let payload = q.payload_at(i);
        let ghost es = q.entries();
        proof {
            lemma_queue_step(es, i as int);
            assert(es[i as int] == (key, payload@));
        }
        let answer = match processor.apply_block(key.0, key.1, payload.as_slice()) {
            NetworkBlockPayloadApply::Applied { appended: n } => {
                applied = applied + 1;
                appended = appended.saturating_add(n);
                NetworkPayloadApply::Applied
            },
            NetworkBlockPayloadApply::Invalid => {
                invalid = invalid + 1;
                NetworkPayloadApply::Invalid
            },
            NetworkBlockPayloadApply::Pending => NetworkPayloadApply::Pending,
        };
        i = q.settle_at(i, answer);
    }
    assert(q.entries().skip(i as int) =~= Seq::<_>::empty());
    assert(q.entries().take(i as int) =~= q.entries());
    PassCounts { applied, invalid, appended }
}

/// One pass over the queued block_vote payloads in key order: each is offered
/// to the processor once and leaves the queue unless it is still pending.
fn retry_block_vote_pass<P: NetworkPayloadProcessor>(q: &mut PayloadQueue<(Hash32, Hash32)>, processor: &mut P) -> (c: PassCounts)
    requires
        sorted_keys(old(q).entries()),
    ensures
        sorted_keys(final(q).entries()),
        retained(final(q).entries(), old(q).entries()),
        c.applied + c.invalid == old(q).entries().len() - final(q).entries().len(),
        block_vote_pass(old(q).entries(), *old(processor), Seq::empty(), 0, 0)
            == (final(q).entries(), *final(processor), c.applied as nat, c.invalid as nat),
        c.appended == 0,
{
    let ghost start = q.entries();
    let ghost p0 = *processor;
    assert(start.skip(0) =~= start);
    assert(start.take(0) =~= Seq::<((Hash32, Hash32), Seq<u8>)>::empty());
    let initial_len = q.len();
    let mut applied: usize = 0;
    let mut invalid: usize = 0;
    let mut appended: usize = 0;
    let mut i: usize = 0;
    while i < q.len()
        invariant
            sorted_keys(q.entries()),
            retained(q.entries(), start),
            applied + invalid == start.len() - q.entries().len(),
            q.entries().len() <= start.len(),
            start.len() == initial_len,
            i <= q.entries().len(),
            block_vote_pass(q.entries().skip(i as int), *processor, q.entries().take(i as int), applied as nat, invalid as nat)
                == block_vote_pass(start, p0, Seq::empty(), 0, 0),
            appended == 0,
        decreases q.entries().len() - i,
    {
        let key = q.key_at(i);
        let payload = q.payload_at(i);
        let ghost es = q.entries();
        proof {
            lemma_queue_step(es, i as int);
            assert(es[i as int] == (key, payload@));
        }
        let answer = processor.apply_block_vote(key.0, key.1, payload.as_slice());
        match answer {
            NetworkPayloadApply::Applied => applied = applied + 1,
            NetworkPayloadApply::Invalid => invalid = invalid + 1,
            NetworkPayloadApply::Pending => {},
        }
        i = q.settle_at(i, answer);
    }
    assert(q.entries().skip(i as int) =~= Seq::<_>::empty());
    assert(q.entries().take(i as int) =~= q.entries());
    PassCounts { applied, invalid, appended }
}

impl Default for PendingNetworkPayloads {
    fn default() -> (out: Self)
        ensures
            out.wf(),
            out.total_len() == 0,
    {
        PendingNetworkPayloads {
            jobs: PayloadQueue::new(),
            blocks: PayloadQueue::new(),
            block_votes: PayloadQueue::new(),
            receipts: PayloadQueue::new(),
            attestations: PayloadQueue::new(),
        }
    }
}

/// The counters of message ingestion proper, which a retry leaves at zero.
pub open spec fn no_message_counts(i: NetworkEventIngest) -> bool {
    i.events == 0
        && i.block_announcements == 0
        && i.block_headers == 0
        && i.block_payloads == 0
        && i.block_votes == 0
        && i.jobs == 0
        && i.job_payloads == 0
        && i.receipts == 0
        && i.receipt_payloads == 0
        && i.attestations == 0
        && i.attestation_payloads == 0
        && i.peers == 0
}

/// The payloads a retry applied or dropped, over all kinds.
pub open spec fn settled_count(i: NetworkEventIngest) -> int {
    i.job_payloads_applied + i.receipt_payloads_applied + i.attestation_payloads_applied
        + i.block_payloads_applied + i.block_votes_applied + i.invalid_events
}

/// A retry as the contracts see it: the queued entries of each kind, the
/// processor's state, and what has been counted so far.
#[verifier::reject_recursive_types(P)]
pub struct RetryState<P> {
    pub jobs: Seq<(Hash32, Seq<u8>)>,
    pub receipts: Seq<(Hash32, Seq<u8>)>,
    pub attestations: Seq<(Hash32, Seq<u8>)>,
    pub blocks: Seq<((u64, Hash32), Seq<u8>)>,
    pub block_votes: Seq<((Hash32, Hash32), Seq<u8>)>,
    pub processor: P,
    pub job_applied: nat,
    pub receipt_applied: nat,
    pub attestation_applied: nat,
    pub block_applied: nat,
    pub applied_blocks: nat,
    pub block_vote_applied: nat,
    pub invalid: nat,
}

/// The state of a retry of the queue `q` by `p`, with the counts of
/// `ingested`.
pub open spec fn retry_state<P>(q: PendingNetworkPayloads, p: P, ingested: NetworkEventIngest) -> RetryState<P> {
    RetryState {
        jobs: q.jobs(),
        receipts: q.receipts(),
        attestations: q.attestations(),
        blocks: q.blocks(),
        block_votes: q.block_votes(),
        processor: p,
        job_applied: ingested.job_payloads_applied as nat,
        receipt_applied: ingested.receipt_payloads_applied as nat,
        attestation_applied: ingested.attestation_payloads_applied as nat,
        block_applied: ingested.block_payloads_applied as nat,
        applied_blocks: ingested.applied_blocks as nat,
        block_vote_applied: ingested.block_votes_applied as nat,
        invalid: ingested.invalid_events as nat,
    }
}

/// A retry of the queue `q` by `p` before anything is counted.
pub open spec fn retry_start<P>(q: PendingNetworkPayloads, p: P) -> RetryState<P> {
    RetryState {
        jobs: q.jobs(),
        receipts: q.receipts(),
        attestations: q.attestations(),
        blocks: q.blocks(),
        block_votes: q.block_votes(),
        processor: p,
        job_applied: 0,
        receipt_applied: 0,
        attestation_applied: 0,
        block_applied: 0,
        applied_blocks: 0,
        block_vote_applied: 0,
        invalid: 0,
    }
}

/// One round of a retry: a pass over jobs, then receipts, attestations,
/// blocks and block votes, each pass starting from the processor state the
/// one before left.
pub open spec fn retry_round<P: NetworkPayloadProcessor>(s: RetryState<P>) -> RetryState<P> {
    let j = job_pass(s.jobs, s.processor, Seq::empty(), 0, 0);
    let r = receipt_pass(s.receipts, j.1, Seq::empty(), 0, 0);
    let a = attestation_pass(s.attestations, r.1, Seq::empty(), 0, 0);
    let b = block_pass(s.blocks, a.1, Seq::empty(), 0, 0, 0);
    let v = block_vote_pass(s.block_votes, b.1, Seq::empty(), 0, 0);
    RetryState {
        jobs: j.0,
        receipts: r.0,
        attestations: a.0,
        blocks: b.0,
        block_votes: v.0,
        processor: v.1,
        job_applied: s.job_applied + j.2,
        receipt_applied: s.receipt_applied + r.2,
        attestation_applied: s.attestation_applied + a.2,
        block_applied: s.block_applied + b.2,
        applied_blocks: sat_usize(s.applied_blocks + b.4),
        block_vote_applied: s.block_vote_applied + v.2,
        invalid: s.invalid + j.3 + r.3 + a.3 + b.3 + v.3,
    }
}

/// The payloads a retry has applied or dropped so far, over all kinds.
pub open spec fn settled_so_far<P>(s: RetryState<P>) -> nat {
    s.job_applied + s.receipt_applied + s.attestation_applied + s.block_applied + s.block_vote_applied + s.invalid
}

/// A retry: rounds are run while a round settles something, at most `fuel`
/// of them.
pub open spec fn spec_retry<P: NetworkPayloadProcessor>(s: RetryState<P>, fuel: nat) -> RetryState<P>
    decreases fuel,
{
    if fuel == 0 {
        s
    } else {
        let t = retry_round(s);
        if settled_so_far(t) > settled_so_far(s) {
            spec_retry(t, (fuel - 1) as nat)
        } else {
            t
        }
    }
}

impl PendingNetworkPayloads {
    /// Offers every queued payload to `processor` again, kind by kind (jobs,
    /// receipts, attestations, blocks, block votes) and in key order within a
    /// kind, and repeats while a pass settles anything. A payload leaves the
    /// queue once it is applied or found invalid; the result counts both.
    pub fn retry_with<P: NetworkPayloadProcessor>(&mut self, processor: &mut P) -> (ingested: NetworkEventIngest)
        requires
            old(self).wf(),
            old(self).total_len() <= usize::MAX,
        ensures
            final(self).wf(),
            retained(final(self).jobs(), old(self).jobs()),
            retained(final(self).receipts(), old(self).receipts()),
            retained(final(self).attestations(), old(self).attestations()),
            retained(final(self).blocks(), old(self).blocks()),
            retained(final(self).block_votes(), old(self).block_votes()),
            settled_count(ingested) == old(self).total_len() - final(self).total_len(),
            ingested.job_payloads_applied <= old(self).jobs().len() - final(self).jobs().len(),
            ingested.receipt_payloads_applied <= old(self).receipts().len() - final(self).receipts().len(),
            ingested.attestation_payloads_applied <= old(self).attestations().len() - final(self).attestations().len(),
            ingested.block_payloads_applied <= old(self).blocks().len() - final(self).blocks().len(),
            ingested.block_votes_applied <= old(self).block_votes().len() - final(self).block_votes().len(),
            no_message_counts(ingested),
            retry_state(*final(self), *final(processor), ingested) == spec_retry(
                retry_start(*old(self), *old(processor)),
                (old(self).total_len() + 1) as nat,
            ),
    {
        let ghost start = *self;
        let mut ingested = NetworkEventIngest::default();
        let ghost init = retry_start(*self, *processor);
        assert(retry_state(*self, *processor, ingested) == init);
        let ghost fuel0 = (start.total_len() + 1) as nat;
        let ghost mut fuel = fuel0;
        let mut progressed = true;
        while progressed
            invariant
                self.wf(),
                start.total_len() <= usize::MAX,
                self.total_len() <= start.total_len(),
                retained(self.jobs(), start.jobs()),
                retained(self.receipts(), start.receipts()),
                retained(self.attestations(), start.attestations()),
                retained(self.blocks(), start.blocks()),
                retained(self.block_votes(), start.block_votes()),
                settled_count(ingested) == start.total_len() - self.total_len(),
                ingested.job_payloads_applied <= start.jobs().len() - self.jobs().len(),
                ingested.receipt_payloads_applied <= start.receipts().len() - self.receipts().len(),
                ingested.attestation_payloads_applied <= start.attestations().len() - self.attestations().len(),
                ingested.block_payloads_applied <= start.blocks().len() - self.blocks().len(),
                ingested.block_votes_applied <= start.block_votes().len() - self.block_votes().len(),
                no_message_counts(ingested),
                init == retry_start(start, init.processor),
                fuel0 == (start.total_len() + 1) as nat,
                progressed ==> fuel >= self.total_len() + 1
                    && spec_retry(retry_state(*self, *processor, ingested), fuel) == spec_retry(init, fuel0),
                !progressed ==> retry_state(*self, *processor, ingested) == spec_retry(init, fuel0),
            decreases self.total_len() * 2 + if progressed { 1int } else { 0int },
        {
            let ghost before = *self;
            let ghost cur = retry_state(*self, *processor, ingested);
            proof {
                assert(ingested.job_payloads_applied == cur.job_applied);
            }
            let jobs = retry_job_pass(&mut self.jobs, processor);
            let receipts = retry_receipt_pass(&mut self.receipts, processor);
            let attestations = retry_attestation_pass(&mut self.attestations, processor);
            let blocks = retry_block_pass(&mut self.blocks, processor);
            let votes = retry_block_vote_pass(&mut self.block_votes, processor);
            proof {
                assert forall|j: int| 0 <= j < self.jobs().len() implies start.jobs().contains(#[trigger] self.jobs()[j]) by {
                    assert(before.jobs().contains(self.jobs()[j]));
                    let m = choose|m: int| 0 <= m < before.jobs().len() && before.jobs()[m] == self.jobs()[j];
                    assert(start.jobs().contains(before.jobs()[m]));
                }
                assert forall|j: int| 0 <= j < self.receipts().len() implies start.receipts().contains(#[trigger] self.receipts()[j]) by {
                    assert(before.receipts().contains(self.receipts()[j]));
                    let m = choose|m: int| 0 <= m < before.receipts().len() && before.receipts()[m] == self.receipts()[j];
                    assert(start.receipts().contains(before.receipts()[m]));
                }
                assert forall|j: int| 0 <= j < self.attestations().len() implies start.attestations().contains(#[trigger] self.attestations()[j]) by {
                    assert(before.attestations().contains(self.attestations()[j]));
                    let m = choose|m: int| 0 <= m < before.attestations().len() && before.attestations()[m] == self.attestations()[j];
                    assert(start.attestations().contains(before.attestations()[m]));
                }
                assert forall|j: int| 0 <= j < self.blocks().len() implies start.blocks().contains(#[trigger] self.blocks()[j]) by {
                    assert(before.blocks().contains(self.blocks()[j]));
                    let m = choose|m: int| 0 <= m < before.blocks().len() && before.blocks()[m] == self.blocks()[j];
                    assert(start.blocks().contains(before.blocks()[m]));
                }
                assert forall|j: int| 0 <= j < self.block_votes().len() implies start.block_votes().contains(#[trigger] self.block_votes()[j]) by {
                    assert(before.block_votes().contains(self.block_votes()[j]));
                    let m = choose|m: int| 0 <= m < before.block_votes().len() && before.block_votes()[m] == self.block_votes()[j];
                    assert(start.block_votes().contains(before.block_votes()[m]));
                }
            }
            ingested.job_payloads_applied = ingested.job_payloads_applied + jobs.applied;
            ingested.receipt_payloads_applied = ingested.receipt_payloads_applied + receipts.applied;
            ingested.attestation_payloads_applied = ingested.attestation_payloads_applied + attestations.applied;
            ingested.block_payloads_applied = ingested.block_payloads_applied + blocks.applied;
            ingested.applied_blocks = ingested.applied_blocks.saturating_add(blocks.appended);
            ingested.block_votes_applied = ingested.block_votes_applied + votes.applied;
            ingested.invalid_events = ingested.invalid_events + jobs.invalid + receipts.invalid + attestations.invalid
                + blocks.invalid + votes.invalid;
            progressed = jobs.applied + jobs.invalid + receipts.applied + receipts.invalid + attestations.applied
                + attestations.invalid + blocks.applied + blocks.invalid + votes.applied + votes.invalid > 0;
            proof {
                let t = retry_state(*self, *processor, ingested);
                assert(t == retry_round(cur));
                if progressed {
                    fuel = (fuel - 1) as nat;
                }
            }
        }
        ingested
    }
}

} // verus!
