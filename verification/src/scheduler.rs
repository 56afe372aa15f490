use vstd::prelude::*;
use vstd::string::StringSliceAdditionalSpecFns;
use vstd::bytes::spec_u128_from_le_bytes;
use crate::types::{Address, Hash32, hash_bytes, hash_eq, hash_to_u128, spec_hash_bytes, slices_view};
use crate::tensor::{DType, Tensor, shape_product};
use crate::field::MODULUS;

verus! {

/// The validators drawn to check one receipt.
#[derive(Clone, Debug, PartialEq, Eq)]
pub struct ValidatorAssignment {
    pub receipt_id: Hash32,
    pub validators: Vec<Address>,
}

/// The miners drawn to execute one job.
#[derive(Clone, Debug, PartialEq, Eq)]
pub struct MinerAssignment {
    pub job_id: Hash32,
    pub miners: Vec<Address>,
}

/// The matmul shapes `(m, k, n)` that synthetic jobs are drawn with.
#[derive(Clone, Copy, Debug, PartialEq, Eq)]
pub struct JobScheduler {
    pub small_matmul: (usize, usize, usize),
    pub medium_matmul: (usize, usize, usize),
}

impl Default for JobScheduler {
    fn default() -> (out: Self)
        ensures
            out.small_matmul == (1024usize, 1024usize, 1024usize),
            out.medium_matmul == (4096usize, 4096usize, 4096usize),
    {
        JobScheduler { small_matmul: (1024, 1024, 1024), medium_matmul: (4096, 4096, 4096) }
    }
}

impl JobScheduler {
    /// The default scheduler with another small shape.
    pub fn with_small_shape(shape: (usize, usize, usize)) -> (out: Self)
        ensures
            out.small_matmul == shape,
            out.medium_matmul == (4096usize, 4096usize, 4096usize),
    {
        JobScheduler { small_matmul: shape, ..JobScheduler::default() }
    }
}

/// A source of synthetic local jobs drawn with a scheduler.
#[derive(Clone, Copy, Debug, PartialEq, Eq)]
pub struct SyntheticLocalJobSource {
    scheduler: JobScheduler,
}

impl SyntheticLocalJobSource {
    /// The scheduler that jobs are drawn with.
    pub closed spec fn scheduler(&self) -> JobScheduler {
        self.scheduler
    }

    pub fn new(scheduler: JobScheduler) -> (out: Self)
        ensures
            out.scheduler() == scheduler,
    {
        SyntheticLocalJobSource { scheduler }
    }

    /// The starting weights of the local linear model: a 3 by 2 matrix of
    /// the values one to six.
    pub fn linear_training_weights() -> (out: Tensor)
        ensures
            out.shape_view() == seq![3usize, 2usize],
            out.values() == seq![1u64, 2u64, 3u64, 4u64, 5u64, 6u64],
            out.dtype_view() == DType::FieldElement,
    {
        let shape: Vec<usize> = vec![3, 2];
        let data: Vec<u64> = vec![1, 2, 3, 4, 5, 6];
        proof {
            let s1 = shape@.drop_last();
            assert(shape@.len() == 2 && shape@[0] == 3 && shape@[1] == 2);
            assert(s1.len() == 1 && s1.last() == 3);
            assert(shape_product(s1.drop_last()) == 1);
            assert(shape_product(s1) == 3);
            assert(shape@.last() == 2);
            assert(shape_product(shape@) == shape_product(s1) * 2);
            assert(shape_product(shape@) == 6);
            assert(data@.len() == 6);
            assert(MODULUS > 6);
        }
        match Tensor::from_vec(shape, DType::FieldElement, data) {
            Ok(t) => t,
            Err(_) => vstd::pervasive::unreached(),
        }
    }

    /// The digest that names the local linear model's architecture.
    pub fn linear_training_architecture_hash() -> (out: Hash32)
        ensures
            out@ == spec_hash_bytes("tensor-vm-local-linear-architecture-v1".spec_bytes(), Seq::empty()),
    {
        let parts: Vec<&[u8]> = Vec::new();
        let out = hash_bytes("tensor-vm-local-linear-architecture-v1".as_bytes(), parts.as_slice());
        assert(slices_view(parts@) =~= Seq::<Seq<u8>>::empty());
        out
    }

    /// The digest that names the local linear model's training configuration.
    pub fn linear_training_config_hash() -> (out: Hash32)
        ensures
            out@ == spec_hash_bytes("tensor-vm-local-linear-config-v1".spec_bytes(), Seq::empty()),
    {
        let parts: Vec<&[u8]> = Vec::new();
        let out = hash_bytes("tensor-vm-local-linear-config-v1".as_bytes(), parts.as_slice());
        assert(slices_view(parts@) =~= Seq::<Seq<u8>>::empty());
        out
    }
}

impl Default for SyntheticLocalJobSource {
    fn default() -> (out: Self)
        ensures
            out.scheduler().small_matmul == (8usize, 8usize, 8usize),
            out.scheduler().medium_matmul == (4096usize, 4096usize, 4096usize),
    {
        SyntheticLocalJobSource::new(JobScheduler::with_small_shape((8, 8, 8)))
    }
}

/// The draw that orders validator `v` for receipt `receipt_id` under `seed`.
pub open spec fn validator_draw(seed: Seq<u8>, receipt_id: Seq<u8>, v: Seq<u8>) -> u128 {
    spec_u128_from_le_bytes(
        spec_hash_bytes("tensor-vm-validator-assignment-v1".spec_bytes(), seq![seed, receipt_id, v]).subrange(0, 16),
    )
}

/// The draw that orders miner `m` for job `job_id` under `seed`.
pub open spec fn miner_draw(seed: Seq<u8>, job_id: Seq<u8>, m: Seq<u8>) -> u128 {
    spec_u128_from_le_bytes(
        spec_hash_bytes("tensor-vm-miner-assignment-v1".spec_bytes(), seq![seed, job_id, m]).subrange(0, 16),
    )
}

/// `x` placed into `sorted` after every entry whose key is not larger.
pub open spec fn insert_by_key<T>(sorted: Seq<T>, x: T, key: spec_fn(T) -> u128) -> Seq<T>
    decreases sorted.len(),
{
    if sorted.len() == 0 {
        seq![x]
    } else if key(x) < key(sorted[0]) {
        seq![x] + sorted
    } else {
        seq![sorted[0]] + insert_by_key(sorted.drop_first(), x, key)
    }
}

/// The stable sort of `s` by `key`: equal keys keep their order.
pub open spec fn sort_by_key<T>(s: Seq<T>, key: spec_fn(T) -> u128) -> Seq<T>
    decreases s.len(),
{
    if s.len() == 0 {
        Seq::empty()
    } else {
        insert_by_key(sort_by_key(s.drop_last(), key), s.last(), key)
    }
}

proof fn lemma_insert_by_key_prefix<T>(s: Seq<T>, x: T, key: spec_fn(T) -> u128, i: int)
    requires
        0 <= i <= s.len(),
        forall|j: int| 0 <= j < i ==> !(key(x) < key(#[trigger] s[j])),
    ensures
        insert_by_key(s, x, key) == s.take(i) + insert_by_key(s.skip(i), x, key),
    decreases i,
{
    if i == 0 {
        assert(s.skip(0) =~= s);
        assert(s.take(0) + insert_by_key(s, x, key) =~= insert_by_key(s, x, key));
    } else {
        let t = s.drop_first();
        assert forall|j: int| 0 <= j < i - 1 implies !(key(x) < key(#[trigger] t[j])) by {
            assert(t[j] == s[j + 1]);
        }
        lemma_insert_by_key_prefix(t, x, key, i - 1);
        assert(t.skip(i - 1) =~= s.skip(i));
        assert(!(key(x) < key(s[0])));
        assert(seq![s[0]] + (t.take(i - 1) + insert_by_key(s.skip(i), x, key)) =~= s.take(i) + insert_by_key(s.skip(i), x, key));
    }
}

proof fn lemma_insert_by_key_len<T>(s: Seq<T>, x: T, key: spec_fn(T) -> u128)
    ensures
        insert_by_key(s, x, key).len() == s.len() + 1,
    decreases s.len(),
{
    if s.len() > 0 && !(key(x) < key(s[0])) {
        lemma_insert_by_key_len(s.drop_first(), x, key);
    }
}

/// Sorting keeps the number of entries.
pub proof fn lemma_sort_by_key_len<T>(s: Seq<T>, key: spec_fn(T) -> u128)
    ensures
        sort_by_key(s, key).len() == s.len(),
    decreases s.len(),
{
    if s.len() > 0 {
        lemma_sort_by_key_len(s.drop_last(), key);
        lemma_insert_by_key_len(sort_by_key(s.drop_last(), key), s.last(), key);
    }
}


proof fn lemma_insert_by_key_members<T>(s: Seq<T>, x: T, key: spec_fn(T) -> u128)
    ensures
        forall|y: T| #![trigger insert_by_key(s, x, key).contains(y)] #![trigger s.contains(y)]
            insert_by_key(s, x, key).contains(y) <==> (s.contains(y) || y == x),
        s.no_duplicates() && !s.contains(x) ==> insert_by_key(s, x, key).no_duplicates(),
    decreases s.len(),
{
    let r = insert_by_key(s, x, key);
    if s.len() == 0 {
        assert(r =~= seq![x]);
        assert forall|y: T| r.contains(y) <==> (s.contains(y) || y == x) by {
            if r.contains(y) {
                let j = choose|j: int| 0 <= j < r.len() && r[j] == y;
            }
            if y == x {
                assert(r[0] == x);
            }
        }
    } else if key(x) < key(s[0]) {
        assert(r =~= seq![x] + s);
        assert forall|y: T| r.contains(y) <==> (s.contains(y) || y == x) by {
            if r.contains(y) {
                let j = choose|j: int| 0 <= j < r.len() && r[j] == y;
                if j > 0 {
                    assert(s[j - 1] == y);
                }
            }
            if s.contains(y) {
                let j = choose|j: int| 0 <= j < s.len() && s[j] == y;
                assert(r[j + 1] == y);
            }
            if y == x {
                assert(r[0] == x);
            }
        }
        if s.no_duplicates() && !s.contains(x) {
            assert forall|a: int, b: int| 0 <= a < r.len() && 0 <= b < r.len() && a != b implies r[a] != r[b] by {
                if a == 0 && b > 0 {
                    assert(r[b] == s[b - 1]);
                } else if b == 0 && a > 0 {
                    assert(r[a] == s[a - 1]);
                } else if a > 0 && b > 0 {
                    assert(r[a] == s[a - 1] && r[b] == s[b - 1]);
                }
            }
        }
    } else {
        let t = s.drop_first();
        lemma_insert_by_key_members(t, x, key);
        let rt = insert_by_key(t, x, key);
        assert(r =~= seq![s[0]] + rt);
        assert forall|y: T| r.contains(y) <==> (s.contains(y) || y == x) by {
            if r.contains(y) {
                let j = choose|j: int| 0 <= j < r.len() && r[j] == y;
                if j > 0 {
                    assert(rt[j - 1] == y);
                    assert(rt.contains(y));
                    if t.contains(y) {
                        let k = choose|k: int| 0 <= k < t.len() && t[k] == y;
                        assert(s[k + 1] == y);
                    }
                } else {
                    assert(s[0] == y);
                }
            }
            if s.contains(y) {
                let j = choose|j: int| 0 <= j < s.len() && s[j] == y;
                if j == 0 {
                    assert(r[0] == y);
                } else {
                    assert(t[j - 1] == y);
                    assert(t.contains(y));
                    assert(rt.contains(y));
                    let k = choose|k: int| 0 <= k < rt.len() && rt[k] == y;
                    assert(r[k + 1] == y);
                }
            }
            if y == x {
                assert(insert_by_key(t, x, key).contains(x) <==> (t.contains(x) || x == x));
                assert(rt.contains(x));
                let k = choose|k: int| 0 <= k < rt.len() && rt[k] == x;
                assert(r[k + 1] == x);
            }
        }
        if s.no_duplicates() && !s.contains(x) {
            assert(t.no_duplicates()) by {
                assert forall|a: int, b: int| 0 <= a < t.len() && 0 <= b < t.len() && a != b implies t[a] != t[b] by {
                    assert(t[a] == s[a + 1] && t[b] == s[b + 1]);
                }
            }
            assert(!t.contains(x)) by {
                if t.contains(x) {
                    let k = choose|k: int| 0 <= k < t.len() && t[k] == x;
                    assert(s[k + 1] == x);
                }
            }
            assert(!rt.contains(s[0])) by {
                if rt.contains(s[0]) {
                    if t.contains(s[0]) {
                        let k = choose|k: int| 0 <= k < t.len() && t[k] == s[0];
                        assert(s[k + 1] == s[0]);
                    } else {
                        assert(s[0] == x);
                    }
                }
            }
            assert forall|a: int, b: int| 0 <= a < r.len() && 0 <= b < r.len() && a != b implies r[a] != r[b] by {
                if a == 0 && b > 0 {
                    assert(r[b] == rt[b - 1]);
                } else if b == 0 && a > 0 {
                    assert(r[a] == rt[a - 1]);
                } else if a > 0 && b > 0 {
                    assert(r[a] == rt[a - 1] && r[b] == rt[b - 1]);
                }
            }
        }
    }
}

proof fn lemma_sort_by_key_members<T>(s: Seq<T>, key: spec_fn(T) -> u128)
    ensures
        forall|y: T| #![trigger sort_by_key(s, key).contains(y)] #![trigger s.contains(y)]
            sort_by_key(s, key).contains(y) <==> s.contains(y),
        s.no_duplicates() ==> sort_by_key(s, key).no_duplicates(),
    decreases s.len(),
{
    if s.len() > 0 {
        let t = s.drop_last();
        lemma_sort_by_key_members(t, key);
        lemma_insert_by_key_members(sort_by_key(t, key), s.last(), key);
        assert forall|y: T| s.contains(y) <==> (t.contains(y) || y == s.last()) by {
            if s.contains(y) {
                let j = choose|j: int| 0 <= j < s.len() && s[j] == y;
                if j < t.len() {
                    assert(t[j] == y);
                }
            }
            if t.contains(y) {
                let j = choose|j: int| 0 <= j < t.len() && t[j] == y;
                assert(s[j] == y);
            }
            if y == s.last() {
                assert(s[s.len() - 1] == y);
            }
        }
        if s.no_duplicates() {
            assert(t.no_duplicates()) by {
                assert forall|a: int, b: int| 0 <= a < t.len() && 0 <= b < t.len() && a != b implies t[a] != t[b] by {
                    assert(t[a] == s[a] && t[b] == s[b]);
                }
            }
            assert(!t.contains(s.last())) by {
                if t.contains(s.last()) {
                    let k = choose|k: int| 0 <= k < t.len() && t[k] == s.last();
                    assert(s[k] == s[s.len() - 1]);
                }
            }
        }
    }
}

/// Validator assignment: as many validators are drawn as wanted, or all of
/// them where fewer are registered; each drawn validator is registered; and
/// where the registry lists each validator once, none is drawn twice.
pub proof fn lemma_assigned_validators_registered_and_distinct(
    validators: Seq<Address>,
    validators_per_job: nat,
    seed: Seq<u8>,
    receipt_id: Seq<u8>,
)
    ensures
        ({
            let n = if validators_per_job < validators.len() { validators_per_job as int } else { validators.len() as int };
            let drawn = sort_by_key(validators, validator_key(seed, receipt_id)).take(n);
            &&& drawn.len() == n
            &&& forall|i: int| 0 <= i < drawn.len() ==> validators.contains(#[trigger] drawn[i])
            &&& validators.no_duplicates() ==> drawn.no_duplicates()
        }),
{
    let key = validator_key(seed, receipt_id);
    let sorted = sort_by_key(validators, key);
    lemma_sort_by_key_members(validators, key);
    lemma_sort_by_key_len(validators, key);
    let n = if validators_per_job < validators.len() { validators_per_job as int } else { validators.len() as int };
    let drawn = sorted.take(n);
    assert forall|i: int| 0 <= i < drawn.len() implies validators.contains(#[trigger] drawn[i]) by {
        assert(drawn[i] == sorted[i]);
        assert(sorted.contains(sorted[i]));
    }
    if validators.no_duplicates() {
        assert forall|a: int, b: int| 0 <= a < drawn.len() && 0 <= b < drawn.len() && a != b implies drawn[a] != drawn[b] by {
            assert(drawn[a] == sorted[a] && drawn[b] == sorted[b]);
        }
    }
}

/// The validator draws of a list of validators.
pub open spec fn validator_key(seed: Seq<u8>, receipt_id: Seq<u8>) -> spec_fn(Address) -> u128 {
    |v: Address| validator_draw(seed, receipt_id, v@)
}

fn draw(domain: &[u8], seed: &Hash32, id: &Hash32, who: &Address) -> (out: u128)
    ensures
        out == spec_u128_from_le_bytes(spec_hash_bytes(domain@, seq![seed@, id@, who@]).subrange(0, 16)),
{
    let parts: Vec<&[u8]> = vec![seed.as_slice(), id.as_slice(), who.as_slice()];
    assert(slices_view(parts@) =~= seq![seed@, id@, who@]);
    let digest = hash_bytes(domain, parts.as_slice());
    hash_to_u128(&digest)
}

/// A registered miner as assignment sees it.
#[derive(Clone, Copy, Debug, PartialEq, Eq)]
pub struct MinerCandidate {
    pub address: Address,
    pub operator_id: Address,
}

/// The miner draws of a list of candidates.
pub open spec fn miner_key(seed: Seq<u8>, job_id: Seq<u8>) -> spec_fn(MinerCandidate) -> u128 {
    |m: MinerCandidate| miner_draw(seed, job_id, m.address@)
}

/// Whether some chosen miner has operator `op`.
pub open spec fn has_operator(chosen: Seq<MinerCandidate>, op: Address) -> bool {
    exists|i: int| 0 <= i < chosen.len() && chosen[i].operator_id == op
}

/// Whether some chosen miner has address `a`.
pub open spec fn has_address(chosen: Seq<MinerCandidate>, a: Address) -> bool {
    exists|i: int| 0 <= i < chosen.len() && chosen[i].address == a
}

/// The first pass: candidates in order, one per operator, up to `target`.
pub open spec fn operator_pass(candidates: Seq<MinerCandidate>, target: nat) -> Seq<MinerCandidate>
    decreases candidates.len(),
{
    if candidates.len() == 0 {
        Seq::empty()
    } else {
        let chosen = operator_pass(candidates.drop_last(), target);
        let m = candidates.last();
        if chosen.len() >= target || has_operator(chosen, m.operator_id) { chosen } else { chosen.push(m) }
    }
}

/// The second pass: the remaining candidates in order, one per address,
/// until `target` are chosen.
pub open spec fn fill_pass(candidates: Seq<MinerCandidate>, target: nat, first: Seq<MinerCandidate>) -> Seq<MinerCandidate>
    decreases candidates.len(),
{
    if candidates.len() == 0 {
        first
    } else {
        let chosen = fill_pass(candidates.drop_last(), target, first);
        let m = candidates.last();
        if chosen.len() >= target || has_address(chosen, m.address) { chosen } else { chosen.push(m) }
    }
}

/// The miners assigned from candidates in draw order: distinct operators
/// first, then any other address, up to `target`.
pub open spec fn assigned_miners(sorted: Seq<MinerCandidate>, target: nat) -> Seq<MinerCandidate> {
    fill_pass(sorted, target, operator_pass(sorted, target))
}

fn contains_address(chosen: &Vec<MinerCandidate>, a: &Address) -> (out: bool)
    ensures
        out == has_address(chosen@, *a),
{
    let mut i: usize = 0;
    while i < chosen.len()
        invariant
            i <= chosen@.len(),
            forall|j: int| 0 <= j < i ==> chosen@[j].address != *a,
        decreases chosen@.len() - i,
    {
        if hash_eq(&chosen[i].address, a) {
            assert(chosen@[i as int].address =~= *a);
            return true;
        }
        i += 1;
    }
    false
}

fn contains_operator(chosen: &Vec<MinerCandidate>, op: &Address) -> (out: bool)
    ensures
        out == has_operator(chosen@, *op),
{
    let mut i: usize = 0;
    while i < chosen.len()
        invariant
            i <= chosen@.len(),
            forall|j: int| 0 <= j < i ==> chosen@[j].operator_id != *op,
        decreases chosen@.len() - i,
    {
        if hash_eq(&chosen[i].operator_id, op) {
            assert(chosen@[i as int].operator_id =~= *op);
            return true;
        }
        i += 1;
    }
    false
}

impl JobScheduler {
    /// The validators drawn for a receipt: the registered validators (in
    /// registry order) sorted stably by their draw for `receipt_id` under
    /// `seed`, cut to `validators_per_job`.
    pub fn assign_validators(
        &self,
        validators: &[Address],
        validators_per_job: usize,
        receipt_id: Hash32,
        seed: &Hash32,
    ) -> (out: ValidatorAssignment)
        ensures
            out.receipt_id == receipt_id,
            out.validators@.len() == if validators_per_job < validators@.len() { validators_per_job as int } else { validators@.len() as int },
            out.validators@ == sort_by_key(validators@, validator_key(seed@, receipt_id@)).take(
                if validators_per_job < validators@.len() { validators_per_job as int } else { validators@.len() as int },
            ),
    {
        let ghost key = validator_key(seed@, receipt_id@);
        let mut sorted: Vec<Address> = Vec::new();
        let mut keys: Vec<u128> = Vec::new();
        let mut i: usize = 0;
        while i < validators.len()
            invariant
                i <= validators@.len(),
                key == validator_key(seed@, receipt_id@),
                sorted@ == sort_by_key(validators@.take(i as int), key),
                keys@.len() == sorted@.len(),
                forall|j: int| 0 <= j < sorted@.len() ==> keys@[j] == key(#[trigger] sorted@[j]),
            decreases validators@.len() - i,
        {
            let v = validators[i];
            let k = draw("tensor-vm-validator-assignment-v1".as_bytes(), seed, &receipt_id, &v);
            assert(k == key(v));
            let mut p: usize = 0;
            while p < sorted.len() && !(k < keys[p])
                invariant
                    p <= sorted@.len(),
                    keys@.len() == sorted@.len(),
                    forall|j: int| 0 <= j < sorted@.len() ==> keys@[j] == key(#[trigger] sorted@[j]),
                    forall|j: int| 0 <= j < p ==> !(key(v) < key(#[trigger] sorted@[j])),
                    k == key(v),
                decreases sorted@.len() - p,
            {
                p += 1;
            }
            proof {
                let s = sorted@;
                lemma_insert_by_key_prefix(s, v, key, p as int);
                if p < s.len() {
                    assert(s.skip(p as int)[0] == s[p as int]);
                    assert(insert_by_key(s.skip(p as int), v, key) == seq![v] + s.skip(p as int));
                } else {
                    assert(s.skip(p as int) =~= Seq::<Address>::empty());
                }
                assert(validators@.take(i + 1).drop_last() =~= validators@.take(i as int));
                assert(validators@.take(i + 1).last() == v);
            }
            let ghost before = sorted@;
            let ghost before_keys = keys@;
            sorted.insert(p, v);
            keys.insert(p, k);
            proof {
                assert(sorted@ =~= before.take(p as int) + insert_by_key(before.skip(p as int), v, key));
                assert forall|j: int| 0 <= j < sorted@.len() implies keys@[j] == key(#[trigger] sorted@[j]) by {
                    if j < p {
                        assert(keys@[j] == before_keys[j] && sorted@[j] == before[j]);
                    } else if j > p {
                        assert(keys@[j] == before_keys[j - 1] && sorted@[j] == before[j - 1]);
                    }
                }
            }
            i += 1;
        }
        assert(validators@.take(validators@.len() as int) =~= validators@);
        proof {
            lemma_sort_by_key_len(validators@, key);
        }
        let count = if validators_per_job < sorted.len() { validators_per_job } else { sorted.len() };
        sorted.truncate(count);
        ValidatorAssignment { receipt_id, validators: sorted }
    }
}

/// The candidates sorted stably by their draw for `job_id` under `seed`.
fn sort_candidates(candidates: &[MinerCandidate], job_id: &Hash32, seed: &Hash32) -> (out: Vec<MinerCandidate>)
    ensures
        out@ == sort_by_key(candidates@, miner_key(seed@, job_id@)),
{
    let ghost key = miner_key(seed@, job_id@);
    let mut sorted: Vec<MinerCandidate> = Vec::new();
    let mut keys: Vec<u128> = Vec::new();
    let mut i: usize = 0;
    while i < candidates.len()
        invariant
            i <= candidates@.len(),
            key == miner_key(seed@, job_id@),
            sorted@ == sort_by_key(candidates@.take(i as int), key),
            keys@.len() == sorted@.len(),
            forall|j: int| 0 <= j < sorted@.len() ==> keys@[j] == key(#[trigger] sorted@[j]),
        decreases candidates@.len() - i,
    {
        let m = candidates[i];
        let k = draw("tensor-vm-miner-assignment-v1".as_bytes(), seed, job_id, &m.address);
        assert(k == key(m));
        let mut p: usize = 0;
        while p < sorted.len() && !(k < keys[p])
            invariant
                p <= sorted@.len(),
                keys@.len() == sorted@.len(),
                forall|j: int| 0 <= j < sorted@.len() ==> keys@[j] == key(#[trigger] sorted@[j]),
                forall|j: int| 0 <= j < p ==> !(key(m) < key(#[trigger] sorted@[j])),
                k == key(m),
            decreases sorted@.len() - p,
        {
            p += 1;
        }
        proof {
            let s = sorted@;
            lemma_insert_by_key_prefix(s, m, key, p as int);
            if p < s.len() {
                assert(s.skip(p as int)[0] == s[p as int]);
                assert(insert_by_key(s.skip(p as int), m, key) == seq![m] + s.skip(p as int));
            } else {
                assert(s.skip(p as int) =~= Seq::<MinerCandidate>::empty());
            }
            assert(candidates@.take(i + 1).drop_last() =~= candidates@.take(i as int));
            assert(candidates@.take(i + 1).last() == m);
        }
        let ghost before = sorted@;
        let ghost before_keys = keys@;
        sorted.insert(p, m);
        keys.insert(p, k);
        proof {
            assert(sorted@ =~= before.take(p as int) + insert_by_key(before.skip(p as int), m, key));
            assert forall|j: int| 0 <= j < sorted@.len() implies keys@[j] == key(#[trigger] sorted@[j]) by {
                if j < p {
                    assert(keys@[j] == before_keys[j] && sorted@[j] == before[j]);
                } else if j > p {
                    assert(keys@[j] == before_keys[j - 1] && sorted@[j] == before[j - 1]);
                }
            }
        }
        i += 1;
    }
    assert(candidates@.take(candidates@.len() as int) =~= candidates@);
    sorted
}

impl JobScheduler {
    /// The miners drawn for a job: the registered miners (in registry order)
    /// sorted stably by their draw for `job_id` under `seed`; then, up to
    /// `replication_factor` of them, first one per operator and then any
    /// other miner.
    pub fn assign_miners(
        &self,
        miners: &[MinerCandidate],
        replication_factor: usize,
        job_id: Hash32,
        seed: &Hash32,
    ) -> (out: MinerAssignment)
        ensures
            out.job_id == job_id,
            out.miners@ == assigned_miners(
                sort_by_key(miners@, miner_key(seed@, job_id@)),
                if replication_factor < miners@.len() { replication_factor as nat } else { miners@.len() },
            ).map_values(|m: MinerCandidate| m.address),
    {
        let sorted = sort_candidates(miners, &job_id, seed);
        proof {
            lemma_sort_by_key_len(miners@, miner_key(seed@, job_id@));
        }
        let target = if replication_factor < sorted.len() { replication_factor } else { sorted.len() };
        let mut chosen: Vec<MinerCandidate> = Vec::new();
        let mut i: usize = 0;
        while i < sorted.len()
            invariant
                i <= sorted@.len(),
                chosen@ == operator_pass(sorted@.take(i as int), target as nat),
            decreases sorted@.len() - i,
        {
            let m = sorted[i];
            proof {
                assert(sorted@.take(i + 1).drop_last() =~= sorted@.take(i as int));
                assert(sorted@.take(i + 1).last() == m);
            }
            if chosen.len() < target && !contains_operator(&chosen, &m.operator_id) {
                chosen.push(m);
            }
            i += 1;
        }
        assert(sorted@.take(sorted@.len() as int) =~= sorted@);
        let ghost first = chosen@;
        let mut j: usize = 0;
        while j < sorted.len()
            invariant
                j <= sorted@.len(),
                first == operator_pass(sorted@, target as nat),
                chosen@ == fill_pass(sorted@.take(j as int), target as nat, first),
            decreases sorted@.len() - j,
        {
            let m = sorted[j];
            proof {
                assert(sorted@.take(j + 1).drop_last() =~= sorted@.take(j as int));
                assert(sorted@.take(j + 1).last() == m);
            }
            if chosen.len() < target && !contains_address(&chosen, &m.address) {
                chosen.push(m);
            }
            j += 1;
        }
        assert(sorted@.take(sorted@.len() as int) =~= sorted@);
        let mut addresses: Vec<Address> = Vec::new();
        let mut k: usize = 0;
        while k < chosen.len()
            invariant
                k <= chosen@.len(),
                addresses@ == chosen@.take(k as int).map_values(|m: MinerCandidate| m.address),
            decreases chosen@.len() - k,
        {
            addresses.push(chosen[k].address);
            assert(addresses@ =~= chosen@.take(k + 1).map_values(|m: MinerCandidate| m.address));
            k += 1;
        }
        assert(chosen@.take(chosen@.len() as int) =~= chosen@);
        MinerAssignment { job_id, miners: addresses }
    }
}

/// The operators of a list of candidates.
pub open spec fn operators(s: Seq<MinerCandidate>) -> Set<Address> {
    s.map_values(|m: MinerCandidate| m.operator_id).to_set()
}

/// The addresses of a list of candidates.
pub open spec fn addresses(s: Seq<MinerCandidate>) -> Set<Address> {
    s.map_values(|m: MinerCandidate| m.address).to_set()
}

proof fn lemma_operator_pass(s: Seq<MinerCandidate>, target: nat)
    ensures
        operator_pass(s, target).len() <= target,
        forall|a: int, b: int| 0 <= a < b < operator_pass(s, target).len()
            ==> (#[trigger] operator_pass(s, target)[a]).operator_id != (#[trigger] operator_pass(s, target)[b]).operator_id,
        operator_pass(s, target).len() < target ==> forall|j: int| 0 <= j < s.len()
            ==> has_operator(operator_pass(s, target), #[trigger] s[j].operator_id),
    decreases s.len(),
{
    if s.len() > 0 {
        let t = s.drop_last();
        lemma_operator_pass(t, target);
        let chosen = operator_pass(t, target);
        let m = s.last();
        let r = operator_pass(s, target);
        if chosen.len() >= target || has_operator(chosen, m.operator_id) {
            assert(r == chosen);
            if r.len() < target {
                assert forall|j: int| 0 <= j < s.len() implies has_operator(r, #[trigger] s[j].operator_id) by {
                    if j < t.len() {
                        assert(t[j] == s[j]);
                    }
                }
            }
        } else {
            assert(r == chosen.push(m));
            assert forall|a: int, b: int| 0 <= a < b < r.len() implies (#[trigger] r[a]).operator_id != (#[trigger] r[b]).operator_id by {
                if b == chosen.len() {
                    assert(r[a] == chosen[a]);
                } else {
                    assert(r[a] == chosen[a] && r[b] == chosen[b]);
                }
            }
            if r.len() < target {
                assert forall|j: int| 0 <= j < s.len() implies has_operator(r, #[trigger] s[j].operator_id) by {
                    if j < t.len() {
                        assert(t[j] == s[j]);
                        let w = choose|w: int| 0 <= w < chosen.len() && chosen[w].operator_id == t[j].operator_id;
                        assert(r[w] == chosen[w]);
                    } else {
                        assert(r[chosen.len() as int] == m);
                    }
                }
            }
        }
    }
}

proof fn lemma_fill_pass(s: Seq<MinerCandidate>, target: nat, first: Seq<MinerCandidate>)
    ensures
        fill_pass(s, target, first).len() >= first.len(),
        first.len() >= target ==> fill_pass(s, target, first) == first,
        fill_pass(s, target, first).len() < target ==> forall|j: int| 0 <= j < s.len()
            ==> has_address(fill_pass(s, target, first), #[trigger] s[j].address),
    decreases s.len(),
{
    if s.len() > 0 {
        let t = s.drop_last();
        lemma_fill_pass(t, target, first);
        let chosen = fill_pass(t, target, first);
        let m = s.last();
        let r = fill_pass(s, target, first);
        if chosen.len() >= target || has_address(chosen, m.address) {
            if r.len() < target {
                assert forall|j: int| 0 <= j < s.len() implies has_address(r, #[trigger] s[j].address) by {
                    if j < t.len() {
                        assert(t[j] == s[j]);
                    }
                }
            }
        } else {
            assert(r == chosen.push(m));
            if r.len() < target {
                assert forall|j: int| 0 <= j < s.len() implies has_address(r, #[trigger] s[j].address) by {
                    if j < t.len() {
                        assert(t[j] == s[j]);
                        let w = choose|w: int| 0 <= w < chosen.len() && chosen[w].address == t[j].address;
                        assert(r[w] == chosen[w]);
                    } else {
                        assert(r[chosen.len() as int] == m);
                    }
                }
            }
        }
    }
}

/// Operator separation: where the candidates have at least `target`
/// operators, the assignment has `target` miners, no two with one operator.
pub proof fn lemma_assignment_separates_operators(s: Seq<MinerCandidate>, target: nat)
    requires
        target <= operators(s).len(),
    ensures
        assigned_miners(s, target).len() == target,
        forall|a: int, b: int| 0 <= a < b < assigned_miners(s, target).len()
            ==> (#[trigger] assigned_miners(s, target)[a]).operator_id != (#[trigger] assigned_miners(s, target)[b]).operator_id,
{
    let first = operator_pass(s, target);
    lemma_operator_pass(s, target);
    if first.len() < target {
        let fo = first.map_values(|m: MinerCandidate| m.operator_id);
        let so = s.map_values(|m: MinerCandidate| m.operator_id);
        assert(operators(s).subset_of(fo.to_set())) by {
            assert forall|o: Address| operators(s).contains(o) implies fo.to_set().contains(o) by {
                let j = choose|j: int| 0 <= j < so.len() && #[trigger] so[j] == o;
                assert(has_operator(first, s[j].operator_id));
                let w = choose|w: int| 0 <= w < first.len() && first[w].operator_id == s[j].operator_id;
                assert(fo[w] == o);
            }
        }
        fo.lemma_cardinality_of_set();
        vstd::set_lib::lemma_len_subset(operators(s), fo.to_set());
        assert(false);
    }
    lemma_fill_pass(s, target, first);
}

/// Filling up: where candidates have distinct addresses and there are at
/// least `target` of them, the assignment has exactly `target` miners.
pub proof fn lemma_assignment_fills_target(s: Seq<MinerCandidate>, target: nat)
    requires
        target <= s.len(),
        s.map_values(|m: MinerCandidate| m.address).no_duplicates(),
    ensures
        assigned_miners(s, target).len() == target,
{
    let first = operator_pass(s, target);
    lemma_operator_pass(s, target);
    lemma_fill_pass(s, target, first);
    let r = assigned_miners(s, target);
    lemma_fill_len_bound(s, target, first);
    if r.len() < target {
        let ra = r.map_values(|m: MinerCandidate| m.address);
        let sa = s.map_values(|m: MinerCandidate| m.address);
        assert(addresses(s).subset_of(ra.to_set())) by {
            assert forall|x: Address| addresses(s).contains(x) implies ra.to_set().contains(x) by {
                let j = choose|j: int| 0 <= j < sa.len() && #[trigger] sa[j] == x;
                assert(has_address(r, s[j].address));
                let w = choose|w: int| 0 <= w < r.len() && r[w].address == s[j].address;
                assert(ra[w] == x);
            }
        }
        ra.lemma_cardinality_of_set();
        sa.unique_seq_to_set();
        vstd::set_lib::lemma_len_subset(addresses(s), ra.to_set());
        assert(false);
    }
}


proof fn lemma_operator_pass_from(s: Seq<MinerCandidate>, target: nat)
    ensures
        forall|i: int| 0 <= i < operator_pass(s, target).len() ==> s.contains(#[trigger] operator_pass(s, target)[i]),
    decreases s.len(),
{
    if s.len() > 0 {
        let t = s.drop_last();
        lemma_operator_pass_from(t, target);
        let chosen = operator_pass(t, target);
        let r = operator_pass(s, target);
        assert forall|i: int| 0 <= i < r.len() implies s.contains(#[trigger] r[i]) by {
            if i < chosen.len() {
                assert(r[i] == chosen[i]);
                assert(t.contains(chosen[i]));
                let k = choose|k: int| 0 <= k < t.len() && t[k] == chosen[i];
                assert(s[k] == chosen[i]);
            } else {
                assert(r[i] == s.last());
                assert(s[s.len() - 1] == s.last());
            }
        }
    }
}

proof fn lemma_fill_pass_from(s: Seq<MinerCandidate>, target: nat, first: Seq<MinerCandidate>)
    ensures
        fill_pass(s, target, first).len() >= first.len(),
        forall|i: int| 0 <= i < first.len() ==> #[trigger] fill_pass(s, target, first)[i] == first[i],
        forall|i: int| first.len() <= i < fill_pass(s, target, first).len()
            ==> s.contains(#[trigger] fill_pass(s, target, first)[i]),
    decreases s.len(),
{
    if s.len() > 0 {
        let t = s.drop_last();
        lemma_fill_pass_from(t, target, first);
        let chosen = fill_pass(t, target, first);
        let r = fill_pass(s, target, first);
        assert forall|i: int| first.len() <= i < r.len() implies s.contains(#[trigger] r[i]) by {
            if i < chosen.len() {
                assert(r[i] == chosen[i]);
                assert(t.contains(chosen[i]));
                let k = choose|k: int| 0 <= k < t.len() && t[k] == chosen[i];
                assert(s[k] == chosen[i]);
            } else {
                assert(r[i] == s.last());
                assert(s[s.len() - 1] == s.last());
            }
        }
        assert forall|i: int| 0 <= i < first.len() implies #[trigger] r[i] == first[i] by {
            assert(r[i] == chosen[i]);
        }
    }
}

/// Operator separation as far as it goes: where the candidates have fewer
/// than `target` operators, the assignment has a miner of every one of
/// them, and no operator it has is foreign to the candidates.
pub proof fn lemma_assignment_covers_operators(s: Seq<MinerCandidate>, target: nat)
    requires
        operators(s).len() < target,
    ensures
        operators(assigned_miners(s, target)) == operators(s),
{
    let first = operator_pass(s, target);
    lemma_operator_pass(s, target);
    lemma_operator_pass_from(s, target);
    lemma_fill_pass_from(s, target, first);
    let r = assigned_miners(s, target);
    let fo = first.map_values(|m: MinerCandidate| m.operator_id);
    assert(fo.no_duplicates()) by {
        assert forall|a: int, b: int| 0 <= a < fo.len() && 0 <= b < fo.len() && a != b implies fo[a] != fo[b] by {
            if a < b {
                assert(first[a].operator_id != first[b].operator_id);
            } else {
                assert(first[b].operator_id != first[a].operator_id);
            }
        }
    }
    assert(fo.to_set().subset_of(operators(s))) by {
        assert forall|o: Address| fo.to_set().contains(o) implies operators(s).contains(o) by {
            let i = choose|i: int| 0 <= i < fo.len() && fo[i] == o;
            assert(s.contains(first[i]));
            let k = choose|k: int| 0 <= k < s.len() && s[k] == first[i];
            assert(s.map_values(|m: MinerCandidate| m.operator_id)[k] == o);
        }
    }
    fo.unique_seq_to_set();
    vstd::set_lib::lemma_len_subset(fo.to_set(), operators(s));
    assert(first.len() < target);
    assert forall|o: Address| operators(s).contains(o) implies operators(r).contains(o) by {
        let so = s.map_values(|m: MinerCandidate| m.operator_id);
        let j = choose|j: int| 0 <= j < so.len() && so[j] == o;
        assert(has_operator(first, s[j].operator_id));
        let w = choose|w: int| 0 <= w < first.len() && first[w].operator_id == s[j].operator_id;
        assert(r[w] == first[w]);
        assert(r.map_values(|m: MinerCandidate| m.operator_id)[w] == o);
    }
    assert forall|o: Address| operators(r).contains(o) implies operators(s).contains(o) by {
        let ro = r.map_values(|m: MinerCandidate| m.operator_id);
        let i = choose|i: int| 0 <= i < ro.len() && ro[i] == o;
        if i < first.len() {
            assert(r[i] == first[i]);
            assert(s.contains(first[i]));
        } else {
            assert(s.contains(r[i]));
        }
        let k = choose|k: int| 0 <= k < s.len() && s[k] == r[i];
        assert(s.map_values(|m: MinerCandidate| m.operator_id)[k] == o);
    }
    assert(operators(r) =~= operators(s));
}

proof fn lemma_fill_len_bound(s: Seq<MinerCandidate>, target: nat, first: Seq<MinerCandidate>)
    requires
        first.len() <= target,
    ensures
        fill_pass(s, target, first).len() <= target,
    decreases s.len(),
{
    if s.len() > 0 {
        lemma_fill_len_bound(s.drop_last(), target, first);
    }
}


/// The addresses of a list of candidates, in order.
pub open spec fn address_list(s: Seq<MinerCandidate>) -> Seq<Address> {
    s.map_values(|m: MinerCandidate| m.address)
}

proof fn lemma_distinct_addresses_distinct_entries(s: Seq<MinerCandidate>)
    requires
        address_list(s).no_duplicates(),
    ensures
        s.no_duplicates(),
{
    assert forall|a: int, b: int| 0 <= a < s.len() && 0 <= b < s.len() && a != b implies s[a] != s[b] by {
        assert(address_list(s)[a] != address_list(s)[b]);
    }
}

proof fn lemma_sorted_candidates(s: Seq<MinerCandidate>, key: spec_fn(MinerCandidate) -> u128)
    requires
        address_list(s).no_duplicates(),
    ensures
        address_list(sort_by_key(s, key)).no_duplicates(),
        operators(sort_by_key(s, key)) == operators(s),
        forall|y: MinerCandidate| #![trigger sort_by_key(s, key).contains(y)] sort_by_key(s, key).contains(y) <==> s.contains(y),
{
    let t = sort_by_key(s, key);
    lemma_distinct_addresses_distinct_entries(s);
    lemma_sort_by_key_members(s, key);
    lemma_sort_by_key_len(s, key);
    assert forall|a: int, b: int| 0 <= a < t.len() && 0 <= b < t.len() && a != b
        implies address_list(t)[a] != address_list(t)[b] by {
        assert(t.contains(t[a]) && t.contains(t[b]));
        let i = choose|i: int| 0 <= i < s.len() && s[i] == t[a];
        let j = choose|j: int| 0 <= j < s.len() && s[j] == t[b];
        assert(t[a] != t[b]);
        assert(address_list(s)[i] == t[a].address && address_list(s)[j] == t[b].address);
    }
    assert forall|o: Address| operators(t).contains(o) <==> operators(s).contains(o) by {
        let to = t.map_values(|m: MinerCandidate| m.operator_id);
        let so = s.map_values(|m: MinerCandidate| m.operator_id);
        if operators(t).contains(o) {
            let i = choose|i: int| 0 <= i < to.len() && to[i] == o;
            assert(t.contains(t[i]));
            let k = choose|k: int| 0 <= k < s.len() && s[k] == t[i];
            assert(so[k] == o);
        }
        if operators(s).contains(o) {
            let i = choose|i: int| 0 <= i < so.len() && so[i] == o;
            assert(s.contains(s[i]));
            let k = choose|k: int| 0 <= k < t.len() && t[k] == s[i];
            assert(to[k] == o);
        }
    }
    assert(operators(t) =~= operators(s));
}

proof fn lemma_fill_pass_distinct_addresses(s: Seq<MinerCandidate>, target: nat, first: Seq<MinerCandidate>)
    requires
        address_list(first).no_duplicates(),
    ensures
        address_list(fill_pass(s, target, first)).no_duplicates(),
    decreases s.len(),
{
    if s.len() > 0 {
        let t = s.drop_last();
        lemma_fill_pass_distinct_addresses(t, target, first);
        let chosen = fill_pass(t, target, first);
        let m = s.last();
        let r = fill_pass(s, target, first);
        if !(chosen.len() >= target || has_address(chosen, m.address)) {
            assert(r == chosen.push(m));
            assert(address_list(r) =~= address_list(chosen).push(m.address));
            assert forall|a: int, b: int| 0 <= a < address_list(r).len() && 0 <= b < address_list(r).len() && a != b
                implies address_list(r)[a] != address_list(r)[b] by {
                if a == chosen.len() {
                    assert(address_list(r)[b] == chosen[b].address);
                } else if b == chosen.len() {
                    assert(address_list(r)[a] == chosen[a].address);
                } else {
                    assert(address_list(r)[a] == address_list(chosen)[a]);
                    assert(address_list(r)[b] == address_list(chosen)[b]);
                }
            }
        }
    }
}

/// Miner assignment: where no address is registered twice, the miners
/// assigned number as many as wanted (or all registered, where fewer are),
/// are registered, are distinct, and have as many distinct operators as
/// there can be: the number assigned, or the number of registered
/// operators where that is smaller.
pub proof fn lemma_miner_assignment_law(
    miners: Seq<MinerCandidate>,
    replication_factor: nat,
    seed: Seq<u8>,
    job_id: Seq<u8>,
)
    requires
        address_list(miners).no_duplicates(),
    ensures
        ({
            let target = if replication_factor < miners.len() { replication_factor } else { miners.len() };
            let a = assigned_miners(sort_by_key(miners, miner_key(seed, job_id)), target);
            let ops = operators(miners).len();
            &&& a.len() == target
            &&& forall|i: int| 0 <= i < a.len() ==> miners.contains(#[trigger] a[i])
            &&& address_list(a).no_duplicates()
            &&& operators(a).len() == if target < ops { target } else { ops }
        }),
{
    let key = miner_key(seed, job_id);
    let s = sort_by_key(miners, key);
    let target = if replication_factor < miners.len() { replication_factor } else { miners.len() };
    let a = assigned_miners(s, target);
    lemma_sorted_candidates(miners, key);
    lemma_sort_by_key_len(miners, key);
    lemma_assignment_fills_target(s, target);
    let first = operator_pass(s, target);
    lemma_operator_pass(s, target);
    lemma_operator_pass_from(s, target);
    lemma_fill_pass_from(s, target, first);
    assert forall|i: int| 0 <= i < a.len() implies miners.contains(#[trigger] a[i]) by {
        if i < first.len() {
            assert(a[i] == first[i]);
        }
        assert(s.contains(a[i]));
    }
    assert(address_list(first).no_duplicates()) by {
        assert forall|x: int, y: int| 0 <= x < first.len() && 0 <= y < first.len() && x != y
            implies address_list(first)[x] != address_list(first)[y] by {
            if x < y {
                assert(first[x].operator_id != first[y].operator_id);
            } else {
                assert(first[y].operator_id != first[x].operator_id);
            }
            assert(s.contains(first[x]) && s.contains(first[y]));
            let i = choose|i: int| 0 <= i < s.len() && s[i] == first[x];
            let j = choose|j: int| 0 <= j < s.len() && s[j] == first[y];
            assert(address_list(s)[i] == first[x].address && address_list(s)[j] == first[y].address);
        }
    }
    lemma_fill_pass_distinct_addresses(s, target, first);
    let ops = operators(miners).len();
    if target <= ops {
        lemma_assignment_separates_operators(s, target);
        let ao = a.map_values(|m: MinerCandidate| m.operator_id);
        assert(ao.no_duplicates()) by {
            assert forall|x: int, y: int| 0 <= x < ao.len() && 0 <= y < ao.len() && x != y implies ao[x] != ao[y] by {
                if x < y {
                    assert(a[x].operator_id != a[y].operator_id);
                } else {
                    assert(a[y].operator_id != a[x].operator_id);
                }
            }
        }
        ao.unique_seq_to_set();
    } else {
        lemma_assignment_covers_operators(s, target);
    }
}
} // verus!
