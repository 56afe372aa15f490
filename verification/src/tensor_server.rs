use vstd::prelude::*;
use crate::error::{Result, TvmError};
use crate::merkle::spec_merkle_root;
use crate::node::keys::{hash_key, lex_lt, lemma_lex_irreflexive, lemma_lex_transitive, lemma_lex_total, QueueKey};
use crate::tensor::{
    DEFAULT_CHUNK_SIZE, Tensor, TensorDescriptor, TensorOpening, spec_tensor_id, tensor_leaves, opening_outcome,
    row_outcome, describes, copy_values,
};
use crate::field::Elem;
use crate::types::{Hash32, hash_eq};

verus! {

/// A stored tensor: its identifier, the tensor, and the block through which
/// it is kept.
pub struct StoredTensor {
    id: Hash32,
    tensor: Tensor,
    retain_until_block: u64,
}

/// A stored entry as the contracts see it.
pub type StoredView = (Hash32, Tensor, u64);

/// The identifier that a tensor is stored under.
pub open spec fn id_of(t: Tensor) -> Seq<u8> {
    spec_tensor_id(t.shape_view(), t.dtype_view(), t.values())
}

/// The commitment root of a tensor at the default chunk size.
pub open spec fn root_of(t: Tensor) -> Seq<u8> {
    spec_merkle_root(tensor_leaves(id_of(t), t.values(), DEFAULT_CHUNK_SIZE as int))
}

/// Whether entries are in strictly ascending identifier order, each under
/// its tensor's own identifier.
pub open spec fn store_wf(s: Seq<StoredView>) -> bool {
    &&& forall|i: int, j: int| 0 <= i < j < s.len() ==> lex_lt(#[trigger] hash_key(s[i].0), #[trigger] hash_key(s[j].0))
    &&& forall|i: int| 0 <= i < s.len() ==> (#[trigger] s[i].0)@ == id_of(s[i].1)
}

/// The entries with `e` put in its place; an entry under the same
/// identifier is replaced.
pub open spec fn upsert(s: Seq<StoredView>, e: StoredView) -> Seq<StoredView>
    decreases s.len(),
{
    if s.len() == 0 {
        seq![e]
    } else if lex_lt(hash_key(s[0].0), hash_key(e.0)) {
        seq![s[0]] + upsert(s.drop_first(), e)
    } else if s[0].0 == e.0 {
        seq![e] + s.drop_first()
    } else {
        seq![e] + s
    }
}

/// The position of the entry under `id`, if any.
pub open spec fn find_id(s: Seq<StoredView>, id: Hash32) -> Option<int> {
    if exists|i: int| 0 <= i < s.len() && s[i].0 == id {
        Some(choose|i: int| 0 <= i < s.len() && s[i].0 == id)
    } else {
        None
    }
}

/// The entries kept by a prune at `current_block`, in order.
pub open spec fn kept(s: Seq<StoredView>, current_block: u64) -> Seq<StoredView> {
    s.filter(|e: StoredView| e.2 >= current_block)
}

proof fn lemma_upsert_prefix(s: Seq<StoredView>, e: StoredView, i: int)
    requires
        0 <= i <= s.len(),
        forall|j: int| 0 <= j < i ==> lex_lt(#[trigger] hash_key(s[j].0), hash_key(e.0)),
    ensures
        upsert(s, e) == s.take(i) + upsert(s.skip(i), e),
    decreases i,
{
    if i == 0 {
        assert(s.skip(0) =~= s);
        assert(s.take(0) + upsert(s, e) =~= upsert(s, e));
    } else {
        let t = s.drop_first();
        assert forall|j: int| 0 <= j < i - 1 implies lex_lt(#[trigger] hash_key(t[j].0), hash_key(e.0)) by {
            assert(t[j] == s[j + 1]);
        }
        lemma_upsert_prefix(t, e, i - 1);
        assert(t.skip(i - 1) =~= s.skip(i));
        assert(lex_lt(hash_key(s[0].0), hash_key(e.0)));
        assert(seq![s[0]] + (t.take(i - 1) + upsert(s.skip(i), e)) =~= s.take(i) + upsert(s.skip(i), e));
    }
}

proof fn lemma_upsert_members(s: Seq<StoredView>, e: StoredView, j: int)
    requires
        0 <= j < upsert(s, e).len(),
    ensures
        s.contains(upsert(s, e)[j]) || upsert(s, e)[j] == e,
    decreases s.len(),
{
    let r = upsert(s, e);
    if s.len() == 0 {
    } else if lex_lt(hash_key(s[0].0), hash_key(e.0)) {
        if j == 0 {
            assert(r[0] == s[0]);
        } else {
            let t = s.drop_first();
            lemma_upsert_members(t, e, j - 1);
            assert(r[j] == upsert(t, e)[j - 1]);
            if t.contains(r[j]) {
                let m = choose|m: int| 0 <= m < t.len() && t[m] == r[j];
                assert(s[m + 1] == r[j]);
            }
        }
    } else if s[0].0 == e.0 {
        if j > 0 {
            assert(r[j] == s[j]);
        }
    } else {
        if j > 0 {
            assert(r[j] == s[j - 1]);
        }
    }
}

/// Storing keeps the entries in identifier order, each under its own
/// tensor's identifier.
pub proof fn lemma_upsert_wf(s: Seq<StoredView>, e: StoredView)
    requires
        store_wf(s),
        e.0@ == id_of(e.1),
    ensures
        store_wf(upsert(s, e)),
    decreases s.len(),
{
    let r = upsert(s, e);
    if s.len() == 0 {
        assert(r[0] == e);
    } else {
        <[u8; 32] as QueueKey>::lemma_order_key(s[0].0, e.0);
        lemma_lex_total(hash_key(s[0].0), hash_key(e.0));
        if lex_lt(hash_key(s[0].0), hash_key(e.0)) {
            let t = s.drop_first();
            assert forall|a: int, b: int| 0 <= a < b < t.len() implies lex_lt(#[trigger] hash_key(t[a].0), #[trigger] hash_key(t[b].0)) by {
                assert(t[a] == s[a + 1] && t[b] == s[b + 1]);
            }
            assert forall|j: int| 0 <= j < t.len() implies (#[trigger] t[j].0)@ == id_of(t[j].1) by {
                assert(t[j] == s[j + 1]);
            }
            lemma_upsert_wf(t, e);
            let rt = upsert(t, e);
            assert(r == seq![s[0]] + rt);
            assert forall|j: int| 0 <= j < rt.len() implies lex_lt(hash_key(s[0].0), #[trigger] hash_key(rt[j].0)) by {
                lemma_upsert_members(t, e, j);
                if rt[j] != e {
                    let m = choose|m: int| 0 <= m < t.len() && t[m] == rt[j];
                    assert(s[m + 1] == t[m]);
                }
            }
            assert forall|a: int, b: int| 0 <= a < b < r.len() implies lex_lt(#[trigger] hash_key(r[a].0), #[trigger] hash_key(r[b].0)) by {
                if a == 0 {
                    assert(r[b] == rt[b - 1]);
                } else {
                    assert(r[a] == rt[a - 1] && r[b] == rt[b - 1]);
                }
            }
            assert forall|j: int| 0 <= j < r.len() implies (#[trigger] r[j].0)@ == id_of(r[j].1) by {
                if j > 0 {
                    assert(r[j] == rt[j - 1]);
                }
            }
        } else if s[0].0 == e.0 {
            assert forall|a: int, b: int| 0 <= a < b < r.len() implies lex_lt(#[trigger] hash_key(r[a].0), #[trigger] hash_key(r[b].0)) by {
                assert(r[b] == s[b]);
                if a > 0 {
                    assert(r[a] == s[a]);
                } else {
                    assert(hash_key(r[0].0) == hash_key(s[0].0));
                }
            }
            assert forall|j: int| 0 <= j < r.len() implies (#[trigger] r[j].0)@ == id_of(r[j].1) by {
                if j > 0 {
                    assert(r[j] == s[j]);
                }
            }
        } else {
            assert(lex_lt(hash_key(e.0), hash_key(s[0].0)));
            assert forall|a: int, b: int| 0 <= a < b < r.len() implies lex_lt(#[trigger] hash_key(r[a].0), #[trigger] hash_key(r[b].0)) by {
                assert(r[b] == s[b - 1]);
                if a == 0 {
                    if b - 1 > 0 {
                        lemma_lex_transitive(hash_key(e.0), hash_key(s[0].0), hash_key(s[b - 1].0));
                    }
                } else {
                    assert(r[a] == s[a - 1]);
                }
            }
            assert forall|j: int| 0 <= j < r.len() implies (#[trigger] r[j].0)@ == id_of(r[j].1) by {
                if j > 0 {
                    assert(r[j] == s[j - 1]);
                }
            }
        }
    }
}

/// The store that keeps tensors for verification and serves their rows and
/// chunk openings.
pub struct TensorServer {
    entries: Vec<StoredTensor>,
}

impl TensorServer {
    pub closed spec fn entries(&self) -> Seq<StoredView> {
        self.entries@.map_values(|e: StoredTensor| (e.id, e.tensor, e.retain_until_block))
    }

    pub open spec fn wf(&self) -> bool {
        store_wf(self.entries())
    }

    fn position(&self, tensor_id: &Hash32) -> (out: Option<usize>)
        requires
            self.wf(),
        ensures
            match out {
                Some(i) => i < self.entries().len() && self.entries()[i as int].0 == *tensor_id,
                None => forall|i: int| 0 <= i < self.entries().len() ==> #[trigger] self.entries()[i].0 != *tensor_id,
            },
    {
        let mut i: usize = 0;
        while i < self.entries.len()
            invariant
                i <= self.entries@.len(),
                forall|j: int| 0 <= j < i ==> #[trigger] self.entries()[j].0 != *tensor_id,
            decreases self.entries@.len() - i,
        {
            if hash_eq(&self.entries[i].id, tensor_id) {
                assert(self.entries@[i as int].id =~= *tensor_id);
                return Some(i);
            }
            assert(self.entries()[i as int].0 != *tensor_id);
            i += 1;
        }
        None
    }

    pub fn insert(&mut self, tensor: Tensor) -> (out: Hash32)
        requires
            old(self).wf(),
        ensures
            final(self).wf(),
            out@ == id_of(tensor),
            final(self).entries() == upsert(old(self).entries(), (out, tensor, u64::MAX)),
    {
        self.insert_with_retention(tensor, u64::MAX)
    }

    /// Stores `tensor` under its identifier, kept through block
    /// `retain_until_block`; a tensor already stored under that identifier is
    /// replaced.
    pub fn insert_with_retention(&mut self, tensor: Tensor, retain_until_block: u64) -> (out: Hash32)
        requires
            old(self).wf(),
        ensures
            final(self).wf(),
            out@ == id_of(tensor),
            final(self).entries() == upsert(old(self).entries(), (out, tensor, retain_until_block)),
    {
        let id = tensor.tensor_id();
        let ghost s = self.entries();
        let ghost e: StoredView = (id, tensor, retain_until_block);
        let n = self.entries.len();
        let mut i: usize = 0;
        while i < n && self.entries[i].id.precedes(&id)
            invariant
                n == self.entries@.len(),
                s == self.entries(),
                store_wf(s),
                i <= n,
                e.0 == id,
                forall|j: int| 0 <= j < i ==> lex_lt(#[trigger] hash_key(s[j].0), hash_key(id)),
            decreases n - i,
        {
            assert(s[i as int].0 == self.entries@[i as int].id);
            i += 1;
        }
        proof {
            lemma_upsert_prefix(s, e, i as int);
            assert(s.take(i as int) + s.skip(i as int) =~= s);
        }
        let replace = i < n && !id.precedes(&self.entries[i].id);
        if replace {
            proof {
                assert(s[i as int].0 == self.entries@[i as int].id);
                <[u8; 32] as QueueKey>::lemma_order_key(id, s[i as int].0);
                lemma_lex_total(hash_key(id), hash_key(s[i as int].0));
                assert(s.skip(i as int)[0] == s[i as int]);
                assert(s.skip(i as int).drop_first() =~= s.skip(i + 1));
            }
            self.entries.set(i, StoredTensor { id, tensor, retain_until_block });
            proof {
                assert(upsert(s.skip(i as int), e) == seq![e] + s.skip(i + 1));
                assert(self.entries() =~= s.take(i as int) + upsert(s.skip(i as int), e));
            }
        } else {
            proof {
                if i < n {
                    assert(s[i as int].0 == self.entries@[i as int].id);
                    lemma_lex_irreflexive(hash_key(id));
                    assert(s.skip(i as int)[0] == s[i as int]);
                    assert(upsert(s.skip(i as int), e) == seq![e] + s.skip(i as int));
                } else {
                    assert(s.skip(i as int) =~= Seq::<StoredView>::empty());
                }
            }
            self.entries.insert(i, StoredTensor { id, tensor, retain_until_block });
            proof {
                assert(self.entries() =~= s.take(i as int) + upsert(s.skip(i as int), e));
            }
        }
        proof {
            lemma_upsert_wf(s, e);
        }
        id
    }
}

/// Whether `r` is the error for a tensor that is not stored.
pub open spec fn not_found<T>(r: Result<T>) -> bool {
    r == Err::<T, TvmError>(TvmError::InvalidReceipt("tensor not found"))
}

/// Whether some entry is stored under `id`.
pub open spec fn stores(s: Seq<StoredView>, id: Hash32) -> bool {
    exists|i: int| 0 <= i < s.len() && s[i].0 == id
}

impl Default for TensorServer {
    fn default() -> (out: Self)
        ensures
            out.wf(),
            out.entries() == Seq::<StoredView>::empty(),
    {
        let out = TensorServer { entries: Vec::new() };
        assert(out.entries() =~= Seq::<StoredView>::empty());
        out
    }
}

impl TensorServer {
    /// The tensor stored under `tensor_id`.
    pub fn get(&self, tensor_id: &Hash32) -> (out: Option<&Tensor>)
        requires
            self.wf(),
        ensures
            match out {
                Some(t) => exists|i: int| 0 <= i < self.entries().len() && self.entries()[i].0 == *tensor_id
                    && self.entries()[i].1 == *t,
                None => !stores(self.entries(), *tensor_id),
            },
    {
        match self.position(tensor_id) {
            Some(i) => Some(&self.entries[i].tensor),
            None => None,
        }
    }

    /// The first stored tensor, in identifier order, whose commitment root
    /// is `commitment_root`.
    pub fn get_by_commitment_root(&self, commitment_root: &Hash32) -> (out: Option<&Tensor>)
        ensures
            match out {
                Some(t) => exists|i: int| 0 <= i < self.entries().len() && self.entries()[i].1 == *t
                    && root_of(*t) == commitment_root@
                    && forall|j: int| 0 <= j < i ==> root_of(#[trigger] self.entries()[j].1) != commitment_root@,
                None => forall|i: int| 0 <= i < self.entries().len() ==> root_of(#[trigger] self.entries()[i].1) != commitment_root@,
            },
    {
        let mut i: usize = 0;
        while i < self.entries.len()
            invariant
                i <= self.entries@.len(),
                forall|j: int| 0 <= j < i ==> root_of(#[trigger] self.entries()[j].1) != commitment_root@,
            decreases self.entries@.len() - i,
        {
            let root = self.entries[i].tensor.commitment_root();
            assert(self.entries()[i as int].1 == self.entries@[i as int].tensor);
            if hash_eq(&root, commitment_root) {
                return Some(&self.entries[i].tensor);
            }
            i += 1;
        }
        None
    }

    pub fn contains_commitment_root(&self, commitment_root: &Hash32) -> (out: bool)
        ensures
            out == exists|i: int| 0 <= i < self.entries().len() && root_of(#[trigger] self.entries()[i].1) == commitment_root@,
    {
        self.get_by_commitment_root(commitment_root).is_some()
    }

    /// The block through which the tensor under `tensor_id` is kept.
    pub fn retention_deadline(&self, tensor_id: &Hash32) -> (out: Option<u64>)
        requires
            self.wf(),
        ensures
            match out {
                Some(r) => exists|i: int| 0 <= i < self.entries().len() && self.entries()[i].0 == *tensor_id
                    && self.entries()[i].2 == r,
                None => !stores(self.entries(), *tensor_id),
            },
    {
        match self.position(tensor_id) {
            Some(i) => Some(self.entries[i].retain_until_block),
            None => None,
        }
    }

    /// Keeps the tensor under `tensor_id` at least through block
    /// `retain_until_block`; a deadline is never moved earlier.
    pub fn extend_retention(&mut self, tensor_id: &Hash32, retain_until_block: u64) -> (out: Result<()>)
        requires
            old(self).wf(),
        ensures
            final(self).wf(),
            !stores(old(self).entries(), *tensor_id) ==> not_found(out) && final(self).entries() == old(self).entries(),
            stores(old(self).entries(), *tensor_id) ==> out is Ok && exists|i: int| 0 <= i < old(self).entries().len()
                && old(self).entries()[i].0 == *tensor_id
                && final(self).entries() == old(self).entries().update(i, (
                    *tensor_id,
                    old(self).entries()[i].1,
                    if old(self).entries()[i].2 >= retain_until_block { old(self).entries()[i].2 } else { retain_until_block },
                )),
    {
        let i = match self.position(tensor_id) {
            Some(i) => i,
            None => return Err(TvmError::InvalidReceipt("tensor not found")),
        };
        let ghost s = self.entries();
        let mut stored = self.entries.remove(i);
        if stored.retain_until_block < retain_until_block {
            stored.retain_until_block = retain_until_block;
        }
        self.entries.insert(i, stored);
        proof {
            assert(self.entries() =~= s.update(i as int, (s[i as int].0, s[i as int].1,
                if s[i as int].2 >= retain_until_block { s[i as int].2 } else { retain_until_block })));
            let r = self.entries();
            assert forall|a: int, b: int| 0 <= a < b < r.len() implies lex_lt(#[trigger] hash_key(r[a].0), #[trigger] hash_key(r[b].0)) by {
                assert(r[a].0 == s[a].0 && r[b].0 == s[b].0);
            }
            assert forall|j: int| 0 <= j < r.len() implies (#[trigger] r[j].0)@ == id_of(r[j].1) by {
                assert(r[j].0 == s[j].0 && r[j].1 == s[j].1);
            }
        }
        Ok(())
    }

    /// Drops every tensor kept only through a block before `current_block`
    /// and says how many were dropped.
    pub fn prune_expired(&mut self, current_block: u64) -> (out: usize)
        requires
            old(self).wf(),
        ensures
            final(self).wf(),
            final(self).entries() == kept(old(self).entries(), current_block),
            out == old(self).entries().len() - final(self).entries().len(),
    {
        let ghost s = self.entries();
        let before = self.entries.len();
        let mut i: usize = 0;
        let ghost mut k: int = 0;
        while i < self.entries.len()
            invariant
                0 <= k <= s.len(),
                before == s.len(),
                self.entries().len() == i + (s.len() - k),
                self.entries() == kept(s, current_block).take(i as int) + s.skip(k),
                kept(s.take(k), current_block) == kept(s, current_block).take(i as int),
                i <= kept(s, current_block).len(),
                store_wf(self.entries()),
            decreases self.entries@.len() - i,
        {
            proof {
                assert(s.take(k + 1) =~= s.take(k).push(s[k]));
                s.take(k).lemma_filter_push(s[k], |e: StoredView| e.2 >= current_block);
                assert(self.entries()[i as int] == s[k]) by {
                    assert(s.skip(k)[0] == s[k]);
                }
                lemma_kept_prefix(s, current_block, k, i as int);
            }
            if self.entries[i].retain_until_block < current_block {
                let ghost cur = self.entries();
                self.entries.remove(i);
                proof {
                    assert(self.entries() =~= cur.remove(i as int));
                    assert(s.skip(k).drop_first() =~= s.skip(k + 1));
                    assert(self.entries() =~= kept(s, current_block).take(i as int) + s.skip(k + 1));
                    let r = self.entries();
                    assert forall|a: int, b: int| 0 <= a < b < r.len() implies lex_lt(#[trigger] hash_key(r[a].0), #[trigger] hash_key(r[b].0)) by {
                        let a2 = if a < i { a } else { a + 1 };
                        let b2 = if b < i { b } else { b + 1 };
                        assert(r[a] == cur[a2] && r[b] == cur[b2]);
                    }
                    assert forall|j: int| 0 <= j < r.len() implies (#[trigger] r[j].0)@ == id_of(r[j].1) by {
                        let j2 = if j < i { j } else { j + 1 };
                        assert(r[j] == cur[j2]);
                    }
                }
            } else {
                proof {
                    assert(kept(s, current_block).take(i + 1) =~= kept(s, current_block).take(i as int).push(s[k]));
                    assert(s.skip(k) =~= seq![s[k]] + s.skip(k + 1));
                    assert(self.entries() =~= kept(s, current_block).take(i + 1) + s.skip(k + 1));
                }
                i += 1;
            }
            proof {
                k = k + 1;
            }
        }
        proof {
            assert(k == s.len());
            assert(s.skip(k) =~= Seq::<StoredView>::empty());
            assert(s.take(k) =~= s);
            assert(self.entries() =~= kept(s, current_block));
        }
        before - self.entries.len()
    }

    /// The descriptor of the tensor under `tensor_id`.
    pub fn descriptor(&self, tensor_id: &Hash32) -> (out: Result<TensorDescriptor>)
        requires
            self.wf(),
        ensures
            !stores(self.entries(), *tensor_id) ==> not_found(out),
            stores(self.entries(), *tensor_id) ==> (out matches Ok(d) && exists|i: int| 0 <= i < self.entries().len()
                && self.entries()[i].0 == *tensor_id && describes(d, self.entries()[i].1)),
    {
        match self.get(tensor_id) {
            Some(t) => Ok(t.descriptor()),
            None => Err(TvmError::InvalidReceipt("tensor not found")),
        }
    }

    /// Chunk `chunk_index` of the tensor under `tensor_id`, at the default
    /// chunk size, with its proof.
    pub fn opening(&self, tensor_id: &Hash32, chunk_index: u64) -> (out: Result<TensorOpening>)
        requires
            self.wf(),
        ensures
            !stores(self.entries(), *tensor_id) ==> not_found(out),
            stores(self.entries(), *tensor_id) ==> exists|i: int| 0 <= i < self.entries().len()
                && self.entries()[i].0 == *tensor_id && opening_outcome(self.entries()[i].1, chunk_index, DEFAULT_CHUNK_SIZE, out),
    {
        match self.get(tensor_id) {
            Some(t) => t.opening(chunk_index, DEFAULT_CHUNK_SIZE),
            None => Err(TvmError::InvalidReceipt("tensor not found")),
        }
    }

    /// Row `row_index` of the tensor under `tensor_id`.
    pub fn row(&self, tensor_id: &Hash32, row_index: usize) -> (out: Result<Vec<Elem>>)
        requires
            self.wf(),
        ensures
            !stores(self.entries(), *tensor_id) ==> not_found(out),
            stores(self.entries(), *tensor_id) ==> exists|i: int| 0 <= i < self.entries().len()
                && self.entries()[i].0 == *tensor_id && row_outcome(self.entries()[i].1, row_index, match out {
                    Ok(v) => Ok(v@),
                    Err(e) => Err(e),
                }),
    {
        match self.get(tensor_id) {
            Some(t) => match t.row(row_index) {
                Ok(r) => Ok(copy_values(r)),
                Err(e) => Err(e),
            },
            None => Err(TvmError::InvalidReceipt("tensor not found")),
        }
    }

    pub fn len(&self) -> (out: usize)
        ensures
            out == self.entries().len(),
    {
        self.entries.len()
    }

    pub fn is_empty(&self) -> (out: bool)
        ensures
            out == (self.entries().len() == 0),
    {
        self.entries.len() == 0
    }
}

proof fn lemma_kept_prefix(s: Seq<StoredView>, current_block: u64, k: int, i: int)
    requires
        0 <= k < s.len(),
        kept(s.take(k), current_block) == kept(s, current_block).take(i),
        0 <= i <= kept(s, current_block).len(),
    ensures
        s[k].2 >= current_block ==> i < kept(s, current_block).len() && kept(s, current_block)[i] == s[k],
{
    if s[k].2 >= current_block {
        assert(s.take(k + 1) =~= s.take(k).push(s[k]));
        s.take(k).lemma_filter_push(s[k], |e: StoredView| e.2 >= current_block);
        lemma_filter_take(s, current_block, k + 1);
        assert(kept(s.take(k), current_block).len() == i);
        let b = kept(s.take(k + 1), current_block);
        assert(b == kept(s.take(k), current_block).push(s[k]));
        assert(b.len() == i + 1);
        assert(kept(s, current_block).take(i + 1) == b);
        assert(b[i] == s[k]);
        assert(kept(s, current_block).take(i + 1)[i] == kept(s, current_block)[i]);
    }
}

proof fn lemma_filter_take(s: Seq<StoredView>, current_block: u64, k: int)
    requires
        0 <= k <= s.len(),
    ensures
        kept(s, current_block).take(kept(s.take(k), current_block).len() as int) == kept(s.take(k), current_block),
        kept(s.take(k), current_block).len() <= kept(s, current_block).len(),
    decreases s.len() - k,
{
    if k < s.len() {
        lemma_filter_take(s, current_block, k + 1);
        assert(s.take(k + 1) =~= s.take(k).push(s[k]));
        s.take(k).lemma_filter_push(s[k], |e: StoredView| e.2 >= current_block);
        let a = kept(s.take(k), current_block);
        let b = kept(s.take(k + 1), current_block);
        let f = kept(s, current_block);
        if s[k].2 >= current_block {
            assert(b == a.push(s[k]));
            assert(f.take(a.len() as int) =~= b.take(a.len() as int));
            assert(b.take(a.len() as int) =~= a);
        } else {
            assert(b == a);
        }
    } else {
        assert(s.take(k) =~= s);
    }
}

} // verus!
