use vstd::bytes::spec_u64_to_le_bytes;
use vstd::prelude::*;
use vstd::string::StringSliceAdditionalSpecFns;
use crate::error::{Result, TvmError};
use crate::types::{Hash32, hash_bytes, hash_pair, hash_eq, spec_hash_bytes, slices_view};

verus! {

/// The root of a chunked tensor commitment.
#[derive(Clone, Debug, Eq, PartialEq)]
pub struct MerkleCommitment {
    pub root: Hash32,
    pub leaf_count: u64,
    pub chunk_size: usize,
}

/// The sibling path from a leaf to the root.
#[derive(Clone, Debug, Eq, PartialEq)]
pub struct MerkleProof {
    pub leaf_index: u64,
    pub siblings: Vec<Hash32>,
}

/// The views of a sequence of digests.
pub open spec fn hashes_view(hashes: Seq<Hash32>) -> Seq<Seq<u8>> {
    hashes.map_values(|h: Hash32| h@)
}

/// The hash of an inner node.
pub open spec fn node_hash(left: Seq<u8>, right: Seq<u8>) -> Seq<u8> {
    spec_hash_bytes("tensor-vm-merkle-node-v1".spec_bytes(), seq![left, right])
}

/// The hash of a leaf: a tensor chunk bound to its tensor and position.
pub open spec fn spec_leaf_hash(tensor_id: Seq<u8>, chunk_index: u64, chunk: Seq<u8>) -> Seq<u8> {
    spec_hash_bytes(
        "tensor-vm-merkle-leaf-v1".spec_bytes(),
        seq![tensor_id, spec_u64_to_le_bytes(chunk_index), chunk],
    )
}

/// The right partner of position `2 * i`: the next node, or the node itself
/// when it is the last of an odd level.
pub open spec fn pair_right(level: Seq<Seq<u8>>, i: int) -> Seq<u8> {
    if 2 * i + 1 < level.len() {
        level[2 * i + 1]
    } else {
        level[2 * i]
    }
}

/// The level above: each pair of nodes hashed together.
pub open spec fn next_level(level: Seq<Seq<u8>>) -> Seq<Seq<u8>> {
    Seq::new(((level.len() + 1) / 2) as nat, |i: int| node_hash(level[2 * i], pair_right(level, i)))
}

/// The single node that remains once the levels are folded up.
pub open spec fn level_root(level: Seq<Seq<u8>>) -> Seq<u8>
    decreases level.len(),
{
    if level.len() <= 1 {
        level[0]
    } else {
        level_root(next_level(level))
    }
}

/// The Merkle root of a list of leaves; an empty list has a fixed root of its own.
pub open spec fn spec_merkle_root(leaves: Seq<Seq<u8>>) -> Seq<u8> {
    if leaves.len() == 0 {
        spec_hash_bytes("tensor-vm-empty-merkle-v1".spec_bytes(), Seq::empty())
    } else {
        level_root(leaves)
    }
}

/// The position of the sibling of `index` on a level of `len` nodes.
pub open spec fn sibling_index(index: int, len: int) -> int {
    if index % 2 == 0 {
        if index + 1 < len - 1 { index + 1 } else { len - 1 }
    } else {
        index - 1
    }
}

/// The siblings met on the way from position `index` up to the root.
pub open spec fn proof_path(level: Seq<Seq<u8>>, index: int) -> Seq<Seq<u8>>
    decreases level.len(),
{
    if level.len() <= 1 {
        Seq::empty()
    } else {
        seq![level[sibling_index(index, level.len() as int)]] + proof_path(next_level(level), index / 2)
    }
}

/// The node reached by folding `siblings` into `current`, left or right by
/// the bits of `index`.
pub open spec fn fold_path(index: int, current: Seq<u8>, siblings: Seq<Seq<u8>>) -> Seq<u8>
    decreases siblings.len(),
{
    if siblings.len() == 0 {
        current
    } else {
        let up = if index % 2 == 0 {
            node_hash(current, siblings[0])
        } else {
            node_hash(siblings[0], current)
        };
        fold_path(index / 2, up, siblings.subrange(1, siblings.len() as int))
    }
}

/// Whether `proof` leads from `leaf` to `root`.
pub open spec fn spec_verify_proof(root: Seq<u8>, leaf: Seq<u8>, proof: MerkleProof) -> bool {
    fold_path(proof.leaf_index as int, leaf, hashes_view(proof.siblings@)) == root
}

/// The hash of chunk `chunk_index` of tensor `tensor_id`.
pub fn leaf_hash(tensor_id: &Hash32, chunk_index: u64, chunk: &[u8]) -> (out: Hash32)
    ensures
        out@ == spec_leaf_hash(tensor_id@, chunk_index, chunk@),
{
    let index_bytes = crate::types::u64_bytes(chunk_index);
    let parts: Vec<&[u8]> = vec![tensor_id.as_slice(), index_bytes.as_slice(), chunk];
    let out = hash_bytes("tensor-vm-merkle-leaf-v1".as_bytes(), parts.as_slice());
    assert(slices_view(parts@) =~= seq![tensor_id@, spec_u64_to_le_bytes(chunk_index), chunk@]);
    out
}

fn node(left: &Hash32, right: &Hash32) -> (out: Hash32)
    ensures
        out@ == node_hash(left@, right@),
{
    hash_pair("tensor-vm-merkle-node-v1".as_bytes(), left, right)
}

fn compute_next_level(level: &Vec<Hash32>) -> (next: Vec<Hash32>)
    requires
        level@.len() >= 1,
    ensures
        next@.len() == (level@.len() + 1) / 2,
        hashes_view(next@) == next_level(hashes_view(level@)),
{
    let ghost lv = hashes_view(level@);
    let mut next: Vec<Hash32> = Vec::new();
    let half: usize = level.len() / 2 + level.len() % 2;
    let mut i: usize = 0;
    while i < half
        invariant
            lv == hashes_view(level@),
            half == (level@.len() + 1) / 2,
            i <= half,
            next@.len() == i,
            forall|k: int| 0 <= k < i ==> (#[trigger] next@[k])@ == node_hash(lv[2 * k], pair_right(lv, k)),
        decreases half - i,
    {
        let n = level.len();
        assert(2 * i < n) by (nonlinear_arith)
            requires
                i < half,
                half == (n + 1) / 2,
        ;
        let j = 2 * i;
        let left = &level[j];
        let right = if j + 1 < level.len() { &level[j + 1] } else { &level[j] };
        let h = node(left, right);
        next.push(h);
        i += 1;
    }
    assert(hashes_view(next@) =~= next_level(lv));
    next
}

/// The Merkle root of `leaves`: pairs are hashed level by level, an odd last
/// node paired with itself.
pub fn merkle_root(leaves: &[Hash32]) -> (out: Hash32)
    ensures
        out@ == spec_merkle_root(hashes_view(leaves@)),
{
    if leaves.len() == 0 {
        let parts: Vec<&[u8]> = Vec::new();
        let out = hash_bytes("tensor-vm-empty-merkle-v1".as_bytes(), parts.as_slice());
        assert(slices_view(parts@) =~= Seq::<Seq<u8>>::empty());
        return out;
    }
    let mut level: Vec<Hash32> = vstd::slice::slice_to_vec(leaves);
    assert(level@ == leaves@);
    while level.len() > 1
        invariant
            level@.len() >= 1,
            level_root(hashes_view(level@)) == level_root(hashes_view(leaves@)),
        decreases level@.len(),
    {
        level = compute_next_level(&level);
    }
    level[0]
}

/// The sibling path of leaf `leaf_index`; an index past the last leaf is
/// refused.
pub fn build_proof(leaves: &[Hash32], leaf_index: u64) -> (out: Result<MerkleProof>)
    ensures
        leaf_index < leaves@.len() ==> (out matches Ok(p) && p.leaf_index == leaf_index
            && hashes_view(p.siblings@) == proof_path(hashes_view(leaves@), leaf_index as int)),
        leaf_index >= leaves@.len() ==> out == Err::<MerkleProof, TvmError>(TvmError::InvalidChunk { chunk_index: leaf_index }),
{
    if leaf_index >= leaves.len() as u64 {
        return Err(TvmError::InvalidChunk { chunk_index: leaf_index });
    }
    let mut index: usize = leaf_index as usize;
    let mut level: Vec<Hash32> = vstd::slice::slice_to_vec(leaves);
    let mut siblings: Vec<Hash32> = Vec::new();
    assert(level@ == leaves@);
    while level.len() > 1
        invariant
            level@.len() >= 1,
            index < level@.len(),
            hashes_view(siblings@) + proof_path(hashes_view(level@), index as int)
                == proof_path(hashes_view(leaves@), leaf_index as int),
        decreases level@.len(),
    {
        let sib = if index % 2 == 0 {
            if index + 1 < level.len() - 1 { index + 1 } else { level.len() - 1 }
        } else {
            index - 1
        };
        let ghost old_siblings = siblings@;
        let ghost old_level = hashes_view(level@);
        siblings.push(level[sib]);
        level = compute_next_level(&level);
        proof {
            assert(hashes_view(siblings@) =~= hashes_view(old_siblings) + seq![old_level[sib as int]]);
            assert(proof_path(old_level, index as int) == seq![old_level[sib as int]]
                + proof_path(hashes_view(level@), index as int / 2));
            assert(hashes_view(siblings@) + proof_path(hashes_view(level@), index as int / 2)
                =~= hashes_view(old_siblings) + proof_path(old_level, index as int));
        }
        index = index / 2;
    }
    assert(proof_path(hashes_view(level@), index as int) =~= Seq::<Seq<u8>>::empty());
    assert(hashes_view(siblings@) =~= hashes_view(siblings@) + Seq::<Seq<u8>>::empty());
    Ok(MerkleProof { leaf_index, siblings })
}

/// Whether `proof` leads from `leaf` up to `root`.
pub fn verify_proof(root: &Hash32, leaf: Hash32, proof: &MerkleProof) -> (valid: bool)
    ensures
        valid == spec_verify_proof(root@, leaf@, *proof),
{
    let mut index: u64 = proof.leaf_index;
    let mut current: Hash32 = leaf;
    let mut i: usize = 0;
    let ghost sibs = hashes_view(proof.siblings@);
    assert(sibs.subrange(0, sibs.len() as int) =~= sibs);
    while i < proof.siblings.len()
        invariant
            i <= proof.siblings@.len(),
            sibs == hashes_view(proof.siblings@),
            fold_path(index as int, current@, sibs.subrange(i as int, sibs.len() as int))
                == fold_path(proof.leaf_index as int, leaf@, sibs),
        decreases proof.siblings@.len() - i,
    {
        let sibling = &proof.siblings[i];
        let ghost rest = sibs.subrange(i as int, sibs.len() as int);
        current = if index % 2 == 0 { node(&current, sibling) } else { node(sibling, &current) };
        proof {
            assert(rest[0] == sibling@);
            assert(rest.subrange(1, rest.len() as int) =~= sibs.subrange(i + 1, sibs.len() as int));
        }
        index = index / 2;
        i += 1;
    }
    assert(sibs.subrange(sibs.len() as int, sibs.len() as int) =~= Seq::<Seq<u8>>::empty());
    hash_eq(&current, root)
}

proof fn lemma_fold_proof_path(level: Seq<Seq<u8>>, index: int)
    requires
        0 <= index < level.len(),
    ensures
        fold_path(index, level[index], proof_path(level, index)) == level_root(level),
    decreases level.len(),
{
    if level.len() > 1 {
        let next = next_level(level);
        let len = level.len() as int;
        let sib = sibling_index(index, len);
        let path = proof_path(level, index);
        let rest = proof_path(next, index / 2);
        assert(path == seq![level[sib]] + rest);
        assert(path[0] == level[sib]);
        assert(path.subrange(1, path.len() as int) =~= rest);
        let up = if index % 2 == 0 {
            node_hash(level[index], level[sib])
        } else {
            node_hash(level[sib], level[index])
        };
        assert(up == next[index / 2]);
        lemma_fold_proof_path(next, index / 2);
    }
}

/// Every leaf's proof verifies against the root: the proof that
/// `build_proof` gives for leaf `index` leads from that leaf to the root that
/// `merkle_root` computes.
pub proof fn lemma_merkle_proof_verifies(leaves: Seq<Seq<u8>>, index: u64, proof: MerkleProof)
    requires
        index < leaves.len(),
        proof.leaf_index == index,
        hashes_view(proof.siblings@) == proof_path(leaves, index as int),
    ensures
        spec_verify_proof(spec_merkle_root(leaves), leaves[index as int], proof),
{
    lemma_fold_proof_path(leaves, index as int);
}

} // verus!
