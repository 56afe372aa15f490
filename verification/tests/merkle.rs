use tensor_vm::error::TvmError;
use tensor_vm::merkle::{build_proof, leaf_hash, merkle_root, verify_proof};
use tensor_vm::types::hash_bytes;

#[test]
fn merkle_proofs_verify_each_leaf() {
    let tensor_id = hash_bytes(b"test", &[b"tensor"]);
    let leaves: Vec<_> = (0..5)
        .map(|i| leaf_hash(&tensor_id, i, &[i as u8, 42]))
        .collect();
    let root = merkle_root(&leaves);
    for i in 0..leaves.len() {
        let proof = build_proof(&leaves, i as u64).unwrap();
        assert!(verify_proof(&root, leaves[i], &proof));
    }
}

#[test]
fn merkle_proof_rejects_tampering() {
    let tensor_id = hash_bytes(b"test", &[b"tensor"]);
    let leaves: Vec<_> = (0..3)
        .map(|i| leaf_hash(&tensor_id, i, &[i as u8]))
        .collect();
    let root = merkle_root(&leaves);
    let proof = build_proof(&leaves, 1).unwrap();
    let bad_leaf = leaf_hash(&tensor_id, 1, b"bad");
    assert!(!verify_proof(&root, bad_leaf, &proof));
}

#[test]
fn merkle_empty_root_and_out_of_range_proof_are_explicit() {
    let empty = merkle_root(&[]);
    assert_eq!(empty, hash_bytes(b"tensor-vm-empty-merkle-v1", &[]));
    assert_eq!(
        build_proof(&[], 0),
        Err(TvmError::InvalidChunk { chunk_index: 0 })
    );
}

#[test]
fn merkle_single_leaf_root_is_the_leaf_and_proof_is_empty() {
    let leaf = hash_bytes(b"test", &[b"only-leaf"]);
    assert_eq!(merkle_root(&[leaf]), leaf);
    let proof = build_proof(&[leaf], 0).unwrap();
    assert!(proof.siblings.is_empty());
    assert!(verify_proof(&leaf, leaf, &proof));
}

#[test]
fn merkle_two_leaf_root_is_their_node_hash() {
    let a = hash_bytes(b"test", &[b"a"]);
    let b = hash_bytes(b"test", &[b"b"]);
    let root = merkle_root(&[a, b]);
    assert_eq!(root, tensor_vm::types::hash_pair(b"tensor-vm-merkle-node-v1", &a, &b));
    let proof = build_proof(&[a, b], 1).unwrap();
    assert_eq!(proof.siblings, vec![a]);
    assert!(verify_proof(&root, b, &proof));
    assert!(!verify_proof(&root, a, &proof));
    assert_eq!(
        build_proof(&[a, b], 2),
        Err(TvmError::InvalidChunk { chunk_index: 2 })
    );
}

#[test]
fn merkle_odd_level_pairs_last_leaf_with_itself() {
    let leaves: Vec<_> = (0..3u8).map(|i| hash_bytes(b"test", &[&[i]])).collect();
    let node = |l: &[u8; 32], r: &[u8; 32]| tensor_vm::types::hash_pair(b"tensor-vm-merkle-node-v1", l, r);
    let expected = node(&node(&leaves[0], &leaves[1]), &node(&leaves[2], &leaves[2]));
    assert_eq!(merkle_root(&leaves), expected);
    for i in 0..7u8 {
        let leaves: Vec<_> = (0..i).map(|j| hash_bytes(b"test", &[&[j, i]])).collect();
        let root = merkle_root(&leaves);
        for k in 0..leaves.len() {
            let proof = build_proof(&leaves, k as u64).unwrap();
            assert!(verify_proof(&root, leaves[k], &proof));
        }
    }
}
