use tensor_vm::error::TvmError;
use tensor_vm::field::MODULUS;
use tensor_vm::tensor::{DType, Tensor, DEFAULT_CHUNK_SIZE};
use tensor_vm::types::hash_bytes;

fn t(shape: Vec<usize>, data: Vec<u64>) -> Tensor {
    Tensor::from_vec(shape, DType::FieldElement, data).unwrap()
}

#[test]
fn from_vec_rejects_mismatched_shapes_and_values_outside_the_field() {
    assert_eq!(
        Tensor::from_vec(vec![2, 2], DType::FieldElement, vec![1, 2, 3]),
        Err(TvmError::InvalidReceipt("tensor data does not match shape"))
    );
    assert_eq!(
        Tensor::from_vec(vec![usize::MAX, 2], DType::FieldElement, vec![]),
        Err(TvmError::InvalidReceipt("tensor data does not match shape"))
    );
    assert_eq!(
        Tensor::from_vec(vec![1], DType::FieldElement, vec![MODULUS]),
        Err(TvmError::InvalidReceipt("tensor value outside field"))
    );
    let zero = t(vec![usize::MAX, 0], vec![]);
    assert_eq!(zero.len(), 0);
    let scalar = t(vec![], vec![5]);
    assert_eq!(scalar.len(), 1);
}

#[test]
fn field_arithmetic_wraps_at_the_modulus() {
    let a = t(vec![2], vec![MODULUS - 1, 0]);
    let b = t(vec![2], vec![2, 1]);
    assert_eq!(a.add(&b).unwrap().as_slice(), &[1, 1]);
    assert_eq!(b.sub(&a).unwrap().as_slice(), &[3, 1]);
    assert_eq!(a.sub(&b).unwrap().as_slice(), &[MODULUS - 3, MODULUS - 1]);
    assert_eq!(a.mul(&a).unwrap().as_slice(), &[1, 0]);
    assert_eq!(a.scalar_mul(MODULUS), Err(TvmError::InvalidReceipt("scalar outside field")));
    assert_eq!(
        a.add(&t(vec![1, 2], vec![1, 1])),
        Err(TvmError::DimensionMismatch { left: vec![2], right: vec![1, 2] })
    );
}

#[test]
fn matrix_operations_check_ranks_and_shapes() {
    let a = t(vec![2, 3], vec![1, 2, 3, 4, 5, 6]);
    let b = t(vec![3, 1], vec![1, 1, 1]);
    assert_eq!(a.matmul(&b).unwrap().as_slice(), &[6, 15]);
    assert_eq!(a.matmul(&b).unwrap().shape(), &[2, 1]);
    assert_eq!(a.transpose().unwrap().as_slice(), &[1, 4, 2, 5, 3, 6]);
    assert_eq!(a.reduce_sum(1).unwrap().as_slice(), &[6, 15]);
    assert_eq!(a.reduce_sum(0).unwrap().as_slice(), &[5, 7, 9]);
    assert_eq!(a.reduce_sum(2), Err(TvmError::InvalidReceipt("reduce axis out of range")));
    assert_eq!(
        a.matmul(&a),
        Err(TvmError::DimensionMismatch { left: vec![2, 3], right: vec![2, 3] })
    );
    let v = t(vec![3], vec![1, 2, 3]);
    assert_eq!(v.transpose(), Err(TvmError::UnsupportedRank { rank: 1 }));
    assert_eq!(a.matmul(&v), Err(TvmError::UnsupportedRank { rank: 1 }));
    assert_eq!(a.row(1).unwrap(), &[4, 5, 6]);
    assert_eq!(a.row(2), Err(TvmError::InvalidReceipt("tensor row out of range")));
    assert_eq!(a.rows(), Ok(2));
    assert_eq!(a.cols(), Ok(3));
    assert_eq!(a.squared_error_sum(&t(vec![2, 3], vec![1, 2, 3, 4, 5, 8])), Ok(4));
}

#[test]
fn openings_verify_against_descriptors() {
    let values: Vec<u64> = (0..2500).collect();
    let big = t(vec![50, 50], values);
    let descriptor = big.descriptor();
    assert_eq!(descriptor.commitment.leaf_count, 3);
    assert_eq!(descriptor.commitment.chunk_size, DEFAULT_CHUNK_SIZE);
    assert_eq!(descriptor.commitment.root, big.commitment_root());
    assert_eq!(descriptor.tensor_id, big.tensor_id());
    for chunk in 0..3 {
        let opening = big.opening(chunk, DEFAULT_CHUNK_SIZE).unwrap();
        assert!(opening.verify(&descriptor));
        let mut tampered = opening.clone();
        tampered.chunk[0] ^= 1;
        assert!(!tampered.verify(&descriptor));
    }
    assert_eq!(big.opening(3, DEFAULT_CHUNK_SIZE), Err(TvmError::InvalidChunk { chunk_index: 3 }));
    assert_eq!(
        big.opening(0, 0),
        Err(TvmError::InvalidReceipt("chunk size must be positive"))
    );
    assert_eq!(big.opening(0, 2000).unwrap().chunk.len(), 2000 * 8);
}

#[test]
fn random_tensors_are_deterministic_and_in_the_field() {
    let seed = hash_bytes(b"test", &[b"random"]);
    let other = hash_bytes(b"test", &[b"random-other"]);
    let a = Tensor::random(&seed, vec![3, 4], DType::FieldElement).unwrap();
    assert_eq!(a, Tensor::random(&seed, vec![3, 4], DType::FieldElement).unwrap());
    assert_ne!(a, Tensor::random(&other, vec![3, 4], DType::FieldElement).unwrap());
    assert!(a.as_slice().iter().all(|v| *v < MODULUS));
    assert_eq!(
        Tensor::random(&seed, vec![usize::MAX, 2], DType::FieldElement),
        Err(TvmError::InvalidReceipt("tensor too large"))
    );
    assert_ne!(a.tensor_id(), a.hash_tensor());
}
