use tensor_vm::field::Elem;
use tensor_vm::tensor::{DType, Tensor};
use tensor_vm::types::hash_bytes;
use tensor_vm::vm::{
    add, commit_tensor, hash_tensor, linear_backward, matmul, mse_loss, mul, program_hash,
    random_tensor, reduce_sum, scalar_mul, sgd_update, sub, transpose, TensorOp,
};

#[test]
fn program_hash_is_canonical() {
    let seed = hash_bytes(b"test", &[b"seed"]);
    let ops = vec![
        TensorOp::RandomTensor {
            seed,
            shape: vec![2, 2],
            dtype: DType::FieldElement,
        },
        TensorOp::Matmul,
    ];
    assert_eq!(program_hash(&ops), program_hash(&ops));
    let mut changed = ops.clone();
    changed.push(TensorOp::CommitTensor);
    assert_ne!(program_hash(&ops), program_hash(&changed));
}

#[test]
fn program_hash_encodes_every_operation_variant() {
    let seed = hash_bytes(b"test", &[b"all-ops"]);
    let ops = vec![
        TensorOp::RandomTensor {
            seed,
            shape: vec![2, 3],
            dtype: DType::FieldElement,
        },
        TensorOp::Matmul,
        TensorOp::Transpose,
        TensorOp::Add,
        TensorOp::Sub,
        TensorOp::Mul,
        TensorOp::ReduceSum { axis: 1 },
        TensorOp::ScalarMul { scalar: 7 },
        TensorOp::CommitTensor,
        TensorOp::HashTensor,
        TensorOp::MseLoss,
        TensorOp::LinearBackward,
        TensorOp::SgdUpdate { lr: 3 },
    ];
    let base_hash = program_hash(&ops);
    assert_eq!(base_hash, program_hash(&ops));

    for index in 0..ops.len() {
        let mut changed = ops.clone();
        changed[index] = TensorOp::ScalarMul {
            scalar: (index as Elem) + 100,
        };
        assert_ne!(base_hash, program_hash(&changed));
    }
}

#[test]
fn vm_wrappers_match_tensor_operations_and_commitments() {
    let seed = hash_bytes(b"test", &[b"vm-wrappers"]);
    let generated = random_tensor(&seed, vec![2, 2], DType::FieldElement).unwrap();
    assert_eq!(
        generated,
        Tensor::random(&seed, vec![2, 2], DType::FieldElement).unwrap()
    );

    let a = Tensor::from_vec(vec![2, 2], DType::FieldElement, vec![1, 2, 3, 4]).unwrap();
    let b = Tensor::from_vec(vec![2, 2], DType::FieldElement, vec![5, 6, 7, 8]).unwrap();
    assert_eq!(
        matmul(&a, &b).unwrap(),
        Tensor::from_vec(vec![2, 2], DType::FieldElement, vec![19, 22, 43, 50]).unwrap()
    );
    assert_eq!(
        transpose(&a).unwrap(),
        Tensor::from_vec(vec![2, 2], DType::FieldElement, vec![1, 3, 2, 4]).unwrap()
    );
    assert_eq!(
        add(&a, &b).unwrap(),
        Tensor::from_vec(vec![2, 2], DType::FieldElement, vec![6, 8, 10, 12]).unwrap()
    );
    assert_eq!(
        sub(&b, &a).unwrap(),
        Tensor::from_vec(vec![2, 2], DType::FieldElement, vec![4, 4, 4, 4]).unwrap()
    );
    assert_eq!(
        mul(&a, &b).unwrap(),
        Tensor::from_vec(vec![2, 2], DType::FieldElement, vec![5, 12, 21, 32]).unwrap()
    );
    assert_eq!(
        reduce_sum(&a, 0).unwrap(),
        Tensor::from_vec(vec![2], DType::FieldElement, vec![4, 6]).unwrap()
    );
    assert_eq!(
        scalar_mul(&a, 3).unwrap(),
        Tensor::from_vec(vec![2, 2], DType::FieldElement, vec![3, 6, 9, 12]).unwrap()
    );
    assert_eq!(commit_tensor(&a), a.commitment_root());
    assert_eq!(hash_tensor(&a), a.hash_tensor());

    let target = Tensor::from_vec(vec![2, 2], DType::FieldElement, vec![1, 1, 1, 1]).unwrap();
    assert_eq!(
        mse_loss(&a, &target).unwrap(),
        mse_loss(&a, &target).unwrap()
    );
    assert!(mse_loss(
        &a,
        &Tensor::from_vec(vec![1], DType::FieldElement, vec![1]).unwrap()
    )
    .is_err());
}

#[test]
fn linear_backward_and_sgd_match_equations() {
    let x = Tensor::from_vec(vec![2, 2], DType::FieldElement, vec![1, 2, 3, 4]).unwrap();
    let dy = Tensor::from_vec(vec![2, 1], DType::FieldElement, vec![5, 6]).unwrap();
    let grad = linear_backward(&x, &dy).unwrap();
    assert_eq!(
        grad,
        Tensor::from_vec(vec![2, 1], DType::FieldElement, vec![23, 34]).unwrap()
    );
    let w = Tensor::from_vec(vec![2, 1], DType::FieldElement, vec![100, 100]).unwrap();
    let next = sgd_update(&w, &grad, 2).unwrap();
    assert_eq!(
        next,
        Tensor::from_vec(vec![2, 1], DType::FieldElement, vec![54, 32]).unwrap()
    );
}
