use tensor_vm::error::TvmError;
use tensor_vm::tensor::{DType, Tensor};
use tensor_vm::tensor_server::TensorServer;

#[test]
fn tensor_server_serves_rows_descriptors_and_openings() {
    let tensor = Tensor::from_vec(vec![2, 2], DType::FieldElement, vec![1, 2, 3, 4]).unwrap();
    let mut server = TensorServer::default();
    let id = server.insert(tensor);
    assert_eq!(server.len(), 1);
    assert_eq!(server.row(&id, 1).unwrap(), vec![3, 4]);
    let descriptor = server.descriptor(&id).unwrap();
    let opening = server.opening(&id, 0).unwrap();
    assert!(opening.verify(&descriptor));
    assert!(server.contains_commitment_root(&descriptor.commitment.root));
    assert_eq!(
        server
            .get_by_commitment_root(&descriptor.commitment.root)
            .unwrap()
            .tensor_id(),
        id
    );
}

#[test]
fn tensor_server_retains_through_deadline_and_prunes_afterward() {
    let tensor = Tensor::from_vec(vec![1, 2], DType::FieldElement, vec![7, 8]).unwrap();
    let mut server = TensorServer::default();
    let id = server.insert_with_retention(tensor, 10);
    assert_eq!(server.retention_deadline(&id), Some(10));
    assert_eq!(server.prune_expired(10), 0);
    assert!(server.get(&id).is_some());
    assert_eq!(server.prune_expired(11), 1);
    assert!(server.get(&id).is_none());
}

#[test]
fn tensor_server_extends_retention_only_forward() {
    let tensor = Tensor::from_vec(vec![1, 1], DType::FieldElement, vec![9]).unwrap();
    let mut server = TensorServer::default();
    let id = server.insert_with_retention(tensor, 5);
    server.extend_retention(&id, 3).unwrap();
    assert_eq!(server.retention_deadline(&id), Some(5));
    server.extend_retention(&id, 8).unwrap();
    assert_eq!(server.retention_deadline(&id), Some(8));
}

#[test]
fn tensor_server_reports_missing_tensors() {
    let missing = tensor_vm::types::hash_bytes(b"test", &[b"missing-tensor"]);
    let mut server = TensorServer::default();
    assert!(server.is_empty());
    assert_eq!(
        server.descriptor(&missing),
        Err(TvmError::InvalidReceipt("tensor not found"))
    );
    assert_eq!(
        server.opening(&missing, 0),
        Err(TvmError::InvalidReceipt("tensor not found"))
    );
    assert_eq!(
        server.row(&missing, 0),
        Err(TvmError::InvalidReceipt("tensor not found"))
    );
    assert_eq!(
        server.extend_retention(&missing, 1),
        Err(TvmError::InvalidReceipt("tensor not found"))
    );
    assert_eq!(server.prune_expired(1), 0);
}

#[test]
fn tensor_server_replaces_same_tensor_and_prunes_selectively() {
    let mut server = TensorServer::default();
    let a = Tensor::from_vec(vec![1], DType::FieldElement, vec![1]).unwrap();
    let b = Tensor::from_vec(vec![1], DType::FieldElement, vec![2]).unwrap();
    let c = Tensor::from_vec(vec![1], DType::FieldElement, vec![3]).unwrap();
    let id_a = server.insert_with_retention(a.clone(), 3);
    let id_b = server.insert_with_retention(b, 7);
    let id_c = server.insert_with_retention(c, 1);
    assert_eq!(server.len(), 3);
    assert_eq!(server.insert_with_retention(a, 9), id_a);
    assert_eq!(server.len(), 3);
    assert_eq!(server.retention_deadline(&id_a), Some(9));
    assert_eq!(server.prune_expired(5), 1);
    assert!(server.get(&id_c).is_none());
    assert!(server.get(&id_b).is_some());
    assert_eq!(server.prune_expired(8), 1);
    assert_eq!(server.len(), 1);
    assert!(server.get(&id_a).is_some());
}
