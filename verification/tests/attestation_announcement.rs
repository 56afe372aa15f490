use tensor_vm::node::payload_application::{attestation_announcement_hash, ValidatorAttestation};
use tensor_vm::types::hash_bytes;

#[test]
fn attestation_announcement_hash_covers_every_field() {
    let attestation = ValidatorAttestation {
        validator: [1; 32],
        receipt_id: [2; 32],
        job_id: [3; 32],
        checks_root: [4; 32],
        signature: [5; 32],
    };
    let expected = hash_bytes(
        b"tensor-vm-attestation-announcement-v1",
        &[&[1; 32], &[2; 32], &[3; 32], &[4; 32], &[5; 32]],
    );
    assert_eq!(attestation_announcement_hash(&attestation), expected);
    let mut other = attestation;
    other.checks_root = [9; 32];
    assert_ne!(attestation_announcement_hash(&other), expected);
}
