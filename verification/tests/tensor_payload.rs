use tensor_vm::error::TvmError;
use tensor_vm::field::MODULUS;
use tensor_vm::tensor::{DType, Tensor};
use tensor_vm::wire::{decode_tensor_payload, encode_tensor_payload};

fn u64_le(v: u64) -> Vec<u8> {
    v.to_le_bytes().to_vec()
}

fn payload(shape: &[u64], tag: u8, values: &[u64]) -> Vec<u8> {
    let mut out = u64_le(shape.len() as u64);
    for d in shape {
        out.extend(u64_le(*d));
    }
    out.push(tag);
    out.extend(u64_le(values.len() as u64));
    for v in values {
        out.extend(u64_le(*v));
    }
    out
}

#[test]
fn tensor_payload_round_trips() {
    let t = Tensor::from_vec(vec![2, 3], DType::FieldElement, vec![1, 2, 3, 4, 5, 6]).unwrap();
    let bytes = encode_tensor_payload(&t);
    assert_eq!(bytes, payload(&[2, 3], 1, &[1, 2, 3, 4, 5, 6]));
    let back = decode_tensor_payload(&bytes).unwrap();
    assert_eq!(back, t);
    let scalar = Tensor::from_vec(vec![], DType::FieldElement, vec![7]).unwrap();
    assert_eq!(decode_tensor_payload(&encode_tensor_payload(&scalar)).unwrap(), scalar);
}

#[test]
fn tensor_payload_reports_each_error() {
    let err = |bytes: Vec<u8>| decode_tensor_payload(&bytes).unwrap_err();
    assert_eq!(err(vec![]), TvmError::InvalidReceipt("short p2p message"));
    assert_eq!(err(payload(&[1; 17], 1, &[])), TvmError::InvalidReceipt("shape vector too large"));
    assert_eq!(err(payload(&[1], 2, &[0])), TvmError::InvalidReceipt("unknown dtype tag"));
    let mut too_many = payload(&[1], 1, &[]);
    too_many.truncate(too_many.len() - 8);
    too_many.extend(u64_le(1_000_001));
    assert_eq!(err(too_many), TvmError::InvalidReceipt("tensor payload too large"));
    let mut short_values = payload(&[2], 1, &[1, 2]);
    short_values.pop();
    assert_eq!(err(short_values), TvmError::InvalidReceipt("short p2p message"));
    let mut trailing = payload(&[1], 1, &[1]);
    trailing.push(0);
    assert_eq!(err(trailing), TvmError::InvalidReceipt("trailing tensor payload bytes"));
    assert_eq!(err(payload(&[2], 1, &[1])), TvmError::InvalidReceipt("tensor data does not match shape"));
    assert_eq!(err(payload(&[1], 1, &[MODULUS])), TvmError::InvalidReceipt("tensor value outside field"));
}
