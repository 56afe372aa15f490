use vstd::prelude::*;
use vstd::bytes::spec_u64_to_le_bytes;
use vstd::string::StringSliceAdditionalSpecFns;
use crate::error::{Result, TvmError};
use crate::field::{Elem, MODULUS};
use crate::merkle::spec_merkle_root;
use crate::tensor::{
    DType, Tensor, DEFAULT_CHUNK_SIZE, dims_bytes, field_sum, matmul_outcome, random_outcome, reduce_sum_outcome,
    scalar_mul_outcome, spec_hash_tensor, spec_tensor_id, squared_error_term, sub_outcome, tensor_leaves,
    transpose_outcome, add_outcome, mul_outcome, unsupported_rank,
};
use crate::types::{Hash32, hash_bytes, spec_hash_bytes, slices_view, u64_bytes};

verus! {

/// One operation of a tensor program.
#[derive(Clone, Debug, PartialEq, Eq)]
pub enum TensorOp {
    RandomTensor { seed: Hash32, shape: Vec<usize>, dtype: DType },
    Matmul,
    Transpose,
    Add,
    Sub,
    Mul,
    ReduceSum { axis: usize },
    ScalarMul { scalar: Elem },
    CommitTensor,
    HashTensor,
    MseLoss,
    LinearBackward,
    SgdUpdate { lr: Elem },
}

/// The bytes that encode one operation: a tag, then its arguments.
pub open spec fn spec_encode_op(op: TensorOp) -> Seq<u8> {
    match op {
        TensorOp::RandomTensor { seed, shape, dtype } => seq![1u8] + seed@ + seq![dtype.spec_tag()]
            + spec_u64_to_le_bytes(shape@.len() as u64) + dims_bytes(shape@),
        TensorOp::Matmul => seq![2u8],
        TensorOp::Transpose => seq![3u8],
        TensorOp::Add => seq![4u8],
        TensorOp::Sub => seq![5u8],
        TensorOp::Mul => seq![6u8],
        TensorOp::ReduceSum { axis } => seq![7u8] + spec_u64_to_le_bytes(axis as u64),
        TensorOp::ScalarMul { scalar } => seq![8u8] + spec_u64_to_le_bytes(scalar),
        TensorOp::CommitTensor => seq![9u8],
        TensorOp::HashTensor => seq![10u8],
        TensorOp::MseLoss => seq![11u8],
        TensorOp::LinearBackward => seq![12u8],
        TensorOp::SgdUpdate { lr } => seq![13u8] + spec_u64_to_le_bytes(lr),
    }
}

/// The encodings of a list of operations, concatenated.
pub open spec fn ops_bytes(ops: Seq<TensorOp>) -> Seq<u8>
    decreases ops.len(),
{
    if ops.len() == 0 {
        Seq::empty()
    } else {
        ops_bytes(ops.drop_last()) + spec_encode_op(ops.last())
    }
}

/// The hash that names a program: its length and its operations' encodings.
pub open spec fn spec_program_hash(ops: Seq<TensorOp>) -> Seq<u8> {
    spec_hash_bytes(
        "tensor-vm-program-v1".spec_bytes(),
        seq![spec_u64_to_le_bytes(ops.len() as u64) + ops_bytes(ops)],
    )
}

fn push_slice(out: &mut Vec<u8>, bytes: &[u8])
    ensures
        final(out)@ == old(out)@ + bytes@,
{
    let mut i: usize = 0;
    while i < bytes.len()
        invariant
            i <= bytes@.len(),
            out@ == old(out)@ + bytes@.subrange(0, i as int),
        decreases bytes@.len() - i,
    {
        out.push(bytes[i]);
        assert(out@ =~= old(out)@ + bytes@.subrange(0, i + 1));
        i += 1;
    }
    assert(bytes@.subrange(0, bytes@.len() as int) =~= bytes@);
}

fn push_dims(out: &mut Vec<u8>, shape: &[usize])
    ensures
        final(out)@ == old(out)@ + dims_bytes(shape@),
{
    let bytes = crate::tensor::dims_bytes_of(shape);
    push_slice(out, bytes.as_slice());
}

fn encode_op(op: &TensorOp, out: &mut Vec<u8>)
    ensures
        final(out)@ == old(out)@ + spec_encode_op(*op),
{
    match op {
        TensorOp::RandomTensor { seed, shape, dtype } => {
            out.push(1);
            push_slice(out, seed.as_slice());
            out.push(dtype.tag());
            let len = u64_bytes(shape.len() as u64);
            push_slice(out, len.as_slice());
            push_dims(out, shape.as_slice());
            assert(out@ =~= old(out)@ + spec_encode_op(*op));
        },
        TensorOp::Matmul => {
            out.push(2);
        },
        TensorOp::Transpose => {
            out.push(3);
        },
        TensorOp::Add => {
            out.push(4);
        },
        TensorOp::Sub => {
            out.push(5);
        },
        TensorOp::Mul => {
            out.push(6);
        },
        TensorOp::ReduceSum { axis } => {
            out.push(7);
            let bytes = u64_bytes(*axis as u64);
            push_slice(out, bytes.as_slice());
            assert(out@ =~= old(out)@ + spec_encode_op(*op));
        },
        TensorOp::ScalarMul { scalar } => {
            out.push(8);
            let bytes = u64_bytes(*scalar);
            push_slice(out, bytes.as_slice());
            assert(out@ =~= old(out)@ + spec_encode_op(*op));
        },
        TensorOp::CommitTensor => {
            out.push(9);
        },
        TensorOp::HashTensor => {
            out.push(10);
        },
        TensorOp::MseLoss => {
            out.push(11);
        },
        TensorOp::LinearBackward => {
            out.push(12);
        },
        TensorOp::SgdUpdate { lr } => {
            out.push(13);
            let bytes = u64_bytes(*lr);
            push_slice(out, bytes.as_slice());
            assert(out@ =~= old(out)@ + spec_encode_op(*op));
        },
    }
}

/// The hash that names a program.
pub fn program_hash(ops: &[TensorOp]) -> (out: Hash32)
    ensures
        out@ == spec_program_hash(ops@),
{
    let mut encoded: Vec<u8> = Vec::new();
    let len = u64_bytes(ops.len() as u64);
    push_slice(&mut encoded, len.as_slice());
    let mut i: usize = 0;
    while i < ops.len()
        invariant
            i <= ops@.len(),
            len@ == spec_u64_to_le_bytes(ops@.len() as u64),
            encoded@ == len@ + ops_bytes(ops@.subrange(0, i as int)),
        decreases ops@.len() - i,
    {
        encode_op(&ops[i], &mut encoded);
        proof {
            let s = ops@.subrange(0, i + 1);
            assert(s.drop_last() =~= ops@.subrange(0, i as int));
            assert(encoded@ =~= len@ + ops_bytes(s));
        }
        i += 1;
    }
    assert(ops@.subrange(0, ops@.len() as int) =~= ops@);
    let parts: Vec<&[u8]> = vec![encoded.as_slice()];
    assert(slices_view(parts@) =~= seq![encoded@]);
    hash_bytes("tensor-vm-program-v1".as_bytes(), parts.as_slice())
}

pub fn random_tensor(seed: &Hash32, shape: Vec<usize>, dtype: DType) -> (out: Result<Tensor>)
    ensures
        random_outcome(seed@, shape@, dtype, out),
{
    Tensor::random(seed, shape, dtype)
}

pub fn matmul(a: &Tensor, b: &Tensor) -> (out: Result<Tensor>)
    ensures
        matmul_outcome(*a, *b, out),
{
    a.matmul(b)
}

pub fn transpose(a: &Tensor) -> (out: Result<Tensor>)
    ensures
        transpose_outcome(*a, out),
{
    a.transpose()
}

pub fn add(a: &Tensor, b: &Tensor) -> (out: Result<Tensor>)
    ensures
        add_outcome(*a, *b, out),
{
    a.add(b)
}

pub fn sub(a: &Tensor, b: &Tensor) -> (out: Result<Tensor>)
    ensures
        sub_outcome(*a, *b, out),
{
    a.sub(b)
}

pub fn mul(a: &Tensor, b: &Tensor) -> (out: Result<Tensor>)
    ensures
        mul_outcome(*a, *b, out),
{
    a.mul(b)
}

pub fn reduce_sum(a: &Tensor, axis: usize) -> (out: Result<Tensor>)
    ensures
        reduce_sum_outcome(*a, axis, out),
{
    a.reduce_sum(axis)
}

pub fn scalar_mul(a: &Tensor, scalar: Elem) -> (out: Result<Tensor>)
    ensures
        scalar_mul_outcome(*a, scalar, out),
{
    a.scalar_mul(scalar)
}

/// The commitment root of a tensor.
pub fn commit_tensor(a: &Tensor) -> (out: Hash32)
    ensures
        out@ == spec_merkle_root(tensor_leaves(
            spec_tensor_id(a.shape_view(), a.dtype_view(), a.values()),
            a.values(),
            DEFAULT_CHUNK_SIZE as int,
        )),
{
    a.commitment_root()
}

/// The content hash of a tensor.
pub fn hash_tensor(a: &Tensor) -> (out: Hash32)
    ensures
        out@ == spec_hash_tensor(a.shape_view(), a.dtype_view(), a.values()),
{
    a.hash_tensor()
}

/// The commitment to a loss: the hash of the squared-error sum and the
/// number of values.
pub open spec fn spec_mse_commitment(sum: u64, len: nat) -> Seq<u8> {
    spec_hash_bytes(
        "tensor-vm-mse-loss-v1".spec_bytes(),
        seq![spec_u64_to_le_bytes(sum), spec_u64_to_le_bytes(len as u64)],
    )
}

/// A commitment to the squared error of `y` against `target`, of the same
/// shape.
pub fn mse_loss(y: &Tensor, target: &Tensor) -> (out: Result<Hash32>)
    ensures
        y.shape_view() == target.shape_view() ==> (out matches Ok(h) && h@ == spec_mse_commitment(
            field_sum(y.values().len() as int, squared_error_term(y.values(), target.values())) as u64,
            y.values().len(),
        )),
        y.shape_view() != target.shape_view() ==> crate::tensor::dimension_mismatch(out, y.shape_view(), target.shape_view()),
{
    let sum = match y.squared_error_sum(target) {
        Ok(s) => s,
        Err(e) => return Err(e),
    };
    let sum_bytes = u64_bytes(sum);
    let len_bytes = u64_bytes(y.len() as u64);
    let parts: Vec<&[u8]> = vec![sum_bytes.as_slice(), len_bytes.as_slice()];
    assert(slices_view(parts@) =~= seq![sum_bytes@, len_bytes@]);
    Ok(hash_bytes("tensor-vm-mse-loss-v1".as_bytes(), parts.as_slice()))
}

/// The weight gradient of a linear layer: `x` transposed times `dy`.
pub fn linear_backward(x: &Tensor, dy: &Tensor) -> (out: Result<Tensor>)
    ensures
        !x.is_matrix() ==> unsupported_rank(out, x.shape_view().len()),
        x.is_matrix() ==> exists|t: Tensor| transpose_outcome(*x, Ok(t)) && matmul_outcome(t, *dy, out),
{
    let t = match x.transpose() {
        Ok(t) => t,
        Err(e) => return Err(e),
    };
    let out = t.matmul(dy);
    assert(transpose_outcome(*x, Ok(t)) && matmul_outcome(t, *dy, out));
    out
}

/// One step of gradient descent: `w - lr * grad`.
pub fn sgd_update(w: &Tensor, grad: &Tensor, lr: Elem) -> (out: Result<Tensor>)
    ensures
        lr >= MODULUS ==> out == Err::<Tensor, TvmError>(TvmError::InvalidReceipt("scalar outside field")),
        lr < MODULUS ==> exists|g: Tensor| scalar_mul_outcome(*grad, lr, Ok(g)) && sub_outcome(*w, g, out),
{
    let g = match grad.scalar_mul(lr) {
        Ok(g) => g,
        Err(e) => return Err(e),
    };
    let out = w.sub(&g);
    assert(scalar_mul_outcome(*grad, lr, Ok(g)) && sub_outcome(*w, g, out));
    out
}

} // verus!
