use vstd::prelude::*;
use crate::error::{Result, TvmError};
use vstd::bytes::spec_u64_to_le_bytes;
use vstd::string::StringSliceAdditionalSpecFns;
use crate::types::{Hash32, hash_bytes, spec_hash_bytes, slices_view, u64_bytes, hash_to_u128};
use vstd::bytes::spec_u128_from_le_bytes;
use crate::merkle::{MerkleCommitment, MerkleProof, hashes_view, leaf_hash, merkle_root, build_proof, verify_proof,
    spec_leaf_hash, spec_merkle_root, spec_verify_proof, proof_path, lemma_merkle_proof_verifies};
use crate::field::{Elem, MODULUS, add_mod, sub_mod, mul_mod};
use vstd::arithmetic::div_mod::{lemma_fundamental_div_mod_converse, lemma_add_mod_noop, lemma_mul_mod_noop};

verus! {

/// The element type of a tensor.
#[derive(Clone, Copy, Debug, PartialEq, Eq, Structural)]
pub enum DType {
    FieldElement,
}

impl DType {
    /// The byte that names the element type in encodings.
    pub open spec fn spec_tag(self) -> u8 {
        1
    }

    pub fn tag(self) -> (out: u8)
        ensures
            out == self.spec_tag(),
    {
        1
    }
}

/// The product of the dimensions; one for a scalar.
pub open spec fn shape_product(shape: Seq<usize>) -> nat
    decreases shape.len(),
{
    if shape.len() == 0 {
        1
    } else {
        shape_product(shape.drop_last()) * shape.last() as nat
    }
}

/// Whether every value is a field element.
pub open spec fn all_in_field(values: Seq<u64>) -> bool {
    forall|i: int| 0 <= i < values.len() ==> #[trigger] values[i] < MODULUS
}

/// The product of the dimensions, or `None` where it exceeds `usize::MAX`.
fn checked_shape_product(shape: &[usize]) -> (out: Option<usize>)
    ensures
        match out {
            Some(n) => n as nat == shape_product(shape@),
            None => shape_product(shape@) > usize::MAX,
        },
{
    let mut k: usize = 0;
    while k < shape.len()
        invariant
            k <= shape@.len(),
            forall|j: int| 0 <= j < k ==> shape@[j] != 0,
        decreases shape@.len() - k,
    {
        if shape[k] == 0 {
            proof {
                lemma_zero_dimension(shape@, k as int);
            }
            return Some(0);
        }
        k += 1;
    }
    let mut product: usize = 1;
    let mut i: usize = 0;
    while i < shape.len()
        invariant
            i <= shape@.len(),
            forall|j: int| 0 <= j < shape@.len() ==> shape@[j] != 0,
            product as nat == shape_product(shape@.subrange(0, i as int)),
        decreases shape@.len() - i,
    {
        proof {
            assert(shape@.subrange(0, i + 1).drop_last() =~= shape@.subrange(0, i as int));
        }
        match product.checked_mul(shape[i]) {
            Some(p) => product = p,
            None => {
                proof {
                    lemma_shape_product_prefix_grows(shape@, i + 1);
                }
                return None;
            },
        }
        i += 1;
    }
    assert(shape@.subrange(0, shape@.len() as int) =~= shape@);
    Some(product)
}

proof fn lemma_shape_product_prefix_grows(shape: Seq<usize>, i: int)
    requires
        0 <= i <= shape.len(),
        forall|j: int| 0 <= j < shape.len() ==> shape[j] != 0,
        shape_product(shape.subrange(0, i)) > usize::MAX,
    ensures
        shape_product(shape) > usize::MAX,
    decreases shape.len() - i,
{
    if i < shape.len() {
        let next = shape.subrange(0, i + 1);
        assert(next.drop_last() =~= shape.subrange(0, i));
        assert(shape_product(next) >= shape_product(shape.subrange(0, i))) by (nonlinear_arith)
            requires
                shape_product(next) == shape_product(shape.subrange(0, i)) * shape[i] as nat,
                shape[i] >= 1,
        ;
        lemma_shape_product_prefix_grows(shape, i + 1);
    } else {
        assert(shape.subrange(0, i) =~= shape);
    }
}

proof fn lemma_zero_dimension(shape: Seq<usize>, i: int)
    requires
        0 <= i < shape.len(),
        shape[i] == 0,
    ensures
        shape_product(shape) == 0,
    decreases shape.len(),
{
    if i < shape.len() - 1 {
        assert(shape.drop_last()[i] == 0);
        lemma_zero_dimension(shape.drop_last(), i);
        assert(shape_product(shape) == shape_product(shape.drop_last()) * shape.last() as nat);
    } else {
        assert(shape.last() == 0);
        assert(shape_product(shape) == shape_product(shape.drop_last()) * 0);
    }
}

/// A copy of a list of dimensions.
pub fn copy_dims(dims: &[usize]) -> (out: Vec<usize>)
    ensures
        out@ == dims@,
{
    let mut out: Vec<usize> = Vec::new();
    let mut i: usize = 0;
    while i < dims.len()
        invariant
            i <= dims@.len(),
            out@ == dims@.subrange(0, i as int),
        decreases dims@.len() - i,
    {
        out.push(dims[i]);
        assert(out@ =~= dims@.subrange(0, i + 1));
        i += 1;
    }
    assert(dims@.subrange(0, dims@.len() as int) =~= dims@);
    out
}

/// A copy of a list of field values.
pub fn copy_values(values: &[u64]) -> (out: Vec<u64>)
    ensures
        out@ == values@,
{
    let mut out: Vec<u64> = Vec::new();
    let mut i: usize = 0;
    while i < values.len()
        invariant
            i <= values@.len(),
            out@ == values@.subrange(0, i as int),
        decreases values@.len() - i,
    {
        out.push(values[i]);
        assert(out@ =~= values@.subrange(0, i + 1));
        i += 1;
    }
    assert(values@.subrange(0, values@.len() as int) =~= values@);
    out
}

/// A tensor of field elements: a shape and its values in row-major order.
#[derive(Debug, PartialEq, Eq)]
pub struct Tensor {
    shape: Vec<usize>,
    dtype: DType,
    data: Vec<Elem>,
}

/// Whether `r` is the dimension-mismatch error for shapes `left` and `right`.
pub open spec fn dimension_mismatch<T>(r: Result<T>, left: Seq<usize>, right: Seq<usize>) -> bool {
    match r {
        Err(TvmError::DimensionMismatch { left: l, right: r }) => l@ == left && r@ == right,
        _ => false,
    }
}

/// The element-wise combination of two value sequences of equal length.
pub open spec fn zip_mod(a: Seq<u64>, b: Seq<u64>, op: spec_fn(int, int) -> int) -> Seq<u64> {
    Seq::new(a.len(), |i: int| (op(a[i] as int, b[i] as int) % (MODULUS as int)) as u64)
}

impl Tensor {
    #[verifier::type_invariant]
    spec fn well_formed(self) -> bool {
        &&& shape_product(self.shape@) == self.data@.len()
        &&& all_in_field(self.data@)
    }

    /// The dimensions.
    pub closed spec fn shape_view(&self) -> Seq<usize> {
        self.shape@
    }

    /// The values in row-major order.
    pub closed spec fn values(&self) -> Seq<u64> {
        self.data@
    }

    pub closed spec fn dtype_view(&self) -> DType {
        self.dtype
    }

    /// A tensor of `shape` holding `data`; refused where the data does not
    /// fill the shape or holds a value outside the field.
    pub fn from_vec(shape: Vec<usize>, dtype: DType, data: Vec<Elem>) -> (out: Result<Tensor>)
        ensures
            shape_product(shape@) != data@.len() ==> out == Err::<Tensor, TvmError>(
                TvmError::InvalidReceipt("tensor data does not match shape"),
            ),
            shape_product(shape@) == data@.len() && !all_in_field(data@) ==> out == Err::<Tensor, TvmError>(
                TvmError::InvalidReceipt("tensor value outside field"),
            ),
            shape_product(shape@) == data@.len() && all_in_field(data@) ==> (out matches Ok(t)
                && t.shape_view() == shape@ && t.dtype_view() == dtype && t.values() == data@),
    {
        let len = data.len();
        match checked_shape_product(shape.as_slice()) {
            Some(n) => {
                if n != len {
                    return Err(TvmError::InvalidReceipt("tensor data does not match shape"));
                }
            },
            None => {
                return Err(TvmError::InvalidReceipt("tensor data does not match shape"));
            },
        }
        assert(shape_product(shape@) == data@.len());
        let mut i: usize = 0;
        while i < data.len()
            invariant
                i <= data@.len(),
                shape_product(shape@) == data@.len(),
                forall|j: int| 0 <= j < i ==> data@[j] < MODULUS,
            decreases data@.len() - i,
        {
            if data[i] >= MODULUS {
                return Err(TvmError::InvalidReceipt("tensor value outside field"));
            }
            i += 1;
        }
        Ok(Tensor { shape, dtype, data })
    }

    pub fn shape(&self) -> (out: &[usize])
        ensures
            out@ == self.shape_view(),
    {
        self.shape.as_slice()
    }

    pub fn dtype(&self) -> (out: DType)
        ensures
            out == self.dtype_view(),
    {
        self.dtype
    }

    /// The values; they fill the shape and lie in the field.
    pub fn as_slice(&self) -> (out: &[Elem])
        ensures
            out@ == self.values(),
            shape_product(self.shape_view()) == out@.len(),
            all_in_field(out@),
    {
        proof {
            use_type_invariant(self);
        }
        self.data.as_slice()
    }

    pub fn len(&self) -> (out: usize)
        ensures
            out == self.values().len(),
    {
        self.data.len()
    }

    fn same_shape(&self, other: &Tensor) -> (out: bool)
        ensures
            out == (self.shape_view() == other.shape_view()),
    {
        if self.shape.len() != other.shape.len() {
            return false;
        }
        let mut i: usize = 0;
        while i < self.shape.len()
            invariant
                i <= self.shape@.len(),
                self.shape@.len() == other.shape@.len(),
                forall|j: int| 0 <= j < i ==> self.shape@[j] == other.shape@[j],
            decreases self.shape@.len() - i,
        {
            if self.shape[i] != other.shape[i] {
                return false;
            }
            i += 1;
        }
        assert(self.shape@ =~= other.shape@);
        true
    }

    fn mismatch(&self, other: &Tensor) -> (out: TvmError)
        ensures
            dimension_mismatch(Err::<(), TvmError>(out), self.shape_view(), other.shape_view()),
    {
        let left = copy_dims(self.shape.as_slice());
        let right = copy_dims(other.shape.as_slice());
        TvmError::DimensionMismatch { left, right }
    }

    /// Element-wise sum.
    pub fn add(&self, other: &Tensor) -> (out: Result<Tensor>)
        ensures
            add_outcome(*self, *other, out),
    {
        self.zip_with(other, 0)
    }

    /// Element-wise difference.
    pub fn sub(&self, other: &Tensor) -> (out: Result<Tensor>)
        ensures
            sub_outcome(*self, *other, out),
    {
        self.zip_with(other, 1)
    }

    /// Element-wise product.
    pub fn mul(&self, other: &Tensor) -> (out: Result<Tensor>)
        ensures
            mul_outcome(*self, *other, out),
    {
        self.zip_with(other, 2)
    }

    fn zip_with(&self, other: &Tensor, op: u8) -> (out: Result<Tensor>)
        requires
            op <= 2,
        ensures
            self.shape_view() == other.shape_view() ==> (out matches Ok(t) && t.shape_view() == self.shape_view()
                && t.dtype_view() == self.dtype_view()
                && t.values() == zip_mod(self.values(), other.values(), op_fn(op))),
            self.shape_view() != other.shape_view() ==> dimension_mismatch(out, self.shape_view(), other.shape_view()),
    {
        proof {
            use_type_invariant(self);
            use_type_invariant(other);
        }
        if !self.same_shape(other) {
            return Err(self.mismatch(other));
        }
        let n = self.data.len();
        let mut out: Vec<Elem> = Vec::new();
        let mut i: usize = 0;
        while i < n
            invariant
                n == self.data@.len(),
                n == other.data@.len(),
                all_in_field(self.data@),
                all_in_field(other.data@),
                op <= 2,
                i <= n,
                out@ == zip_mod(self.data@, other.data@, op_fn(op)).subrange(0, i as int),
            decreases n - i,
        {
            let a = self.data[i];
            let b = other.data[i];
            let v = if op == 0 { add_mod(a, b) } else if op == 1 { sub_mod(a, b) } else { mul_mod(a, b) };
            out.push(v);
            assert(out@ =~= zip_mod(self.data@, other.data@, op_fn(op)).subrange(0, i + 1));
            i += 1;
        }
        assert(zip_mod(self.data@, other.data@, op_fn(op)).subrange(0, n as int) =~= zip_mod(self.data@, other.data@, op_fn(op)));
        proof {
            assert forall|j: int| 0 <= j < out@.len() implies #[trigger] out@[j] < MODULUS by {}
        }
        Ok(Tensor { shape: copy_dims(self.shape.as_slice()), dtype: self.dtype, data: out })
    }
}

impl Clone for Tensor {
    fn clone(&self) -> (out: Self)
        ensures
            out.shape_view() == self.shape_view(),
            out.dtype_view() == self.dtype_view(),
            out.values() == self.values(),
    {
        proof {
            use_type_invariant(self);
        }
        Tensor {
            shape: copy_dims(self.shape.as_slice()),
            dtype: self.dtype,
            data: copy_values(self.data.as_slice()),
        }
    }
}

/// The integer operation a `zip_with` code names.
pub open spec fn op_fn(op: u8) -> spec_fn(int, int) -> int {
    if op == 0 {
        |x: int, y: int| x + y
    } else if op == 1 {
        |x: int, y: int| x - y
    } else {
        |x: int, y: int| x * y
    }
}

/// Position `(i, j)` of a row-major `m`-by-`n` grid lies inside it, and its
/// index gives the position back.
pub proof fn lemma_grid_index(i: int, j: int, m: int, n: int)
    requires
        0 <= i < m,
        0 <= j < n,
    ensures
        0 <= i * n + j < m * n,
        (i * n + j) / n == i,
        (i * n + j) % n == j,
{
    assert(0 <= i * n + j < m * n) by (nonlinear_arith)
        requires
            0 <= i < m,
            0 <= j < n,
    ;
    lemma_fundamental_div_mod_converse(i * n + j, n, i, j);
}

/// A matrix shape holds rows times columns values.
pub proof fn lemma_matrix_product(shape: Seq<usize>)
    requires
        shape.len() == 2,
    ensures
        shape_product(shape) == shape[0] * shape[1],
{
    let first = shape.drop_last();
    assert(first.drop_last() =~= Seq::<usize>::empty());
    assert(first.last() == shape[0]);
    assert(shape_product(first.drop_last()) == 1);
    assert(shape_product(first) == shape_product(first.drop_last()) * first.last() as nat);
    assert(shape_product(first) == shape[0] as nat);
    assert(shape_product(shape) == shape_product(first) * shape.last() as nat);
}

/// A vector shape holds its one dimension's count of values.
pub proof fn lemma_vector_product(shape: Seq<usize>)
    requires
        shape.len() == 1,
    ensures
        shape_product(shape) == shape[0],
{
    assert(shape.drop_last() =~= Seq::<usize>::empty());
    assert(shape_product(shape.drop_last()) == 1);
    assert(shape_product(shape) == shape_product(shape.drop_last()) * shape.last() as nat);
}

/// The sum, in the field, of `f(t)` for `t` below `count`.
pub open spec fn field_sum(count: int, f: spec_fn(int) -> int) -> int
    decreases count,
{
    if count <= 0 {
        0
    } else {
        (field_sum(count - 1, f) + f(count - 1)) % (MODULUS as int)
    }
}

proof fn lemma_field_sum_bounds(count: int, f: spec_fn(int) -> int)
    ensures
        0 <= field_sum(count, f) < MODULUS,
    decreases count,
{
    if count > 0 {
        lemma_field_sum_bounds(count - 1, f);
    }
}

/// The terms whose sum is entry `(i, j)` of a matrix product.
pub open spec fn matmul_term(a: Seq<u64>, b: Seq<u64>, k: int, n: int, i: int, j: int) -> spec_fn(int) -> int {
    |t: int| a[i * k + t] * b[t * n + j]
}

/// Entry `(i, j)` of the product of an `m`-by-`k` and a `k`-by-`n` matrix.
pub open spec fn matmul_entry(a: Seq<u64>, b: Seq<u64>, k: int, n: int, i: int, j: int) -> int {
    field_sum(k, matmul_term(a, b, k, n, i, j))
}

/// The values of the product of an `m`-by-`k` and a `k`-by-`n` matrix.
pub open spec fn matmul_values(a: Seq<u64>, b: Seq<u64>, m: int, k: int, n: int) -> Seq<u64> {
    Seq::new((m * n) as nat, |idx: int| matmul_entry(a, b, k, n, idx / n, idx % n) as u64)
}

/// The values of the transpose of an `m`-by-`n` matrix.
pub open spec fn transpose_values(a: Seq<u64>, m: int, n: int) -> Seq<u64> {
    Seq::new((n * m) as nat, |idx: int| a[(idx % m) * n + idx / m])
}

/// The entries of column `j` of a matrix with `n` columns.
pub open spec fn column_term(a: Seq<u64>, n: int, j: int) -> spec_fn(int) -> int {
    |i: int| a[i * n + j] as int
}

/// The entries of row `i` of a matrix with `n` columns.
pub open spec fn row_term(a: Seq<u64>, n: int, i: int) -> spec_fn(int) -> int {
    |j: int| a[i * n + j] as int
}

/// The squared differences of two value sequences, in the field.
pub open spec fn squared_error_term(y: Seq<u64>, t: Seq<u64>) -> spec_fn(int) -> int {
    |i: int| ((y[i] - t[i]) % (MODULUS as int)) * ((y[i] - t[i]) % (MODULUS as int))
}

/// The column sums (axis 0) or row sums (axis 1) of an `m`-by-`n` matrix.
pub open spec fn reduce_values(a: Seq<u64>, m: int, n: int, axis: int) -> Seq<u64> {
    if axis == 0 {
        Seq::new(n as nat, |j: int| field_sum(m, column_term(a, n, j)) as u64)
    } else {
        Seq::new(m as nat, |i: int| field_sum(n, row_term(a, n, i)) as u64)
    }
}

/// Whether `r` is the rank error for a tensor of rank `rank`.
pub open spec fn unsupported_rank<T>(r: Result<T>, rank: nat) -> bool {
    r == Err::<T, TvmError>(TvmError::UnsupportedRank { rank: rank as usize })
}

impl Tensor {
    /// Whether the tensor is a matrix.
    pub open spec fn is_matrix(&self) -> bool {
        self.shape_view().len() == 2
    }

    /// Row count of a matrix.
    pub fn rows(&self) -> (out: Result<usize>)
        ensures
            self.is_matrix() ==> out == Ok::<usize, TvmError>(self.shape_view()[0]),
            !self.is_matrix() ==> unsupported_rank(out, self.shape_view().len()),
    {
        if self.shape.len() != 2 {
            return Err(TvmError::UnsupportedRank { rank: self.shape.len() });
        }
        Ok(self.shape[0])
    }

    /// Column count of a matrix.
    pub fn cols(&self) -> (out: Result<usize>)
        ensures
            self.is_matrix() ==> out == Ok::<usize, TvmError>(self.shape_view()[1]),
            !self.is_matrix() ==> unsupported_rank(out, self.shape_view().len()),
    {
        if self.shape.len() != 2 {
            return Err(TvmError::UnsupportedRank { rank: self.shape.len() });
        }
        Ok(self.shape[1])
    }

    /// Row `row_index` of a matrix.
    pub fn row(&self, row_index: usize) -> (out: Result<&[Elem]>)
        ensures
            row_outcome(*self, row_index, match out {
                Ok(r) => Ok(r@),
                Err(e) => Err(e),
            }),
    {
        proof {
            use_type_invariant(self);
        }
        if self.shape.len() != 2 {
            return Err(TvmError::UnsupportedRank { rank: self.shape.len() });
        }
        let m = self.shape[0];
        let n = self.shape[1];
        let total = self.data.len();
        if row_index >= m {
            return Err(TvmError::InvalidReceipt("tensor row out of range"));
        }
        proof {
            lemma_matrix_product(self.shape@);
            assert((row_index + 1) * n <= m * n) by (nonlinear_arith)
                requires
                    row_index < m,
            ;
            assert((row_index + 1) * n == row_index * n + n) by (nonlinear_arith);
        }
        let start = row_index * n;
        let end = start + n;
        Ok(&self.data.as_slice()[start..end])
    }
}

/// One more term of a field sum, computed with field operations.
proof fn lemma_field_sum_step(count: int, f: spec_fn(int) -> int, acc: int, term: int)
    requires
        count >= 0,
        acc == field_sum(count, f),
        term == f(count) % (MODULUS as int),
    ensures
        (acc + term) % (MODULUS as int) == field_sum(count + 1, f),
{
    lemma_field_sum_bounds(count, f);
    lemma_add_mod_noop(acc, f(count), MODULUS as int);
    assert(acc % (MODULUS as int) == acc);
    assert(term % (MODULUS as int) == term) by {
        vstd::arithmetic::div_mod::lemma_mod_twice(f(count), MODULUS as int);
    }
}

impl Tensor {
    fn matrix_dims(&self) -> (out: Result<(usize, usize)>)
        ensures
            !self.is_matrix() ==> unsupported_rank(out, self.shape_view().len()),
            self.is_matrix() ==> (out matches Ok((m, n)) && m == self.shape_view()[0] && n == self.shape_view()[1]
                && m * n == self.values().len()),
    {
        proof {
            use_type_invariant(self);
        }
        if self.shape.len() != 2 {
            return Err(TvmError::UnsupportedRank { rank: self.shape.len() });
        }
        proof {
            lemma_matrix_product(self.shape@);
        }
        Ok((self.shape[0], self.shape[1]))
    }

    /// The matrix product; both must be matrices with matching inner sizes,
    /// and the product must fit in memory.
    pub fn matmul(&self, other: &Tensor) -> (out: Result<Tensor>)
        ensures
            matmul_outcome(*self, *other, out),
    {
        proof {
            use_type_invariant(self);
            use_type_invariant(other);
        }
        let (m, k) = match self.matrix_dims() {
            Ok(d) => d,
            Err(e) => return Err(e),
        };
        let (k2, n) = match other.matrix_dims() {
            Ok(d) => d,
            Err(e) => return Err(e),
        };
        if k != k2 {
            return Err(self.mismatch(other));
        }
        let total = match m.checked_mul(n) {
            Some(t) => t,
            None => return Err(TvmError::InvalidReceipt("tensor too large")),
        };
        let ghost a = self.data@;
        let ghost b = other.data@;
        let alen = self.data.len();
        let blen = other.data.len();
        let mut out: Vec<Elem> = Vec::new();
        let mut i: usize = 0;
        while i < m
            invariant
                a == self.data@,
                b == other.data@,
                a.len() == m * k,
                b.len() == k * n,
                alen == a.len(),
                blen == b.len(),
                all_in_field(a),
                all_in_field(b),
                total == m * n,
                i <= m,
                out@.len() == i * n,
                out@ == matmul_values(a, b, m as int, k as int, n as int).subrange(0, i * n),
                all_in_field(out@),
            decreases m - i,
        {
            let mut j: usize = 0;
            while j < n
                invariant
                    a == self.data@,
                    b == other.data@,
                    a.len() == m * k,
                    b.len() == k * n,
                    alen == a.len(),
                    blen == b.len(),
                    all_in_field(a),
                    all_in_field(b),
                    total == m * n,
                    i < m,
                    j <= n,
                    out@.len() == i * n + j,
                    out@ == matmul_values(a, b, m as int, k as int, n as int).subrange(0, i * n + j),
                    all_in_field(out@),
                decreases n - j,
            {
                let mut acc: Elem = 0;
                let mut t: usize = 0;
                while t < k
                    invariant
                        a == self.data@,
                        b == other.data@,
                        a.len() == m * k,
                        b.len() == k * n,
                        alen == a.len(),
                        blen == b.len(),
                        all_in_field(a),
                        all_in_field(b),
                        i < m,
                        j < n,
                        t <= k,
                        acc < MODULUS,
                        acc as int == field_sum(t as int, matmul_term(a, b, k as int, n as int, i as int, j as int)),
                    decreases k - t,
                {
                    proof {
                        lemma_grid_index(i as int, t as int, m as int, k as int);
                        lemma_grid_index(t as int, j as int, k as int, n as int);
                    }
                    let x = self.data[i * k + t];
                    let y = other.data[t * n + j];
                    let term = mul_mod(x, y);
                    proof {
                        lemma_field_sum_step(t as int, matmul_term(a, b, k as int, n as int, i as int, j as int), acc as int, term as int);
                    }
                    acc = add_mod(acc, term);
                    t += 1;
                }
                proof {
                    lemma_grid_index(i as int, j as int, m as int, n as int);
                    let mv = matmul_values(a, b, m as int, k as int, n as int);
                    assert(mv[i * n + j] == acc);
                    assert(out@.push(acc) =~= mv.subrange(0, i * n + j + 1));
                }
                out.push(acc);
                j += 1;
            }
            assert((i + 1) * n == i * n + n) by (nonlinear_arith);
            i += 1;
        }
        proof {
            assert(m * n == total);
            assert(out@ =~= matmul_values(a, b, m as int, k as int, n as int));
        }
        let shape: Vec<usize> = vec![m, n];
        proof {
            lemma_matrix_product(shape@);
        }
        Ok(Tensor { shape, dtype: self.dtype, data: out })
    }
}

impl Tensor {
    /// The transpose of a matrix.
    pub fn transpose(&self) -> (out: Result<Tensor>)
        ensures
            transpose_outcome(*self, out),
    {
        proof {
            use_type_invariant(self);
        }
        let (m, n) = match self.matrix_dims() {
            Ok(d) => d,
            Err(e) => return Err(e),
        };
        let ghost a = self.data@;
        let alen = self.data.len();
        let mut out: Vec<Elem> = Vec::new();
        let mut j: usize = 0;
        while j < n
            invariant
                a == self.data@,
                a.len() == m * n,
                alen == a.len(),
                all_in_field(a),
                j <= n,
                out@.len() == j * m,
                out@ == transpose_values(a, m as int, n as int).subrange(0, j * m),
                all_in_field(out@),
            decreases n - j,
        {
            let mut i: usize = 0;
            while i < m
                invariant
                    a == self.data@,
                    a.len() == m * n,
                    alen == a.len(),
                    all_in_field(a),
                    j < n,
                    i <= m,
                    out@.len() == j * m + i,
                    out@ == transpose_values(a, m as int, n as int).subrange(0, j * m + i),
                    all_in_field(out@),
                decreases m - i,
            {
                proof {
                    lemma_grid_index(i as int, j as int, m as int, n as int);
                    lemma_grid_index(j as int, i as int, n as int, m as int);
                }
                let v = self.data[i * n + j];
                proof {
                    let tv = transpose_values(a, m as int, n as int);
                    assert(tv[j * m + i] == v);
                    assert(out@.push(v) =~= tv.subrange(0, j * m + i + 1));
                }
                out.push(v);
                i += 1;
            }
            assert((j + 1) * m == j * m + m) by (nonlinear_arith);
            j += 1;
        }
        proof {
            assert(n * m == m * n) by (nonlinear_arith);
            assert(out@ =~= transpose_values(a, m as int, n as int));
        }
        let shape: Vec<usize> = vec![n, m];
        proof {
            lemma_matrix_product(shape@);
        }
        Ok(Tensor { shape, dtype: self.dtype, data: out })
    }

    /// Column sums (axis 0) or row sums (axis 1) of a matrix.
    pub fn reduce_sum(&self, axis: usize) -> (out: Result<Tensor>)
        ensures
            reduce_sum_outcome(*self, axis, out),
    {
        proof {
            use_type_invariant(self);
        }
        let (m, n) = match self.matrix_dims() {
            Ok(d) => d,
            Err(e) => return Err(e),
        };
        if axis > 1 {
            return Err(TvmError::InvalidReceipt("reduce axis out of range"));
        }
        let ghost a = self.data@;
        let alen = self.data.len();
        let outer = if axis == 0 { n } else { m };
        let inner = if axis == 0 { m } else { n };
        let mut out: Vec<Elem> = Vec::new();
        let mut p: usize = 0;
        while p < outer
            invariant
                a == self.data@,
                a.len() == m * n,
                alen == a.len(),
                all_in_field(a),
                axis <= 1,
                outer == (if axis == 0 { n } else { m }),
                inner == (if axis == 0 { m } else { n }),
                p <= outer,
                out@ == reduce_values(a, m as int, n as int, axis as int).subrange(0, p as int),
                all_in_field(out@),
            decreases outer - p,
        {
            let ghost f = if axis == 0 { column_term(a, n as int, p as int) } else { row_term(a, n as int, p as int) };
            let mut acc: Elem = 0;
            let mut q: usize = 0;
            while q < inner
                invariant
                    a == self.data@,
                    a.len() == m * n,
                    alen == a.len(),
                    all_in_field(a),
                    axis <= 1,
                    outer == (if axis == 0 { n } else { m }),
                    inner == (if axis == 0 { m } else { n }),
                    p < outer,
                    q <= inner,
                    f == (if axis == 0 { column_term(a, n as int, p as int) } else { row_term(a, n as int, p as int) }),
                    acc < MODULUS,
                    acc as int == field_sum(q as int, f),
                decreases inner - q,
            {
                let (i, j) = if axis == 0 { (q, p) } else { (p, q) };
                proof {
                    lemma_grid_index(i as int, j as int, m as int, n as int);
                }
                let v = self.data[i * n + j];
                proof {
                    assert(f(q as int) == v as int);
                    lemma_field_sum_step(q as int, f, acc as int, v as int);
                }
                acc = add_mod(acc, v);
                q += 1;
            }
            proof {
                let rv = reduce_values(a, m as int, n as int, axis as int);
                assert(rv[p as int] == acc);
                assert(out@.push(acc) =~= rv.subrange(0, p + 1));
            }
            out.push(acc);
            p += 1;
        }
        assert(out@ =~= reduce_values(a, m as int, n as int, axis as int));
        let shape: Vec<usize> = vec![outer];
        proof {
            lemma_vector_product(shape@);
        }
        assert(shape@ =~= seq![if axis == 0 { self.shape@[1] } else { self.shape@[0] }]);
        Ok(Tensor { shape, dtype: self.dtype, data: out })
    }

    /// Every value times `scalar`, which must be a field element.
    pub fn scalar_mul(&self, scalar: Elem) -> (out: Result<Tensor>)
        ensures
            scalar_mul_outcome(*self, scalar, out),
    {
        proof {
            use_type_invariant(self);
        }
        if scalar >= MODULUS {
            return Err(TvmError::InvalidReceipt("scalar outside field"));
        }
        let ghost want = Seq::new(self.data@.len(), |i: int| ((self.data@[i] * scalar) % (MODULUS as int)) as u64);
        let mut out: Vec<Elem> = Vec::new();
        let mut i: usize = 0;
        while i < self.data.len()
            invariant
                all_in_field(self.data@),
                scalar < MODULUS,
                want == Seq::new(self.data@.len(), |i: int| ((self.data@[i] * scalar) % (MODULUS as int)) as u64),
                i <= self.data@.len(),
                out@ == want.subrange(0, i as int),
                all_in_field(out@),
            decreases self.data@.len() - i,
        {
            let v = mul_mod(self.data[i], scalar);
            assert(out@.push(v) =~= want.subrange(0, i + 1));
            out.push(v);
            i += 1;
        }
        assert(out@ =~= want);
        Ok(Tensor { shape: copy_dims(self.shape.as_slice()), dtype: self.dtype, data: out })
    }

    /// The field sum of squared differences from `target`, of the same shape.
    pub fn squared_error_sum(&self, target: &Tensor) -> (out: Result<u64>)
        ensures
            squared_error_outcome(*self, *target, out),
    {
        proof {
            use_type_invariant(self);
            use_type_invariant(target);
        }
        if !self.same_shape(target) {
            return Err(self.mismatch(target));
        }
        let ghost f = squared_error_term(self.data@, target.data@);
        let mut acc: u64 = 0;
        let mut i: usize = 0;
        while i < self.data.len()
            invariant
                self.data@.len() == target.data@.len(),
                all_in_field(self.data@),
                all_in_field(target.data@),
                f == squared_error_term(self.data@, target.data@),
                i <= self.data@.len(),
                acc < MODULUS,
                acc as int == field_sum(i as int, f),
            decreases self.data@.len() - i,
        {
            let d = sub_mod(self.data[i], target.data[i]);
            let sq = mul_mod(d, d);
            proof {
                let x = self.data@[i as int] - target.data@[i as int];
                assert(f(i as int) == (x % (MODULUS as int)) * (x % (MODULUS as int)));
                lemma_field_sum_step(i as int, f, acc as int, sq as int);
            }
            acc = add_mod(acc, sq);
            i += 1;
        }
        Ok(acc)
    }
}

/// The number of values in a chunk of a tensor commitment.
pub const DEFAULT_CHUNK_SIZE: usize = 1024;

/// Values as consecutive eight-byte little-endian words.
pub open spec fn u64s_bytes(values: Seq<u64>) -> Seq<u8>
    decreases values.len(),
{
    if values.len() == 0 {
        Seq::empty()
    } else {
        u64s_bytes(values.drop_last()) + spec_u64_to_le_bytes(values.last())
    }
}

/// Dimensions as consecutive eight-byte little-endian words.
pub open spec fn dims_bytes(shape: Seq<usize>) -> Seq<u8> {
    u64s_bytes(shape.map_values(|d: usize| d as u64))
}

/// The parts a tensor's identifying hashes are taken over.
pub open spec fn tensor_parts(shape: Seq<usize>, dtype: DType, values: Seq<u64>) -> Seq<Seq<u8>> {
    seq![dims_bytes(shape), seq![dtype.spec_tag()], u64s_bytes(values)]
}

/// The identifier of a tensor.
pub open spec fn spec_tensor_id(shape: Seq<usize>, dtype: DType, values: Seq<u64>) -> Seq<u8> {
    spec_hash_bytes("tensor-vm-tensor-id-v1".spec_bytes(), tensor_parts(shape, dtype, values))
}

/// The content hash of a tensor.
pub open spec fn spec_hash_tensor(shape: Seq<usize>, dtype: DType, values: Seq<u64>) -> Seq<u8> {
    spec_hash_bytes("tensor-vm-tensor-hash-v1".spec_bytes(), tensor_parts(shape, dtype, values))
}

/// How many chunks of `chunk_size` values cover `len` values.
pub open spec fn chunk_count(len: nat, chunk_size: nat) -> nat {
    len / chunk_size + if len % chunk_size == 0 { 0nat } else { 1nat }
}

/// The values of chunk `c`.
pub open spec fn chunk_values(values: Seq<u64>, c: int, chunk_size: int) -> Seq<u64> {
    let start = c * chunk_size;
    let end = if values.len() - start < chunk_size { values.len() as int } else { start + chunk_size };
    values.subrange(start, end)
}

/// The Merkle leaves of a tensor's chunks.
pub open spec fn tensor_leaves(id: Seq<u8>, values: Seq<u64>, chunk_size: int) -> Seq<Seq<u8>> {
    Seq::new(
        chunk_count(values.len(), chunk_size as nat),
        |c: int| spec_leaf_hash(id, c as u64, u64s_bytes(chunk_values(values, c, chunk_size))),
    )
}

proof fn lemma_chunk_start(c: int, len: int, cs: int)
    requires
        cs > 0,
        len >= 0,
        0 <= c < chunk_count(len as nat, cs as nat),
    ensures
        0 <= c * cs < len,
{
    let q = len / cs;
    let r = len % cs;
    vstd::arithmetic::div_mod::lemma_fundamental_div_mod(len, cs);
    if c < q {
        assert(c * cs < len) by (nonlinear_arith)
            requires
                c < q,
                len == cs * q + r,
                r >= 0,
                cs > 0,
                c >= 0,
        ;
    } else {
        assert(c == q);
        assert(r > 0);
        assert(c * cs < len) by (nonlinear_arith)
            requires
                c == q,
                len == cs * q + r,
                r > 0,
        ;
    }
    assert(c * cs >= 0) by (nonlinear_arith)
        requires
            c >= 0,
            cs > 0,
    ;
}

fn push_u64s(out: &mut Vec<u8>, values: &[u64])
    ensures
        final(out)@ == old(out)@ + u64s_bytes(values@),
{
    let mut i: usize = 0;
    while i < values.len()
        invariant
            i <= values@.len(),
            out@ == old(out)@ + u64s_bytes(values@.subrange(0, i as int)),
        decreases values@.len() - i,
    {
        let word = u64_bytes(values[i]);
        let mut b: usize = 0;
        let ghost before = out@;
        while b < 8
            invariant
                b <= 8,
                word@ == spec_u64_to_le_bytes(values@[i as int]),
                out@ == before + word@.subrange(0, b as int),
            decreases 8 - b,
        {
            out.push(word[b]);
            assert(out@ =~= before + word@.subrange(0, b + 1));
            b += 1;
        }
        proof {
            let s = values@.subrange(0, i + 1);
            assert(s.drop_last() =~= values@.subrange(0, i as int));
            assert(word@.subrange(0, 8) =~= word@);
            assert(out@ =~= old(out)@ + u64s_bytes(s));
        }
        i += 1;
    }
    assert(values@.subrange(0, values@.len() as int) =~= values@);
}

pub fn dims_bytes_of(shape: &[usize]) -> (out: Vec<u8>)
    ensures
        out@ == dims_bytes(shape@),
{
    let mut words: Vec<u64> = Vec::new();
    let mut i: usize = 0;
    while i < shape.len()
        invariant
            i <= shape@.len(),
            words@ == shape@.subrange(0, i as int).map_values(|d: usize| d as u64),
        decreases shape@.len() - i,
    {
        words.push(shape[i] as u64);
        assert(words@ =~= shape@.subrange(0, i + 1).map_values(|d: usize| d as u64));
        i += 1;
    }
    assert(shape@.subrange(0, shape@.len() as int) =~= shape@);
    let mut out: Vec<u8> = Vec::new();
    push_u64s(&mut out, words.as_slice());
    assert(out@ =~= dims_bytes(shape@));
    out
}

fn values_to_bytes(values: &[u64]) -> (out: Vec<u8>)
    ensures
        out@ == u64s_bytes(values@),
{
    let mut out: Vec<u8> = Vec::new();
    push_u64s(&mut out, values);
    assert(out@ =~= u64s_bytes(values@));
    out
}

/// What a tensor server publishes about a tensor: its identifier, shape,
/// element type and commitment.
#[derive(Clone, Debug, PartialEq, Eq)]
pub struct TensorDescriptor {
    pub tensor_id: Hash32,
    pub shape: Vec<usize>,
    pub dtype: DType,
    pub commitment: MerkleCommitment,
}

/// One chunk of a tensor with its Merkle proof.
#[derive(Clone, Debug, PartialEq, Eq)]
pub struct TensorOpening {
    pub tensor_id: Hash32,
    pub chunk_index: u64,
    pub chunk_size: usize,
    pub chunk: Vec<u8>,
    pub proof: MerkleProof,
}

/// Whether an opening checks out against a descriptor: same tensor and chunk
/// size, and a proof from the chunk's leaf to the committed root.
pub open spec fn spec_opening_verifies(o: TensorOpening, d: TensorDescriptor) -> bool {
    &&& o.tensor_id == d.tensor_id
    &&& o.chunk_size == d.commitment.chunk_size
    &&& o.chunk_index < d.commitment.leaf_count
    &&& o.proof.leaf_index == o.chunk_index
    &&& spec_verify_proof(d.commitment.root@, spec_leaf_hash(o.tensor_id@, o.chunk_index, o.chunk@), o.proof)
}

impl TensorOpening {
    pub fn verify(&self, descriptor: &TensorDescriptor) -> (out: bool)
        ensures
            out == spec_opening_verifies(*self, *descriptor),
    {
        if !crate::types::hash_eq(&self.tensor_id, &descriptor.tensor_id) {
            return false;
        }
        assert(self.tensor_id@ == descriptor.tensor_id@);
        assert(self.tensor_id =~= descriptor.tensor_id);
        if self.chunk_size != descriptor.commitment.chunk_size || self.chunk_index >= descriptor.commitment.leaf_count
            || self.proof.leaf_index != self.chunk_index {
            return false;
        }
        let leaf = leaf_hash(&self.tensor_id, self.chunk_index, self.chunk.as_slice());
        verify_proof(&descriptor.commitment.root, leaf, &self.proof)
    }
}

impl Tensor {
    fn parts_bytes(&self) -> (out: (Vec<u8>, Vec<u8>, Vec<u8>))
        ensures
            seq![out.0@, out.1@, out.2@] == tensor_parts(self.shape_view(), self.dtype_view(), self.values()),
    {
        let dims = dims_bytes_of(self.shape.as_slice());
        let tag: Vec<u8> = vec![self.dtype.tag()];
        let vals = values_to_bytes(self.data.as_slice());
        assert(tag@ =~= seq![self.dtype.spec_tag()]);
        (dims, tag, vals)
    }

    /// The tensor's identifier.
    pub fn tensor_id(&self) -> (out: Hash32)
        ensures
            out@ == spec_tensor_id(self.shape_view(), self.dtype_view(), self.values()),
    {
        let (dims, tag, vals) = self.parts_bytes();
        let parts: Vec<&[u8]> = vec![dims.as_slice(), tag.as_slice(), vals.as_slice()];
        assert(slices_view(parts@) =~= seq![dims@, tag@, vals@]);
        hash_bytes("tensor-vm-tensor-id-v1".as_bytes(), parts.as_slice())
    }

    /// The tensor's content hash.
    pub fn hash_tensor(&self) -> (out: Hash32)
        ensures
            out@ == spec_hash_tensor(self.shape_view(), self.dtype_view(), self.values()),
    {
        let (dims, tag, vals) = self.parts_bytes();
        let parts: Vec<&[u8]> = vec![dims.as_slice(), tag.as_slice(), vals.as_slice()];
        assert(slices_view(parts@) =~= seq![dims@, tag@, vals@]);
        hash_bytes("tensor-vm-tensor-hash-v1".as_bytes(), parts.as_slice())
    }

    fn chunk_bounds(&self, c: usize, chunk_size: usize) -> (out: (usize, usize))
        requires
            chunk_size > 0,
            c < chunk_count(self.values().len(), chunk_size as nat),
        ensures
            out.0 == c * chunk_size,
            out.1 == (if self.values().len() - c * chunk_size < chunk_size { self.values().len() as int } else {
                c * chunk_size + chunk_size }),
            out.0 < out.1 <= self.values().len(),
    {
        proof {
            lemma_chunk_start(c as int, self.data@.len() as int, chunk_size as int);
        }
        let len = self.data.len();
        let start = c * chunk_size;
        let end = if len - start < chunk_size { len } else { start + chunk_size };
        (start, end)
    }

    fn leaves(&self, id: &Hash32, chunk_size: usize) -> (out: Vec<Hash32>)
        requires
            chunk_size > 0,
        ensures
            hashes_view(out@) == tensor_leaves(id@, self.values(), chunk_size as int),
    {
        let len = self.data.len();
        assert(len / chunk_size + (if len % chunk_size == 0 { 0int } else { 1int }) <= usize::MAX) by {
            if len % chunk_size != 0 {
                assert(chunk_size >= 2);
                assert(len / chunk_size <= len / 2) by {
                    vstd::arithmetic::div_mod::lemma_div_is_ordered_by_denominator(len as int, 2, chunk_size as int);
                }
            }
        }
        let count = len / chunk_size + if len % chunk_size == 0 { 0 } else { 1 };
        let ghost want = tensor_leaves(id@, self.data@, chunk_size as int);
        let mut out: Vec<Hash32> = Vec::new();
        let mut c: usize = 0;
        while c < count
            invariant
                chunk_size > 0,
                len == self.data@.len(),
                count == chunk_count(len as nat, chunk_size as nat),
                want == tensor_leaves(id@, self.data@, chunk_size as int),
                c <= count,
                hashes_view(out@) == want.subrange(0, c as int),
            decreases count - c,
        {
            let (start, end) = self.chunk_bounds(c, chunk_size);
            let bytes = values_to_bytes(&self.data.as_slice()[start..end]);
            let leaf = leaf_hash(id, c as u64, bytes.as_slice());
            let ghost before = out@;
            proof {
                assert(self.data@.subrange(start as int, end as int) == chunk_values(self.data@, c as int, chunk_size as int));
                assert(want[c as int] == leaf@);
            }
            out.push(leaf);
            proof {
                assert(out@ == before.push(leaf));
                assert(hashes_view(out@) =~= hashes_view(before).push(leaf@));
                assert(want.subrange(0, c + 1) =~= want.subrange(0, c as int).push(want[c as int]));
            }
            c += 1;
        }
        assert(want.subrange(0, count as int) =~= want);
        out
    }

    /// The tensor's Merkle commitment over chunks of `chunk_size` values.
    pub fn commitment(&self, chunk_size: usize) -> (out: MerkleCommitment)
        requires
            chunk_size > 0,
        ensures
            out.root@ == spec_merkle_root(tensor_leaves(
                spec_tensor_id(self.shape_view(), self.dtype_view(), self.values()),
                self.values(),
                chunk_size as int,
            )),
            out.leaf_count == chunk_count(self.values().len(), chunk_size as nat),
            out.chunk_size == chunk_size,
    {
        let id = self.tensor_id();
        let leaves = self.leaves(&id, chunk_size);
        let root = merkle_root(leaves.as_slice());
        let ghost n = chunk_count(self.data@.len(), chunk_size as nat);
        assert(leaves@.len() == n);
        MerkleCommitment { root, leaf_count: leaves.len() as u64, chunk_size }
    }

    /// The root of the tensor's commitment at the default chunk size.
    pub fn commitment_root(&self) -> (out: Hash32)
        ensures
            out@ == spec_merkle_root(tensor_leaves(
                spec_tensor_id(self.shape_view(), self.dtype_view(), self.values()),
                self.values(),
                DEFAULT_CHUNK_SIZE as int,
            )),
    {
        self.commitment(DEFAULT_CHUNK_SIZE).root
    }

    /// What a server publishes about the tensor.
    pub fn descriptor(&self) -> (out: TensorDescriptor)
        ensures
            describes(out, *self),
    {
        TensorDescriptor {
            tensor_id: self.tensor_id(),
            shape: copy_dims(self.shape.as_slice()),
            dtype: self.dtype,
            commitment: self.commitment(DEFAULT_CHUNK_SIZE),
        }
    }

    /// Chunk `chunk_index` of the commitment over chunks of `chunk_size`
    /// values, with its proof.
    pub fn opening(&self, chunk_index: u64, chunk_size: usize) -> (out: Result<TensorOpening>)
        ensures
            opening_outcome(*self, chunk_index, chunk_size, out),
    {
        if chunk_size == 0 {
            return Err(TvmError::InvalidReceipt("chunk size must be positive"));
        }
        let id = self.tensor_id();
        let leaves = self.leaves(&id, chunk_size);
        assert(hashes_view(leaves@).len() == leaves@.len());
        let proof = match build_proof(leaves.as_slice(), chunk_index) {
            Ok(p) => p,
            Err(e) => return Err(e),
        };
        let nleaves = leaves.len();
        assert(chunk_index < nleaves);
        let ci = chunk_index as usize;
        assert(ci as int == chunk_index as int);
        let (start, end) = self.chunk_bounds(ci, chunk_size);
        let chunk = values_to_bytes(&self.data.as_slice()[start..end]);
        assert(self.data@.subrange(start as int, end as int) == chunk_values(self.data@, chunk_index as int, chunk_size as int));
        Ok(TensorOpening { tensor_id: id, chunk_index, chunk_size, chunk, proof })
    }
}

/// Every chunk that a tensor opens verifies against the tensor's
/// descriptor.
pub proof fn lemma_opening_verifies(t: Tensor, d: TensorDescriptor, chunk_index: u64, o: TensorOpening)
    requires
        describes(d, t),
        opening_outcome(t, chunk_index, DEFAULT_CHUNK_SIZE, Ok(o)),
    ensures
        spec_opening_verifies(o, d),
{
    let leaves = tensor_leaves(o.tensor_id@, t.values(), DEFAULT_CHUNK_SIZE as int);
    lemma_merkle_proof_verifies(leaves, o.chunk_index, o.proof);
    assert(o.tensor_id =~= d.tensor_id);
}

/// Value `i` of the random tensor drawn from `seed`.
pub open spec fn random_value(seed: Seq<u8>, i: int) -> u64 {
    (spec_u128_from_le_bytes(
        spec_hash_bytes("tensor-vm-random-tensor-v1".spec_bytes(), seq![seed, spec_u64_to_le_bytes(i as u64)]).subrange(0, 16),
    ) % (MODULUS as u128)) as u64
}

impl Tensor {
    /// The tensor of `shape` whose values are drawn, deterministically, from
    /// `seed`; refused where the shape holds more values than fit in memory.
    pub fn random(seed: &Hash32, shape: Vec<usize>, dtype: DType) -> (out: Result<Tensor>)
        ensures
            random_outcome(seed@, shape@, dtype, out),
    {
        let n = match checked_shape_product(shape.as_slice()) {
            Some(n) => n,
            None => return Err(TvmError::InvalidReceipt("tensor too large")),
        };
        let ghost want = Seq::new(n as nat, |i: int| random_value(seed@, i));
        let mut data: Vec<Elem> = Vec::new();
        let mut i: usize = 0;
        while i < n
            invariant
                want == Seq::new(n as nat, |i: int| random_value(seed@, i)),
                i <= n,
                data@ == want.subrange(0, i as int),
                all_in_field(data@),
            decreases n - i,
        {
            let index = u64_bytes(i as u64);
            let parts: Vec<&[u8]> = vec![seed.as_slice(), index.as_slice()];
            assert(slices_view(parts@) =~= seq![seed@, spec_u64_to_le_bytes(i as u64)]);
            let digest = hash_bytes("tensor-vm-random-tensor-v1".as_bytes(), parts.as_slice());
            let wide = hash_to_u128(&digest);
            let v = (wide % (MODULUS as u128)) as u64;
            assert(v == random_value(seed@, i as int));
            data.push(v);
            assert(data@ =~= want.subrange(0, i + 1));
            i += 1;
        }
        assert(data@ =~= want);
        Ok(Tensor { shape, dtype, data })
    }
}

/// What `Tensor::add` returns.
pub open spec fn add_outcome(a: Tensor, b: Tensor, out: Result<Tensor>) -> bool {
    &&& (a.shape_view() == b.shape_view() ==> (out matches Ok(t) && t.shape_view() == a.shape_view() && t.dtype_view() == a.dtype_view() && t.values() == zip_mod(a.values(), b.values(), |x: int, y: int| x + y)))
    &&& (a.shape_view() != b.shape_view() ==> dimension_mismatch(out, a.shape_view(), b.shape_view()))
}

/// What `Tensor::sub` returns.
pub open spec fn sub_outcome(a: Tensor, b: Tensor, out: Result<Tensor>) -> bool {
    &&& (a.shape_view() == b.shape_view() ==> (out matches Ok(t) && t.shape_view() == a.shape_view() && t.dtype_view() == a.dtype_view() && t.values() == zip_mod(a.values(), b.values(), |x: int, y: int| x - y)))
    &&& (a.shape_view() != b.shape_view() ==> dimension_mismatch(out, a.shape_view(), b.shape_view()))
}

/// What `Tensor::mul` returns.
pub open spec fn mul_outcome(a: Tensor, b: Tensor, out: Result<Tensor>) -> bool {
    &&& (a.shape_view() == b.shape_view() ==> (out matches Ok(t) && t.shape_view() == a.shape_view() && t.dtype_view() == a.dtype_view() && t.values() == zip_mod(a.values(), b.values(), |x: int, y: int| x * y)))
    &&& (a.shape_view() != b.shape_view() ==> dimension_mismatch(out, a.shape_view(), b.shape_view()))
}

/// What `Tensor::matmul` returns.
pub open spec fn matmul_outcome(a: Tensor, b: Tensor, out: Result<Tensor>) -> bool {
    &&& (!a.is_matrix() ==> unsupported_rank(out, a.shape_view().len()))
    &&& (a.is_matrix() && !b.is_matrix() ==> unsupported_rank(out, b.shape_view().len()))
    &&& (a.is_matrix() && b.is_matrix() && a.shape_view()[1] != b.shape_view()[0] ==> dimension_mismatch(out, a.shape_view(), b.shape_view()))
    &&& (a.is_matrix() && b.is_matrix() && a.shape_view()[1] == b.shape_view()[0] && a.shape_view()[0] * b.shape_view()[1] > usize::MAX ==> out == Err::<Tensor, TvmError>(TvmError::InvalidReceipt("tensor too large")))
    &&& (a.is_matrix() && b.is_matrix() && a.shape_view()[1] == b.shape_view()[0] && a.shape_view()[0] * b.shape_view()[1] <= usize::MAX ==> (out matches Ok(t) && t.shape_view() == seq![a.shape_view()[0], b.shape_view()[1]] && t.dtype_view() == a.dtype_view() && t.values() == matmul_values(a.values(), b.values(), a.shape_view()[0] as int, a.shape_view()[1] as int, b.shape_view()[1] as int)))
}

/// What `Tensor::transpose` returns.
pub open spec fn transpose_outcome(a: Tensor, out: Result<Tensor>) -> bool {
    &&& (!a.is_matrix() ==> unsupported_rank(out, a.shape_view().len()))
    &&& (a.is_matrix() ==> (out matches Ok(t) && t.shape_view() == seq![a.shape_view()[1], a.shape_view()[0]] && t.dtype_view() == a.dtype_view() && t.values() == transpose_values(a.values(), a.shape_view()[0] as int, a.shape_view()[1] as int)))
}

/// What `Tensor::reduce_sum` returns.
pub open spec fn reduce_sum_outcome(a: Tensor, axis: usize, out: Result<Tensor>) -> bool {
    &&& (!a.is_matrix() ==> unsupported_rank(out, a.shape_view().len()))
    &&& (a.is_matrix() && axis > 1 ==> out == Err::<Tensor, TvmError>(TvmError::InvalidReceipt("reduce axis out of range")))
    &&& (a.is_matrix() && axis <= 1 ==> (out matches Ok(t) && t.shape_view() == seq![if axis == 0 { a.shape_view()[1] } else { a.shape_view()[0] }] && t.dtype_view() == a.dtype_view() && t.values() == reduce_values(a.values(), a.shape_view()[0] as int, a.shape_view()[1] as int, axis as int)))
}

/// What `Tensor::scalar_mul` returns.
pub open spec fn scalar_mul_outcome(a: Tensor, scalar: Elem, out: Result<Tensor>) -> bool {
    &&& (scalar >= MODULUS ==> out == Err::<Tensor, TvmError>(TvmError::InvalidReceipt("scalar outside field")))
    &&& (scalar < MODULUS ==> (out matches Ok(t) && t.shape_view() == a.shape_view() && t.dtype_view() == a.dtype_view() && t.values() == Seq::new(a.values().len(), |i: int| ((a.values()[i] * scalar) % (MODULUS as int)) as u64)))
}

/// What `Tensor::squared_error_sum` returns.
pub open spec fn squared_error_outcome(a: Tensor, target: Tensor, out: Result<u64>) -> bool {
    &&& (a.shape_view() == target.shape_view() ==> out == Ok::<u64, TvmError>(field_sum(a.values().len() as int, squared_error_term(a.values(), target.values())) as u64))
    &&& (a.shape_view() != target.shape_view() ==> dimension_mismatch(out, a.shape_view(), target.shape_view()))
}

/// What `Tensor::random` returns.
pub open spec fn random_outcome(seed: Seq<u8>, shape: Seq<usize>, dtype: DType, out: Result<Tensor>) -> bool {
    &&& (shape_product(shape) > usize::MAX ==> out == Err::<Tensor, TvmError>(TvmError::InvalidReceipt("tensor too large")))
    &&& (shape_product(shape) <= usize::MAX ==> (out matches Ok(t) && t.shape_view() == shape && t.dtype_view() == dtype && t.values() == Seq::new(shape_product(shape), |i: int| random_value(seed, i))))
}

/// What `Tensor::opening` returns.
pub open spec fn opening_outcome(t: Tensor, chunk_index: u64, chunk_size: usize, out: Result<TensorOpening>) -> bool {
    &&& (chunk_size == 0 ==> out == Err::<TensorOpening, TvmError>(TvmError::InvalidReceipt("chunk size must be positive")))
    &&& (chunk_size > 0 && chunk_index >= chunk_count(t.values().len(), chunk_size as nat)
        ==> out == Err::<TensorOpening, TvmError>(TvmError::InvalidChunk { chunk_index }))
    &&& (chunk_size > 0 && chunk_index < chunk_count(t.values().len(), chunk_size as nat) ==> (out matches Ok(o)
        && o.tensor_id@ == spec_tensor_id(t.shape_view(), t.dtype_view(), t.values())
        && o.chunk_index == chunk_index && o.chunk_size == chunk_size
        && o.chunk@ == u64s_bytes(chunk_values(t.values(), chunk_index as int, chunk_size as int))
        && o.proof.leaf_index == chunk_index
        && hashes_view(o.proof.siblings@) == proof_path(tensor_leaves(o.tensor_id@, t.values(), chunk_size as int), chunk_index as int)))
}

/// What `Tensor::row` returns.
pub open spec fn row_outcome(t: Tensor, row_index: usize, out: Result<Seq<Elem>>) -> bool {
    &&& (!t.is_matrix() ==> unsupported_rank(out, t.shape_view().len()))
    &&& (t.is_matrix() && row_index >= t.shape_view()[0] ==> out == Err::<Seq<Elem>, TvmError>(
        TvmError::InvalidReceipt("tensor row out of range")))
    &&& (t.is_matrix() && row_index < t.shape_view()[0] ==> (out matches Ok(r) && r == t.values().subrange(
        row_index * t.shape_view()[1],
        (row_index + 1) * t.shape_view()[1],
    )))
}

/// Whether `d` is the descriptor of `t`.
pub open spec fn describes(d: TensorDescriptor, t: Tensor) -> bool {
    &&& d.tensor_id@ == spec_tensor_id(t.shape_view(), t.dtype_view(), t.values())
    &&& d.shape@ == t.shape_view()
    &&& d.dtype == t.dtype_view()
    &&& d.commitment.root@ == spec_merkle_root(tensor_leaves(d.tensor_id@, t.values(), DEFAULT_CHUNK_SIZE as int))
    &&& d.commitment.leaf_count == chunk_count(t.values().len(), DEFAULT_CHUNK_SIZE as nat)
    &&& d.commitment.chunk_size == DEFAULT_CHUNK_SIZE
}

} // verus!
