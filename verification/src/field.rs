use vstd::prelude::*;

verus! {

/// An element of the prime field that tensors live in.
pub type Elem = u64;

/// The field's prime modulus, 2^31 - 1.
pub const MODULUS: u64 = 2147483647;

/// `(a + b) mod p`.
pub fn add_mod(a: Elem, b: Elem) -> (out: Elem)
    requires
        a < MODULUS,
        b < MODULUS,
    ensures
        out == (a + b) % (MODULUS as int),
        out < MODULUS,
{
    let s = a + b;
    if s >= MODULUS { s - MODULUS } else { s }
}

/// `(a - b) mod p`.
pub fn sub_mod(a: Elem, b: Elem) -> (out: Elem)
    requires
        a < MODULUS,
        b < MODULUS,
    ensures
        out == (a - b) % (MODULUS as int),
        out < MODULUS,
{
    if a >= b { a - b } else { a + MODULUS - b }
}

/// `(a * b) mod p`.
pub fn mul_mod(a: Elem, b: Elem) -> (out: Elem)
    requires
        a < MODULUS,
        b < MODULUS,
    ensures
        out == (a * b) % (MODULUS as int),
        out < MODULUS,
{
    assert(a * b < 4611686018427387904) by (nonlinear_arith)
        requires
            a < 2147483647,
            b < 2147483647,
    ;
    (a * b) % MODULUS
}

} // verus!
