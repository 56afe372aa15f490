//! The identity under which a validator's attestation is announced on the
//! network.

use vstd::prelude::*;
use vstd::string::{StrSliceExecFns, StringSliceAdditionalSpecFns};
use crate::types::{hash_bytes, slices_view, spec_hash_bytes, Address, Hash32, Signature};

verus! {

/// What an announcement of a validator's attestation names: the validator,
/// the receipt and job it attests, the root of its checks and its signature.
#[derive(Clone, Copy, Debug, PartialEq, Eq)]
pub struct ValidatorAttestation {
    pub validator: Address,
    pub receipt_id: Hash32,
    pub job_id: Hash32,
    pub checks_root: Hash32,
    pub signature: Signature,
}

/// The announcement hash of an attestation: the domain-separated hash of
/// its five fields in order.
pub open spec fn spec_attestation_announcement_hash(a: ValidatorAttestation) -> Seq<u8> {
    spec_hash_bytes(
        "tensor-vm-attestation-announcement-v1".spec_bytes(),
        seq![a.validator@, a.receipt_id@, a.job_id@, a.checks_root@, a.signature@],
    )
}

pub fn attestation_announcement_hash(attestation: &ValidatorAttestation) -> (out: Hash32)
    ensures
        out@ == spec_attestation_announcement_hash(*attestation),
{
    let parts: Vec<&[u8]> = vec![
        attestation.validator.as_slice(),
        attestation.receipt_id.as_slice(),
        attestation.job_id.as_slice(),
        attestation.checks_root.as_slice(),
        attestation.signature.as_slice(),
    ];
    let out = hash_bytes("tensor-vm-attestation-announcement-v1".as_bytes(), parts.as_slice());
    assert(slices_view(parts@) =~= seq![
        attestation.validator@,
        attestation.receipt_id@,
        attestation.job_id@,
        attestation.checks_root@,
        attestation.signature@,
    ]);
    out
}

} // verus!
