use vstd::prelude::*;
use vstd::string::StringSliceAdditionalSpecFns;
use crate::types::{Address, Hash32, Signature, hash_is_zero, is_zero_hash, sign, spec_sign, verify_signature};
use crate::testnet::evidence_messages::{
    public_node_heartbeat_message, public_operator_identity_message, spec_node_heartbeat_message,
    spec_operator_identity_message,
};
use crate::testnet::public_services::spec_covers_run;

verus! {

/// The role a public node plays.
#[derive(Clone, Copy, Debug, PartialEq, Eq, PartialOrd, Ord, Structural)]
pub enum PublicNodeRole {
    Miner,
    Validator,
}

/// The tag a role is named by in signed evidence.
pub open spec fn spec_role_tag(role: PublicNodeRole) -> Seq<u8> {
    match role {
        PublicNodeRole::Miner => "miner".spec_bytes(),
        PublicNodeRole::Validator => "validator".spec_bytes(),
    }
}

impl PublicNodeRole {
    pub fn tag(self) -> (out: &'static [u8])
        ensures
            out@ == spec_role_tag(self),
    {
        match self {
            PublicNodeRole::Miner => "miner".as_bytes(),
            PublicNodeRole::Validator => "validator".as_bytes(),
        }
    }
}

/// Evidence that a node of an operator took part in a run, signed by the
/// node's address.
#[derive(Clone, Debug, PartialEq, Eq)]
pub struct PublicNodeEvidence {
    pub address: Address,
    pub operator_id: Hash32,
    pub role: PublicNodeRole,
    pub first_seen_block: u64,
    pub last_seen_block: u64,
    pub signed_heartbeat_count: u64,
    pub heartbeat_signature: Signature,
}

/// Whether the evidence carries its node's signature over its fields.
pub open spec fn heartbeat_signed(e: PublicNodeEvidence) -> bool {
    e.heartbeat_signature@ == spec_sign(
        e.address@,
        spec_node_heartbeat_message(
            e.address@,
            e.operator_id@,
            e.role,
            e.first_seen_block,
            e.last_seen_block,
            e.signed_heartbeat_count,
        ),
    )
}

/// Whether node evidence proves an external operator: a real address and
/// operator, a proper block range, at least one heartbeat, and a valid
/// signature.
pub open spec fn spec_external_operator_proof(e: PublicNodeEvidence) -> bool {
    &&& !is_zero_hash(e.address)
    &&& !is_zero_hash(e.operator_id)
    &&& e.last_seen_block >= e.first_seen_block
    &&& e.signed_heartbeat_count > 0
    &&& heartbeat_signed(e)
}

/// Whether node evidence shows the node live through a run of
/// `observed_blocks` blocks.
pub open spec fn spec_live_for_run(e: PublicNodeEvidence, observed_blocks: u64) -> bool {
    &&& spec_covers_run(e.first_seen_block, e.last_seen_block, observed_blocks)
    &&& spec_external_operator_proof(e)
    &&& (observed_blocks == 0 || e.signed_heartbeat_count >= observed_blocks)
}

impl PublicNodeEvidence {
    pub fn miner(
        address: Address,
        operator_id: Hash32,
        first_seen_block: u64,
        last_seen_block: u64,
        signed_heartbeat_count: u64,
    ) -> (out: Self)
        ensures
            out.address == address,
            out.operator_id == operator_id,
            out.role == PublicNodeRole::Miner,
            out.first_seen_block == first_seen_block,
            out.last_seen_block == last_seen_block,
            out.signed_heartbeat_count == signed_heartbeat_count,
            heartbeat_signed(out),
    {
        Self::new(address, operator_id, PublicNodeRole::Miner, first_seen_block, last_seen_block, signed_heartbeat_count)
    }

    pub fn validator(
        address: Address,
        operator_id: Hash32,
        first_seen_block: u64,
        last_seen_block: u64,
        signed_heartbeat_count: u64,
    ) -> (out: Self)
        ensures
            out.address == address,
            out.operator_id == operator_id,
            out.role == PublicNodeRole::Validator,
            out.first_seen_block == first_seen_block,
            out.last_seen_block == last_seen_block,
            out.signed_heartbeat_count == signed_heartbeat_count,
            heartbeat_signed(out),
    {
        Self::new(
            address,
            operator_id,
            PublicNodeRole::Validator,
            first_seen_block,
            last_seen_block,
            signed_heartbeat_count,
        )
    }

    pub fn covers_run(&self, observed_blocks: u64) -> (out: bool)
        ensures
            out == spec_covers_run(self.first_seen_block, self.last_seen_block, observed_blocks),
    {
        observed_blocks == 0 || (self.first_seen_block == 0 && self.last_seen_block.saturating_add(1) >= observed_blocks)
    }

    pub fn has_external_operator_proof(&self) -> (out: bool)
        ensures
            out == spec_external_operator_proof(*self),
    {
        !hash_is_zero(&self.address) && !hash_is_zero(&self.operator_id)
            && self.last_seen_block >= self.first_seen_block && self.signed_heartbeat_count > 0
            && self.heartbeat_signature_valid()
    }

    pub fn is_live_for_run(&self, observed_blocks: u64) -> (out: bool)
        ensures
            out == spec_live_for_run(*self, observed_blocks),
    {
        self.covers_run(observed_blocks) && self.has_external_operator_proof()
            && self.has_run_heartbeat_coverage(observed_blocks)
    }

    pub fn heartbeat_signature_valid(&self) -> (out: bool)
        ensures
            out == heartbeat_signed(*self),
    {
        let message = public_node_heartbeat_message(
            &self.address,
            &self.operator_id,
            self.role,
            self.first_seen_block,
            self.last_seen_block,
            self.signed_heartbeat_count,
        );
        verify_signature(&self.address, &message, &self.heartbeat_signature)
    }

    fn new(
        address: Address,
        operator_id: Hash32,
        role: PublicNodeRole,
        first_seen_block: u64,
        last_seen_block: u64,
        signed_heartbeat_count: u64,
    ) -> (out: Self)
        ensures
            out.address == address,
            out.operator_id == operator_id,
            out.role == role,
            out.first_seen_block == first_seen_block,
            out.last_seen_block == last_seen_block,
            out.signed_heartbeat_count == signed_heartbeat_count,
            heartbeat_signed(out),
    {
        let message = public_node_heartbeat_message(
            &address,
            &operator_id,
            role,
            first_seen_block,
            last_seen_block,
            signed_heartbeat_count,
        );
        PublicNodeEvidence {
            address,
            operator_id,
            role,
            first_seen_block,
            last_seen_block,
            signed_heartbeat_count,
            heartbeat_signature: sign(&address, &message),
        }
    }

    fn has_run_heartbeat_coverage(&self, observed_blocks: u64) -> (out: bool)
        ensures
            out == (observed_blocks == 0 || self.signed_heartbeat_count >= observed_blocks),
    {
        observed_blocks == 0 || self.signed_heartbeat_count >= observed_blocks
    }
}

/// An operator's signed statement of who runs a node.
#[derive(Clone, Debug, PartialEq, Eq)]
pub struct PublicOperatorIdentityAttestation {
    pub role: PublicNodeRole,
    pub address: Address,
    pub operator_id: Hash32,
    pub identity_uri: String,
    pub observed_at_unix_seconds: u64,
    pub operator_signature: Signature,
}

/// Whether the attestation carries its operator's signature over its fields.
pub open spec fn operator_signed(a: PublicOperatorIdentityAttestation) -> bool {
    a.operator_signature@ == spec_sign(
        a.operator_id@,
        spec_operator_identity_message(a.role, a.address@, a.operator_id@, a.identity_uri@, a.observed_at_unix_seconds),
    )
}

impl PublicOperatorIdentityAttestation {
    /// Whether the attestation proves an external operator identity: non-zero
    /// address and operator id, an observation time, an identity URI that is
    /// external (`identity_uri_external`, the verdict of the public URL rules)
    /// and a valid operator signature.
    pub fn has_external_identity_proof(&self, identity_uri_external: bool) -> (out: bool)
        ensures
            out == (!is_zero_hash(self.address) && !is_zero_hash(self.operator_id)
                && self.observed_at_unix_seconds > 0 && identity_uri_external && operator_signed(*self)),
    {
        !hash_is_zero(&self.address) && !hash_is_zero(&self.operator_id) && self.observed_at_unix_seconds > 0
            && identity_uri_external && self.operator_signature_valid()
    }

    pub fn new(
        role: PublicNodeRole,
        address: Address,
        operator_id: Hash32,
        identity_uri: &str,
        observed_at_unix_seconds: u64,
    ) -> (out: Self)
        ensures
            out.role == role,
            out.address == address,
            out.operator_id == operator_id,
            out.identity_uri@ == identity_uri@,
            out.observed_at_unix_seconds == observed_at_unix_seconds,
            operator_signed(out),
    {
        let message = public_operator_identity_message(role, &address, &operator_id, identity_uri, observed_at_unix_seconds);
        PublicOperatorIdentityAttestation {
            role,
            address,
            operator_id,
            identity_uri: identity_uri.to_owned(),
            observed_at_unix_seconds,
            operator_signature: sign(&operator_id, &message),
        }
    }

    pub fn operator_signature_valid(&self) -> (out: bool)
        ensures
            out == operator_signed(*self),
    {
        let message = public_operator_identity_message(
            self.role,
            &self.address,
            &self.operator_id,
            self.identity_uri.as_str(),
            self.observed_at_unix_seconds,
        );
        verify_signature(&self.operator_id, &message, &self.operator_signature)
    }
}

} // verus!
