use vstd::prelude::*;
use vstd::bytes::spec_u64_to_le_bytes;
use vstd::string::{StringSliceAdditionalSpecFns};
use vstd::utf8::encode_utf8;
use crate::types::{Address, Hash32, hash_bytes, spec_hash_bytes, slices_view, u64_bytes};
use crate::testnet::public_services::{PublicServiceKind, PublicServiceEndpoint, spec_evidence_tag};
use crate::testnet::public_node_evidence::{PublicNodeRole, spec_role_tag};

verus! {

/// The message a service's health-check evidence is signed over.
pub open spec fn spec_service_health_message(
    kind: PublicServiceKind,
    endpoint_id: Seq<u8>,
    public_url: Seq<char>,
    health_path: Seq<char>,
    first_seen_block: u64,
    last_seen_block: u64,
    reachable_observation_count: u64,
    signed_health_check_count: u64,
) -> Seq<u8> {
    spec_hash_bytes(
        "tensor-vm-public-service-health-v1".spec_bytes(),
        seq![
            spec_evidence_tag(kind),
            endpoint_id,
            encode_utf8(public_url),
            encode_utf8(health_path),
            spec_u64_to_le_bytes(first_seen_block),
            spec_u64_to_le_bytes(last_seen_block),
            spec_u64_to_le_bytes(reachable_observation_count),
            spec_u64_to_le_bytes(signed_health_check_count),
        ],
    )
}

pub fn public_service_health_message(
    kind: PublicServiceKind,
    endpoint: &PublicServiceEndpoint,
    first_seen_block: u64,
    last_seen_block: u64,
    reachable_observation_count: u64,
    signed_health_check_count: u64,
) -> (out: Hash32)
    ensures
        out@ == spec_service_health_message(
            kind,
            endpoint.endpoint_id@,
            endpoint.public_url@,
            endpoint.health_path@,
            first_seen_block,
            last_seen_block,
            reachable_observation_count,
            signed_health_check_count,
        ),
{
    let first = u64_bytes(first_seen_block);
    let last = u64_bytes(last_seen_block);
    let reachable = u64_bytes(reachable_observation_count);
    let signed = u64_bytes(signed_health_check_count);
    let parts: Vec<&[u8]> = vec![
        kind.evidence_tag(),
        endpoint.endpoint_id.as_slice(),
        endpoint.public_url.as_str().as_bytes(),
        endpoint.health_path.as_str().as_bytes(),
        first.as_slice(),
        last.as_slice(),
        reachable.as_slice(),
        signed.as_slice(),
    ];
    let out = hash_bytes("tensor-vm-public-service-health-v1".as_bytes(), parts.as_slice());
    assert(slices_view(parts@) =~= seq![
        spec_evidence_tag(kind),
        endpoint.endpoint_id@,
        encode_utf8(endpoint.public_url@),
        encode_utf8(endpoint.health_path@),
        spec_u64_to_le_bytes(first_seen_block),
        spec_u64_to_le_bytes(last_seen_block),
        spec_u64_to_le_bytes(reachable_observation_count),
        spec_u64_to_le_bytes(signed_health_check_count),
    ]);
    out
}

/// The message a service's content evidence is signed over.
pub open spec fn spec_service_content_message(
    kind: PublicServiceKind,
    endpoint_id: Seq<u8>,
    public_url: Seq<char>,
    content_path: Seq<char>,
    content_root: Seq<u8>,
    observed_at_unix_seconds: u64,
    min_content_bytes: u64,
) -> Seq<u8> {
    spec_hash_bytes(
        "tensor-vm-public-service-content-v1".spec_bytes(),
        seq![
            spec_evidence_tag(kind),
            endpoint_id,
            encode_utf8(public_url),
            encode_utf8(content_path),
            content_root,
            spec_u64_to_le_bytes(observed_at_unix_seconds),
            spec_u64_to_le_bytes(min_content_bytes),
        ],
    )
}

pub fn public_service_content_message(
    kind: PublicServiceKind,
    endpoint_id: &Hash32,
    public_url: &str,
    content_path: &str,
    content_root: &Hash32,
    observed_at_unix_seconds: u64,
    min_content_bytes: u64,
) -> (out: Hash32)
    ensures
        out@ == spec_service_content_message(
            kind,
            endpoint_id@,
            public_url@,
            content_path@,
            content_root@,
            observed_at_unix_seconds,
            min_content_bytes,
        ),
{
    let observed = u64_bytes(observed_at_unix_seconds);
    let min_bytes = u64_bytes(min_content_bytes);
    let parts: Vec<&[u8]> = vec![
        kind.evidence_tag(),
        endpoint_id.as_slice(),
        public_url.as_bytes(),
        content_path.as_bytes(),
        content_root.as_slice(),
        observed.as_slice(),
        min_bytes.as_slice(),
    ];
    let out = hash_bytes("tensor-vm-public-service-content-v1".as_bytes(), parts.as_slice());
    assert(slices_view(parts@) =~= seq![
        spec_evidence_tag(kind),
        endpoint_id@,
        encode_utf8(public_url@),
        encode_utf8(content_path@),
        content_root@,
        spec_u64_to_le_bytes(observed_at_unix_seconds),
        spec_u64_to_le_bytes(min_content_bytes),
    ]);
    out
}

/// The message a node's heartbeat evidence is signed over.
pub open spec fn spec_node_heartbeat_message(
    address: Seq<u8>,
    operator_id: Seq<u8>,
    role: PublicNodeRole,
    first_seen_block: u64,
    last_seen_block: u64,
    signed_heartbeat_count: u64,
) -> Seq<u8> {
    spec_hash_bytes(
        "tensor-vm-public-node-heartbeat-v1".spec_bytes(),
        seq![
            address,
            operator_id,
            spec_role_tag(role),
            spec_u64_to_le_bytes(first_seen_block),
            spec_u64_to_le_bytes(last_seen_block),
            spec_u64_to_le_bytes(signed_heartbeat_count),
        ],
    )
}

pub fn public_node_heartbeat_message(
    address: &Address,
    operator_id: &Hash32,
    role: PublicNodeRole,
    first_seen_block: u64,
    last_seen_block: u64,
    signed_heartbeat_count: u64,
) -> (out: Hash32)
    ensures
        out@ == spec_node_heartbeat_message(
            address@,
            operator_id@,
            role,
            first_seen_block,
            last_seen_block,
            signed_heartbeat_count,
        ),
{
    let first = u64_bytes(first_seen_block);
    let last = u64_bytes(last_seen_block);
    let count = u64_bytes(signed_heartbeat_count);
    let parts: Vec<&[u8]> = vec![
        address.as_slice(),
        operator_id.as_slice(),
        role.tag(),
        first.as_slice(),
        last.as_slice(),
        count.as_slice(),
    ];
    let out = hash_bytes("tensor-vm-public-node-heartbeat-v1".as_bytes(), parts.as_slice());
    assert(slices_view(parts@) =~= seq![
        address@,
        operator_id@,
        spec_role_tag(role),
        spec_u64_to_le_bytes(first_seen_block),
        spec_u64_to_le_bytes(last_seen_block),
        spec_u64_to_le_bytes(signed_heartbeat_count),
    ]);
    out
}

/// The message an operator's identity attestation is signed over.
pub open spec fn spec_operator_identity_message(
    role: PublicNodeRole,
    address: Seq<u8>,
    operator_id: Seq<u8>,
    identity_uri: Seq<char>,
    observed_at_unix_seconds: u64,
) -> Seq<u8> {
    spec_hash_bytes(
        "tensor-vm-public-operator-identity-v1".spec_bytes(),
        seq![
            spec_role_tag(role),
            address,
            operator_id,
            encode_utf8(identity_uri),
            spec_u64_to_le_bytes(observed_at_unix_seconds),
        ],
    )
}

pub fn public_operator_identity_message(
    role: PublicNodeRole,
    address: &Address,
    operator_id: &Hash32,
    identity_uri: &str,
    observed_at_unix_seconds: u64,
) -> (out: Hash32)
    ensures
        out@ == spec_operator_identity_message(role, address@, operator_id@, identity_uri@, observed_at_unix_seconds),
{
    let observed = u64_bytes(observed_at_unix_seconds);
    let parts: Vec<&[u8]> = vec![
        role.tag(),
        address.as_slice(),
        operator_id.as_slice(),
        identity_uri.as_bytes(),
        observed.as_slice(),
    ];
    let out = hash_bytes("tensor-vm-public-operator-identity-v1".as_bytes(), parts.as_slice());
    assert(slices_view(parts@) =~= seq![
        spec_role_tag(role),
        address@,
        operator_id@,
        encode_utf8(identity_uri@),
        spec_u64_to_le_bytes(observed_at_unix_seconds),
    ]);
    out
}

/// The message an evidence bundle's manifest is signed over.
pub open spec fn spec_evidence_manifest_message(
    bundle_id: Seq<u8>,
    public_uri: Seq<char>,
    manifest_signature_count: u64,
    independent_auditor_count: u64,
) -> Seq<u8> {
    spec_hash_bytes(
        "tensor-vm-public-evidence-manifest-v1".spec_bytes(),
        seq![
            bundle_id,
            encode_utf8(public_uri),
            spec_u64_to_le_bytes(manifest_signature_count),
            spec_u64_to_le_bytes(independent_auditor_count),
        ],
    )
}

pub fn public_evidence_manifest_message(
    bundle_id: &Hash32,
    public_uri: &str,
    manifest_signature_count: u64,
    independent_auditor_count: u64,
) -> (out: Hash32)
    ensures
        out@ == spec_evidence_manifest_message(bundle_id@, public_uri@, manifest_signature_count, independent_auditor_count),
{
    let signatures = u64_bytes(manifest_signature_count);
    let auditors = u64_bytes(independent_auditor_count);
    let parts: Vec<&[u8]> = vec![
        bundle_id.as_slice(),
        public_uri.as_bytes(),
        signatures.as_slice(),
        auditors.as_slice(),
    ];
    let out = hash_bytes("tensor-vm-public-evidence-manifest-v1".as_bytes(), parts.as_slice());
    assert(slices_view(parts@) =~= seq![
        bundle_id@,
        encode_utf8(public_uri@),
        spec_u64_to_le_bytes(manifest_signature_count),
        spec_u64_to_le_bytes(independent_auditor_count),
    ]);
    out
}

/// The message an auditor's record of a bundle is signed over.
pub open spec fn spec_evidence_auditor_message(
    bundle_id: Seq<u8>,
    public_uri: Seq<char>,
    auditor_id: Seq<u8>,
    audit_uri: Seq<char>,
    observed_at_unix_seconds: u64,
) -> Seq<u8> {
    spec_hash_bytes(
        "tensor-vm-public-evidence-auditor-v1".spec_bytes(),
        seq![
            bundle_id,
            encode_utf8(public_uri),
            auditor_id,
            encode_utf8(audit_uri),
            spec_u64_to_le_bytes(observed_at_unix_seconds),
        ],
    )
}

pub fn public_evidence_auditor_message(
    bundle_id: &Hash32,
    public_uri: &str,
    auditor_id: &Address,
    audit_uri: &str,
    observed_at_unix_seconds: u64,
) -> (out: Hash32)
    ensures
        out@ == spec_evidence_auditor_message(bundle_id@, public_uri@, auditor_id@, audit_uri@, observed_at_unix_seconds),
{
    let observed = u64_bytes(observed_at_unix_seconds);
    let parts: Vec<&[u8]> = vec![
        bundle_id.as_slice(),
        public_uri.as_bytes(),
        auditor_id.as_slice(),
        audit_uri.as_bytes(),
        observed.as_slice(),
    ];
    let out = hash_bytes("tensor-vm-public-evidence-auditor-v1".as_bytes(), parts.as_slice());
    assert(slices_view(parts@) =~= seq![
        bundle_id@,
        encode_utf8(public_uri@),
        auditor_id@,
        encode_utf8(audit_uri@),
        spec_u64_to_le_bytes(observed_at_unix_seconds),
    ]);
    out
}

} // verus!
