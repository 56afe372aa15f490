use vstd::prelude::*;
use vstd::string::{StrSliceExecFns, StringSliceAdditionalSpecFns};
use crate::testnet::config::PUBLIC_SERVICE_MIN_CONTENT_BYTES;
use crate::types::{Hash32, Signature, hash_is_zero, is_zero_hash, sign, spec_sign, verify_signature};
use crate::testnet::evidence_messages::{
    public_service_content_message, public_service_health_message, spec_service_content_message,
    spec_service_health_message,
};

verus! {

/// The public services a testnet deploys.
#[derive(Clone, Copy, Debug, PartialEq, Eq, Structural)]
pub enum PublicServiceKind {
    Rpc,
    Explorer,
    Faucet,
    Telemetry,
}

/// The tag a service kind is named by in signed evidence.
pub open spec fn spec_evidence_tag(kind: PublicServiceKind) -> Seq<u8> {
    match kind {
        PublicServiceKind::Rpc => "rpc".spec_bytes(),
        PublicServiceKind::Explorer => "explorer".spec_bytes(),
        PublicServiceKind::Faucet => "faucet".spec_bytes(),
        PublicServiceKind::Telemetry => "telemetry".spec_bytes(),
    }
}

/// The path that serves a service kind's public content.
pub open spec fn spec_content_path(kind: PublicServiceKind) -> Seq<char> {
    match kind {
        PublicServiceKind::Rpc => "/chain/head"@,
        PublicServiceKind::Explorer => "/explorer"@,
        PublicServiceKind::Faucet => "/faucet/page"@,
        PublicServiceKind::Telemetry => "/telemetry/dashboard"@,
    }
}

impl PublicServiceKind {
    pub fn evidence_tag(self) -> (out: &'static [u8])
        ensures
            out@ == spec_evidence_tag(self),
    {
        match self {
            PublicServiceKind::Rpc => "rpc".as_bytes(),
            PublicServiceKind::Explorer => "explorer".as_bytes(),
            PublicServiceKind::Faucet => "faucet".as_bytes(),
            PublicServiceKind::Telemetry => "telemetry".as_bytes(),
        }
    }

    pub fn content_path(self) -> (out: &'static str)
        ensures
            out@ == spec_content_path(self),
    {
        match self {
            PublicServiceKind::Rpc => "/chain/head",
            PublicServiceKind::Explorer => "/explorer",
            PublicServiceKind::Faucet => "/faucet/page",
            PublicServiceKind::Telemetry => "/telemetry/dashboard",
        }
    }
}

/// Every service kind, in deployment order.
pub fn public_service_kinds() -> (out: [PublicServiceKind; 4])
    ensures
        out@ == seq![PublicServiceKind::Rpc, PublicServiceKind::Explorer, PublicServiceKind::Faucet, PublicServiceKind::Telemetry],
{
    let out = [PublicServiceKind::Rpc, PublicServiceKind::Explorer, PublicServiceKind::Faucet, PublicServiceKind::Telemetry];
    assert(out@ =~= seq![PublicServiceKind::Rpc, PublicServiceKind::Explorer, PublicServiceKind::Faucet, PublicServiceKind::Telemetry]);
    out
}

/// Where a public service answers health checks.
#[derive(Clone, Debug, PartialEq, Eq)]
pub struct PublicServiceEndpoint {
    pub endpoint_id: Hash32,
    pub public_url: String,
    pub health_path: String,
}

impl PublicServiceEndpoint {
    pub fn new(endpoint_id: Hash32, public_url: &str, health_path: &str) -> (out: Self)
        ensures
            out.endpoint_id == endpoint_id,
            out.public_url@ == public_url@,
            out.health_path@ == health_path@,
    {
        PublicServiceEndpoint { endpoint_id, public_url: public_url.to_owned(), health_path: health_path.to_owned() }
    }
}

/// Evidence that a service stayed reachable over a range of blocks, signed
/// by its endpoint.
#[derive(Clone, Debug, PartialEq, Eq)]
pub struct PublicServiceEvidence {
    pub kind: PublicServiceKind,
    pub endpoint_id: Hash32,
    pub public_url: String,
    pub health_path: String,
    pub first_seen_block: u64,
    pub last_seen_block: u64,
    pub reachable_observation_count: u64,
    pub signed_health_check_count: u64,
    pub health_check_signature: Signature,
}

/// Whether the evidence carries its endpoint's signature over its fields.
pub open spec fn health_check_signed(e: PublicServiceEvidence) -> bool {
    e.health_check_signature@ == spec_sign(
        e.endpoint_id@,
        spec_service_health_message(
            e.kind,
            e.endpoint_id@,
            e.public_url@,
            e.health_path@,
            e.first_seen_block,
            e.last_seen_block,
            e.reachable_observation_count,
            e.signed_health_check_count,
        ),
    )
}

/// Whether evidence spanning from block `first` to block `last` covers a run
/// of `observed_blocks` blocks: an empty run is always covered, else the
/// evidence starts at block zero and reaches the last block.
pub open spec fn spec_covers_run(first: u64, last: u64, observed_blocks: u64) -> bool {
    observed_blocks == 0 || (first == 0 && (if last == u64::MAX { u64::MAX as int } else { last + 1 }) >= observed_blocks)
}

/// Whether evidence proves a reachable endpoint: a non-zero endpoint id,
/// a health URL that is external (`health_url_external`, the verdict of the
/// public URL rules on the endpoint), a seen-window that is not reversed,
/// at least one reachable observation and signed health check, no more
/// observations than signed checks, and a valid health signature.
pub open spec fn spec_reachable_endpoint(e: PublicServiceEvidence, health_url_external: bool) -> bool {
    &&& !is_zero_hash(e.endpoint_id)
    &&& health_url_external
    &&& e.last_seen_block >= e.first_seen_block
    &&& e.reachable_observation_count > 0
    &&& e.signed_health_check_count > 0
    &&& e.reachable_observation_count <= e.signed_health_check_count
    &&& health_check_signed(e)
}

/// Whether evidence has at least one reachable observation and signed
/// health check per observed block.
pub open spec fn spec_run_health_coverage(e: PublicServiceEvidence, observed_blocks: u64) -> bool {
    observed_blocks == 0 || (e.reachable_observation_count >= observed_blocks
        && e.signed_health_check_count >= observed_blocks)
}

/// Whether a service was reachable through a run of `observed_blocks`.
pub open spec fn spec_reachable_for_run(e: PublicServiceEvidence, observed_blocks: u64, health_url_external: bool) -> bool {
    spec_covers_run(e.first_seen_block, e.last_seen_block, observed_blocks)
        && spec_reachable_endpoint(e, health_url_external)
        && spec_run_health_coverage(e, observed_blocks)
}

/// Coverage of a run covers every shorter run.
pub proof fn lemma_covers_shorter_runs(first: u64, last: u64, n: u64, m: u64)
    requires
        m <= n,
        spec_covers_run(first, last, n),
    ensures
        spec_covers_run(first, last, m),
{
}

/// A service reachable for a run covers the run, and was seen reachable
/// and had its health signed at least once per observed block.
pub proof fn lemma_reachable_implies_coverage(e: PublicServiceEvidence, observed_blocks: u64, health_url_external: bool)
    requires
        spec_reachable_for_run(e, observed_blocks, health_url_external),
    ensures
        spec_covers_run(e.first_seen_block, e.last_seen_block, observed_blocks),
        spec_reachable_endpoint(e, health_url_external),
        observed_blocks == 0 || (e.reachable_observation_count >= observed_blocks
            && e.signed_health_check_count >= observed_blocks),
{
}

impl PublicServiceEvidence {
    /// Whether the evidence proves a reachable endpoint; whether the health
    /// URL is external is the verdict of the public URL rules, passed in.
    pub fn has_reachable_endpoint_proof(&self, health_url_external: bool) -> (out: bool)
        ensures
            out == spec_reachable_endpoint(*self, health_url_external),
    {
        !hash_is_zero(&self.endpoint_id)
            && health_url_external
            && self.last_seen_block >= self.first_seen_block
            && self.reachable_observation_count > 0
            && self.signed_health_check_count > 0
            && self.reachable_observation_count <= self.signed_health_check_count
            && self.signed_health_check_valid()
    }

    /// Whether the service was reachable through a run of `observed_blocks`:
    /// it covers the run, proves a reachable endpoint, and was observed and
    /// signed once per block.
    pub fn is_reachable_for_run(&self, observed_blocks: u64, health_url_external: bool) -> (out: bool)
        ensures
            out == spec_reachable_for_run(*self, observed_blocks, health_url_external),
    {
        self.covers_run(observed_blocks)
            && self.has_reachable_endpoint_proof(health_url_external)
            && self.has_run_health_coverage(observed_blocks)
    }

    /// Whether the service was seen reachable, and its health signed, at
    /// least once per observed block (trivially so when none was observed).
    pub fn has_run_health_coverage(&self, observed_blocks: u64) -> (out: bool)
        ensures
            out == (observed_blocks == 0 || (self.reachable_observation_count >= observed_blocks
                && self.signed_health_check_count >= observed_blocks)),
    {
        observed_blocks == 0 || (self.reachable_observation_count >= observed_blocks
            && self.signed_health_check_count >= observed_blocks)
    }

    /// Evidence for `endpoint`, signed by its endpoint id.
    pub fn new(
        kind: PublicServiceKind,
        endpoint: PublicServiceEndpoint,
        first_seen_block: u64,
        last_seen_block: u64,
        reachable_observation_count: u64,
        signed_health_check_count: u64,
    ) -> (out: Self)
        ensures
            out.kind == kind,
            out.endpoint_id == endpoint.endpoint_id,
            out.public_url == endpoint.public_url,
            out.health_path == endpoint.health_path,
            out.first_seen_block == first_seen_block,
            out.last_seen_block == last_seen_block,
            out.reachable_observation_count == reachable_observation_count,
            out.signed_health_check_count == signed_health_check_count,
            health_check_signed(out),
    {
        let message = public_service_health_message(
            kind,
            &endpoint,
            first_seen_block,
            last_seen_block,
            reachable_observation_count,
            signed_health_check_count,
        );
        let endpoint_id = endpoint.endpoint_id;
        PublicServiceEvidence {
            kind,
            endpoint_id,
            public_url: endpoint.public_url,
            health_path: endpoint.health_path,
            first_seen_block,
            last_seen_block,
            reachable_observation_count,
            signed_health_check_count,
            health_check_signature: sign(&endpoint_id, &message),
        }
    }

    pub fn covers_run(&self, observed_blocks: u64) -> (out: bool)
        ensures
            out == spec_covers_run(self.first_seen_block, self.last_seen_block, observed_blocks),
    {
        observed_blocks == 0 || (self.first_seen_block == 0 && self.last_seen_block.saturating_add(1) >= observed_blocks)
    }

    pub fn signed_health_check_valid(&self) -> (out: bool)
        ensures
            out == health_check_signed(*self),
    {
        let endpoint = self.endpoint();
        let message = public_service_health_message(
            self.kind,
            &endpoint,
            self.first_seen_block,
            self.last_seen_block,
            self.reachable_observation_count,
            self.signed_health_check_count,
        );
        verify_signature(&self.endpoint_id, &message, &self.health_check_signature)
    }

    fn endpoint(&self) -> (out: PublicServiceEndpoint)
        ensures
            out.endpoint_id == self.endpoint_id,
            out.public_url == self.public_url,
            out.health_path == self.health_path,
    {
        PublicServiceEndpoint {
            endpoint_id: self.endpoint_id,
            public_url: self.public_url.clone(),
            health_path: self.health_path.clone(),
        }
    }
}

/// Evidence that a service served its public content, signed by its
/// endpoint.
#[derive(Clone, Debug, PartialEq, Eq)]
pub struct PublicServiceContentEvidence {
    pub kind: PublicServiceKind,
    pub endpoint_id: Hash32,
    pub public_url: String,
    pub content_path: String,
    pub content_root: Hash32,
    pub observed_at_unix_seconds: u64,
    pub min_content_bytes: u64,
    pub content_signature: Signature,
}

/// Whether the content evidence carries its endpoint's signature over its
/// fields.
pub open spec fn content_signed(e: PublicServiceContentEvidence) -> bool {
    e.content_signature@ == spec_sign(
        e.endpoint_id@,
        spec_service_content_message(
            e.kind,
            e.endpoint_id@,
            e.public_url@,
            e.content_path@,
            e.content_root@,
            e.observed_at_unix_seconds,
            e.min_content_bytes,
        ),
    )
}

impl PublicServiceContentEvidence {
    /// Whether the evidence proves external content: non-zero endpoint id
    /// and content root, an observation time, at least
    /// `PUBLIC_SERVICE_MIN_CONTENT_BYTES` bytes, the kind's content path, a
    /// public URL whose host is external and whose path is the kind's content
    /// path (`url_external_with_content_path`, the verdict of the public URL
    /// rules), and a valid content signature.
    pub fn has_external_content_proof(&self, url_external_with_content_path: bool) -> (out: bool)
        ensures
            out == (!is_zero_hash(self.endpoint_id) && !is_zero_hash(self.content_root)
                && self.observed_at_unix_seconds > 0 && self.min_content_bytes >= PUBLIC_SERVICE_MIN_CONTENT_BYTES
                && url_external_with_content_path && self.content_path@ == spec_content_path(self.kind)
                && content_signed(*self)),
    {
        !hash_is_zero(&self.endpoint_id) && !hash_is_zero(&self.content_root) && self.observed_at_unix_seconds > 0
            && self.min_content_bytes >= PUBLIC_SERVICE_MIN_CONTENT_BYTES && url_external_with_content_path
            && crate::text::str_eq(self.content_path.as_str(), self.kind.content_path()) && self.content_signature_valid()
    }

    pub fn new(
        kind: PublicServiceKind,
        endpoint_id: Hash32,
        public_url: &str,
        content_path: &str,
        content_root: Hash32,
        observed_at_unix_seconds: u64,
        min_content_bytes: u64,
    ) -> (out: Self)
        ensures
            out.kind == kind,
            out.endpoint_id == endpoint_id,
            out.public_url@ == public_url@,
            out.content_path@ == content_path@,
            out.content_root == content_root,
            out.observed_at_unix_seconds == observed_at_unix_seconds,
            out.min_content_bytes == min_content_bytes,
            content_signed(out),
    {
        let message = public_service_content_message(
            kind,
            &endpoint_id,
            public_url,
            content_path,
            &content_root,
            observed_at_unix_seconds,
            min_content_bytes,
        );
        PublicServiceContentEvidence {
            kind,
            endpoint_id,
            public_url: public_url.to_owned(),
            content_path: content_path.to_owned(),
            content_root,
            observed_at_unix_seconds,
            min_content_bytes,
            content_signature: sign(&endpoint_id, &message),
        }
    }

    pub fn content_signature_valid(&self) -> (out: bool)
        ensures
            out == content_signed(*self),
    {
        let message = public_service_content_message(
            self.kind,
            &self.endpoint_id,
            self.public_url.as_str(),
            self.content_path.as_str(),
            &self.content_root,
            self.observed_at_unix_seconds,
            self.min_content_bytes,
        );
        verify_signature(&self.endpoint_id, &message, &self.content_signature)
    }
}

} // verus!
