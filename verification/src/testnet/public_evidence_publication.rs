use vstd::prelude::*;
use crate::types::{Address, Hash32, Signature, hash_is_zero, is_zero_hash, sign, spec_sign, verify_signature};
use crate::testnet::evidence_messages::{
    public_evidence_auditor_message, public_evidence_manifest_message, spec_evidence_auditor_message,
    spec_evidence_manifest_message,
};

verus! {

/// Where an evidence bundle is published, and its manifest signature.
#[derive(Clone, Debug, PartialEq, Eq)]
pub struct PublicEvidencePublication {
    pub bundle_id: Hash32,
    pub public_uri: String,
    pub manifest_signer: Address,
    pub manifest_signature: Signature,
    pub manifest_signature_count: u64,
    pub independent_auditor_count: u64,
}

/// Whether the publication carries its signer's signature over its fields.
pub open spec fn manifest_signed(p: PublicEvidencePublication) -> bool {
    p.manifest_signature@ == spec_sign(
        p.manifest_signer@,
        spec_evidence_manifest_message(p.bundle_id@, p.public_uri@, p.manifest_signature_count, p.independent_auditor_count),
    )
}

impl PublicEvidencePublication {
    /// Whether the bundle is published and can be checked by others: a
    /// non-zero bundle id and signer, a public URI that is external
    /// (`public_uri_external`, the verdict of the public URL rules), exactly
    /// one valid manifest signature and at least one independent auditor.
    pub fn is_published_and_independently_checkable(&self, public_uri_external: bool) -> (out: bool)
        ensures
            out == (!is_zero_hash(self.bundle_id) && public_uri_external && !is_zero_hash(self.manifest_signer)
                && self.manifest_signature_count == 1 && manifest_signed(*self) && self.independent_auditor_count > 0),
    {
        !hash_is_zero(&self.bundle_id) && public_uri_external && !hash_is_zero(&self.manifest_signer)
            && self.manifest_signature_count == 1 && self.manifest_signature_valid() && self.independent_auditor_count > 0
    }

    pub fn new(
        bundle_id: Hash32,
        public_uri: String,
        manifest_signer: Address,
        manifest_signature_count: u64,
        independent_auditor_count: u64,
    ) -> (out: Self)
        ensures
            out.bundle_id == bundle_id,
            out.public_uri == public_uri,
            out.manifest_signer == manifest_signer,
            out.manifest_signature_count == manifest_signature_count,
            out.independent_auditor_count == independent_auditor_count,
            manifest_signed(out),
    {
        let message = public_evidence_manifest_message(
            &bundle_id,
            public_uri.as_str(),
            manifest_signature_count,
            independent_auditor_count,
        );
        PublicEvidencePublication {
            bundle_id,
            public_uri,
            manifest_signer,
            manifest_signature: sign(&manifest_signer, &message),
            manifest_signature_count,
            independent_auditor_count,
        }
    }

    pub fn manifest_signature_valid(&self) -> (out: bool)
        ensures
            out == manifest_signed(*self),
    {
        let message = public_evidence_manifest_message(
            &self.bundle_id,
            self.public_uri.as_str(),
            self.manifest_signature_count,
            self.independent_auditor_count,
        );
        verify_signature(&self.manifest_signer, &message, &self.manifest_signature)
    }
}

/// An independent auditor's signed record of having checked a bundle.
#[derive(Clone, Debug, PartialEq, Eq)]
pub struct PublicEvidenceAuditorRecord {
    pub auditor_id: Address,
    pub audit_uri: String,
    pub observed_at_unix_seconds: u64,
    pub auditor_signature: Signature,
}

/// Whether the record carries its auditor's signature for the given bundle.
pub open spec fn auditor_signed(r: PublicEvidenceAuditorRecord, bundle_id: Seq<u8>, public_uri: Seq<char>) -> bool {
    r.auditor_signature@ == spec_sign(
        r.auditor_id@,
        spec_evidence_auditor_message(bundle_id, public_uri, r.auditor_id@, r.audit_uri@, r.observed_at_unix_seconds),
    )
}

impl PublicEvidenceAuditorRecord {
    /// Whether the record proves an external audit of a bundle: non-zero
    /// auditor and bundle ids, an observation time, a public URI and an audit
    /// URI that are external (the verdicts of the public URL rules), and a
    /// valid auditor signature.
    pub fn has_external_auditor_proof(
        &self,
        bundle_id: &Hash32,
        public_uri: &str,
        public_uri_external: bool,
        audit_uri_external: bool,
    ) -> (out: bool)
        ensures
            out == (!is_zero_hash(self.auditor_id) && !is_zero_hash(*bundle_id) && self.observed_at_unix_seconds > 0
                && public_uri_external && audit_uri_external && auditor_signed(*self, bundle_id@, public_uri@)),
    {
        !hash_is_zero(&self.auditor_id) && !hash_is_zero(bundle_id) && self.observed_at_unix_seconds > 0
            && public_uri_external && audit_uri_external && self.auditor_signature_valid(bundle_id, public_uri)
    }

    pub fn new(
        bundle_id: &Hash32,
        public_uri: &str,
        auditor_id: Address,
        audit_uri: &str,
        observed_at_unix_seconds: u64,
    ) -> (out: Self)
        ensures
            out.auditor_id == auditor_id,
            out.audit_uri@ == audit_uri@,
            out.observed_at_unix_seconds == observed_at_unix_seconds,
            auditor_signed(out, bundle_id@, public_uri@),
    {
        let message = public_evidence_auditor_message(bundle_id, public_uri, &auditor_id, audit_uri, observed_at_unix_seconds);
        PublicEvidenceAuditorRecord {
            auditor_id,
            audit_uri: audit_uri.to_owned(),
            observed_at_unix_seconds,
            auditor_signature: sign(&auditor_id, &message),
        }
    }

    pub fn auditor_signature_valid(&self, bundle_id: &Hash32, public_uri: &str) -> (out: bool)
        ensures
            out == auditor_signed(*self, bundle_id@, public_uri@),
    {
        let message = public_evidence_auditor_message(
            bundle_id,
            public_uri,
            &self.auditor_id,
            self.audit_uri.as_str(),
            self.observed_at_unix_seconds,
        );
        verify_signature(&self.auditor_id, &message, &self.auditor_signature)
    }
}

} // verus!
