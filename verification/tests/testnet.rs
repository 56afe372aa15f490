use tensor_vm::error::TvmError;
use tensor_vm::hash::hex;
use tensor_vm::profile::ChainProfile;
use tensor_vm::testnet::config::{
    public_testnet_criteria_are_full_spec, ratio_parts_to_bps, required_blocks_for_days,
    required_duration_seconds_for_days, PublicTestnetCriteria, TestnetConfig,
};
use tensor_vm::testnet::public_evidence_publication::{
    PublicEvidenceAuditorRecord, PublicEvidencePublication,
};
use tensor_vm::testnet::public_node_evidence::{
    PublicNodeEvidence, PublicNodeRole, PublicOperatorIdentityAttestation,
};
use tensor_vm::testnet::public_preflight_manifest::parse_public_testnet_preflight_manifest;
use tensor_vm::testnet::public_services::{
    PublicServiceContentEvidence, PublicServiceEndpoint, PublicServiceEvidence, PublicServiceKind,
};
use tensor_vm::types::{address, hash_bytes};

fn preflight_manifest(services: &str) -> String {
    format!(
        "# preflight\nversion=tensor-vm-public-testnet-preflight-v1\nminer_count=10\nvalidator_count=5\n\
miner_stake=100\nvalidator_stake=10000\nfaucet_balance=1000000\nfaucet_drip=100\n\
cuda_kernels_available=true\ncuda_ready_miner_count=10\nlibp2p_ready_node_count=15\n\
libp2p_runtime_used=true\npeer_discovery_observed=true\ngossip_propagation_observed=true\n\
request_response_observed=true\ndos_controls_enabled=false\n{services}"
    )
}

#[test]
fn testnet_config_defaults_and_profile() {
    assert_eq!(TestnetConfig::default(), TestnetConfig::from_profile(&ChainProfile::local_cpu()));
    let criteria = PublicTestnetCriteria::default();
    assert_eq!(criteria.duration_days, 7);
    assert!(public_testnet_criteria_are_full_spec(&criteria));
    let weaker = PublicTestnetCriteria { min_miners: 9, ..criteria };
    assert!(!public_testnet_criteria_are_full_spec(&weaker));
}

#[test]
fn ratios_and_durations() {
    assert_eq!(ratio_parts_to_bps(1, 0), 0);
    assert_eq!(ratio_parts_to_bps(19, 20), 9_500);
    assert_eq!(ratio_parts_to_bps(30, 20), 10_000);
    assert_eq!(ratio_parts_to_bps(1, 3), 3_333);
    assert_eq!(ratio_parts_to_bps(2, 3), 6_667);
    assert_eq!(required_duration_seconds_for_days(7), 604_800);
    assert_eq!(required_duration_seconds_for_days(u64::MAX), u64::MAX);
    assert_eq!(required_blocks_for_days(7, 0), 604_800);
    assert_eq!(required_blocks_for_days(1, 60), 1_440);
}

#[test]
fn preflight_manifest_parses_complete_plans() {
    let id = hex(&hash_bytes(b"test", &[b"rpc-service"]));
    let services = format!(
        "service=rpc,{id},https://rpc.tensorvm.net/health,/health,https://rpc.tensorvm.net/chain/head,/chain/head,true,true\n\
\n   # indented comment\nservice=faucet,{id},https://faucet.tensorvm.net/health,/health,https://faucet.tensorvm.net/faucet/page,/faucet/page,false,true\r\n"
    );
    let plan = parse_public_testnet_preflight_manifest(&preflight_manifest(&services)).unwrap();
    assert_eq!(plan.config, TestnetConfig::default());
    assert_eq!(plan.criteria, PublicTestnetCriteria::default());
    assert!(plan.cuda_kernels_available);
    assert_eq!(plan.libp2p_ready_node_count, 15);
    assert!(!plan.network_runtime.dos_controls_enabled);
    assert_eq!(plan.services.len(), 2);
    assert_eq!(plan.services[0].kind, PublicServiceKind::Rpc);
    assert_eq!(plan.services[0].endpoint_id, hash_bytes(b"test", &[b"rpc-service"]));
    assert_eq!(plan.services[0].content_path, "/chain/head");
    assert_eq!(plan.services[1].kind, PublicServiceKind::Faucet);
    assert!(!plan.services[1].auth_enabled);
}

#[test]
fn preflight_manifest_reports_each_error() {
    let base = preflight_manifest("");
    let err = |text: &str| parse_public_testnet_preflight_manifest(text).unwrap_err();
    assert_eq!(err(""), TvmError::InvalidReceipt("missing preflight manifest version"));
    assert_eq!(err("miner_count"), TvmError::InvalidReceipt("malformed preflight manifest line"));
    assert_eq!(err(" miner_count=1"), TvmError::InvalidReceipt("malformed manifest field key"));
    assert_eq!(err("miner_count= 1"), TvmError::InvalidReceipt("malformed manifest scalar value"));
    assert_eq!(err("miner_count=x"), TvmError::InvalidReceipt("invalid evidence manifest number"));
    assert_eq!(err("miner_count=1\nminer_count=2"), TvmError::InvalidReceipt("duplicate preflight manifest field"));
    assert_eq!(err("version=v0"), TvmError::InvalidReceipt("unsupported preflight manifest version"));
    assert_eq!(err("colour=blue"), TvmError::InvalidReceipt("unknown preflight manifest field"));
    assert_eq!(err("cuda_kernels_available=yes"), TvmError::InvalidReceipt("invalid evidence manifest boolean"));
    assert_eq!(
        err("version=tensor-vm-public-testnet-preflight-v1"),
        TvmError::InvalidReceipt("missing evidence manifest number")
    );
    assert_eq!(
        err(&base.replace("dos_controls_enabled=false\n", "")),
        TvmError::InvalidReceipt("missing evidence manifest boolean")
    );
    assert_eq!(err(&format!("{base}service=rpc,a,b")), TvmError::InvalidReceipt("malformed preflight service plan"));
    let id = hex(&hash_bytes(b"test", &[b"x"]));
    assert_eq!(
        err(&format!("{base}service=ftp,{id},u,/h,c,/c,true,true")),
        TvmError::InvalidReceipt("unknown service evidence kind")
    );
    assert_eq!(
        err(&format!("{base}service=rpc,abc,u,/h,c,/c,true,true")),
        TvmError::InvalidReceipt("invalid evidence hash length")
    );
    assert_eq!(
        err(&format!("{base}service=rpc,{id},u,/h,c,/c,true,maybe")),
        TvmError::InvalidReceipt("invalid evidence manifest boolean")
    );
}

#[test]
fn evidence_is_signed_by_its_maker_and_tampering_is_detected() {
    let endpoint = PublicServiceEndpoint::new(hash_bytes(b"test", &[b"rpc"]), "https://rpc.tensorvm.net/health", "/health");
    let evidence = PublicServiceEvidence::new(PublicServiceKind::Rpc, endpoint, 0, 9, 10, 10);
    assert!(evidence.signed_health_check_valid());
    assert!(evidence.covers_run(10));
    assert!(!evidence.covers_run(11));
    assert!(evidence.covers_run(0));
    assert!(evidence.has_run_health_coverage(0));
    assert!(evidence.has_run_health_coverage(10));
    assert!(!evidence.has_run_health_coverage(11));
    let mut tampered = evidence.clone();
    tampered.last_seen_block = 10;
    assert!(!tampered.signed_health_check_valid());

    let content = PublicServiceContentEvidence::new(
        PublicServiceKind::Explorer,
        hash_bytes(b"test", &[b"explorer"]),
        "https://explorer.tensorvm.net/explorer",
        "/explorer",
        hash_bytes(b"test", &[b"root"]),
        1_700_000_000,
        64,
    );
    assert!(content.content_signature_valid());
    let mut tampered = content.clone();
    tampered.min_content_bytes = 63;
    assert!(!tampered.content_signature_valid());
    assert_eq!(PublicServiceKind::Telemetry.content_path(), "/telemetry/dashboard");

    let node = PublicNodeEvidence::miner(address(b"miner-a"), hash_bytes(b"test", &[b"op"]), 0, 9, 10);
    assert_eq!(node.role, PublicNodeRole::Miner);
    assert!(node.heartbeat_signature_valid());
    assert!(node.has_external_operator_proof());
    assert!(node.is_live_for_run(10));
    assert!(!node.is_live_for_run(11));
    let zero = PublicNodeEvidence::validator([0; 32], hash_bytes(b"test", &[b"op"]), 0, 9, 10);
    assert!(!zero.has_external_operator_proof());
    let mut forged = node.clone();
    forged.signed_heartbeat_count = 11;
    assert!(!forged.heartbeat_signature_valid());

    let identity = PublicOperatorIdentityAttestation::new(
        PublicNodeRole::Validator,
        address(b"validator-a"),
        hash_bytes(b"test", &[b"op"]),
        "https://tensorvm.net/operators/a",
        1_700_000_000,
    );
    assert!(identity.operator_signature_valid());

    let bundle_id = hash_bytes(b"test", &[b"bundle"]);
    let publication = PublicEvidencePublication::new(
        bundle_id,
        String::from("https://tensorvm.net/evidence.json"),
        address(b"publisher"),
        1,
        1,
    );
    assert!(publication.manifest_signature_valid());
    let auditor = PublicEvidenceAuditorRecord::new(
        &bundle_id,
        "https://tensorvm.net/evidence.json",
        address(b"auditor"),
        "https://auditor.example/report",
        1_700_000_100,
    );
    assert!(auditor.auditor_signature_valid(&bundle_id, "https://tensorvm.net/evidence.json"));
    assert!(!auditor.auditor_signature_valid(&bundle_id, "https://tensorvm.net/other.json"));
}

#[test]
fn evidence_checks_need_every_part_of_their_proof() {
    let endpoint = PublicServiceEndpoint::new(hash_bytes(b"test", &[b"rpc"]), "https://rpc.tensorvm.net/health", "/health");
    let evidence = PublicServiceEvidence::new(PublicServiceKind::Rpc, endpoint, 0, 9, 10, 10);
    assert!(evidence.has_reachable_endpoint_proof(true));
    assert!(!evidence.has_reachable_endpoint_proof(false));
    assert!(evidence.is_reachable_for_run(10, true));
    assert!(evidence.is_reachable_for_run(0, true));
    assert!(!evidence.is_reachable_for_run(11, true));
    assert!(!evidence.is_reachable_for_run(10, false));
    // Reachable for a run implies it covers the run.
    for n in 0..12u64 {
        if evidence.is_reachable_for_run(n, true) {
            assert!(evidence.covers_run(n));
            assert!(evidence.has_run_health_coverage(n));
        }
    }
    let endpoint = PublicServiceEndpoint::new(hash_bytes(b"test", &[b"rpc"]), "https://rpc.tensorvm.net/health", "/health");
    let sparse = PublicServiceEvidence::new(PublicServiceKind::Rpc, endpoint, 0, 9, 5, 10);
    assert!(sparse.covers_run(10));
    assert!(sparse.has_reachable_endpoint_proof(true));
    assert!(!sparse.is_reachable_for_run(10, true));
    assert!(sparse.is_reachable_for_run(5, true));
    let endpoint = PublicServiceEndpoint::new(hash_bytes(b"test", &[b"rpc"]), "https://rpc.tensorvm.net/health", "/health");
    let unsigned_more = PublicServiceEvidence::new(PublicServiceKind::Rpc, endpoint, 0, 9, 10, 9);
    assert!(!unsigned_more.has_reachable_endpoint_proof(true));
    let endpoint = PublicServiceEndpoint::new([0; 32], "https://rpc.tensorvm.net/health", "/health");
    let no_id = PublicServiceEvidence::new(PublicServiceKind::Rpc, endpoint, 0, 9, 10, 10);
    assert!(!no_id.has_reachable_endpoint_proof(true));

    let content = PublicServiceContentEvidence::new(
        PublicServiceKind::Explorer,
        hash_bytes(b"test", &[b"explorer"]),
        "https://explorer.tensorvm.net/explorer",
        "/explorer",
        hash_bytes(b"test", &[b"root"]),
        1_700_000_000,
        64,
    );
    assert!(content.has_external_content_proof(true));
    assert!(!content.has_external_content_proof(false));
    let small = PublicServiceContentEvidence::new(
        PublicServiceKind::Explorer,
        hash_bytes(b"test", &[b"explorer"]),
        "https://explorer.tensorvm.net/explorer",
        "/explorer",
        hash_bytes(b"test", &[b"root"]),
        1_700_000_000,
        63,
    );
    assert!(!small.has_external_content_proof(true));
    let wrong_path = PublicServiceContentEvidence::new(
        PublicServiceKind::Explorer,
        hash_bytes(b"test", &[b"explorer"]),
        "https://explorer.tensorvm.net/other",
        "/other",
        hash_bytes(b"test", &[b"root"]),
        1_700_000_000,
        64,
    );
    assert!(!wrong_path.has_external_content_proof(true));

    let identity = PublicOperatorIdentityAttestation::new(
        PublicNodeRole::Validator,
        address(b"validator-a"),
        hash_bytes(b"test", &[b"op"]),
        "https://tensorvm.net/operators/a",
        1_700_000_000,
    );
    assert!(identity.has_external_identity_proof(true));
    assert!(!identity.has_external_identity_proof(false));
    let mut forged = identity.clone();
    forged.observed_at_unix_seconds = 1;
    assert!(!forged.has_external_identity_proof(true));
    let unobserved = PublicOperatorIdentityAttestation::new(
        PublicNodeRole::Validator,
        address(b"validator-a"),
        hash_bytes(b"test", &[b"op"]),
        "https://tensorvm.net/operators/a",
        0,
    );
    assert!(!unobserved.has_external_identity_proof(true));

    let bundle_id = hash_bytes(b"test", &[b"bundle"]);
    let publication = PublicEvidencePublication::new(
        bundle_id,
        String::from("https://tensorvm.net/evidence.json"),
        address(b"publisher"),
        1,
        1,
    );
    assert!(publication.is_published_and_independently_checkable(true));
    assert!(!publication.is_published_and_independently_checkable(false));
    let unaudited = PublicEvidencePublication::new(
        bundle_id,
        String::from("https://tensorvm.net/evidence.json"),
        address(b"publisher"),
        1,
        0,
    );
    assert!(!unaudited.is_published_and_independently_checkable(true));
    let twice_signed = PublicEvidencePublication::new(
        bundle_id,
        String::from("https://tensorvm.net/evidence.json"),
        address(b"publisher"),
        2,
        1,
    );
    assert!(!twice_signed.is_published_and_independently_checkable(true));

    let auditor = PublicEvidenceAuditorRecord::new(
        &bundle_id,
        "https://tensorvm.net/evidence.json",
        address(b"auditor"),
        "https://auditor.example/report",
        1_700_000_100,
    );
    assert!(auditor.has_external_auditor_proof(&bundle_id, "https://tensorvm.net/evidence.json", true, true));
    assert!(!auditor.has_external_auditor_proof(&bundle_id, "https://tensorvm.net/evidence.json", true, false));
    assert!(!auditor.has_external_auditor_proof(&bundle_id, "https://tensorvm.net/evidence.json", false, true));
    assert!(!auditor.has_external_auditor_proof(&bundle_id, "https://tensorvm.net/other.json", true, true));
    assert!(!auditor.has_external_auditor_proof(&[0; 32], "https://tensorvm.net/evidence.json", true, true));
}
