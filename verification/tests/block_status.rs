use tensor_vm::block_status::{
    block_status_at_height, block_status_report, classify_block_receipts, find_block_at_height, count_valid_votes, decimal_text, key_value_report,
    BlockReceiptFacts, BlockStatusInputs, BlockVoteFacts, ReceiptKind,
};
use tensor_vm::block_status::{
    runtime_report, service_status_report, RuntimeReportInputs, ServiceStatusInputs, StatusBlockFacts,
};
use tensor_vm::hash::hex;
use tensor_vm::node::runtime_state::NetworkEventIngest;

fn vote(v: u8, stake: u64, signature_valid: bool) -> BlockVoteFacts {
    BlockVoteFacts { validator: [v; 32], stake, signature_valid }
}

fn receipt(id: u8, at: u64, settled: bool, kind: ReceiptKind) -> BlockReceiptFacts {
    BlockReceiptFacts { receipt_id: [id; 32], submitted_at_block: at, settled, kind }
}

#[test]
fn votes_count_once_per_registered_validator_with_matching_stake() {
    let validators = vec![([1u8; 32], 10), ([2u8; 32], 5)];
    let votes = vec![vote(1, 10, true), vote(1, 10, true), vote(2, 4, true), vote(3, 7, true), vote(2, 5, false), vote(2, 5, true)];
    let (counted, stake) = count_valid_votes(&votes, &validators);
    assert_eq!(counted, vec![[1u8; 32], [2u8; 32]]);
    assert_eq!(stake, 15);
    assert_eq!(count_valid_votes(&[], &validators), (Vec::new(), 0));
}

#[test]
fn receipts_are_sorted_by_kind_and_settlement() {
    let receipts = vec![
        receipt(1, 5, true, ReceiptKind::TensorOp),
        receipt(2, 4, true, ReceiptKind::TensorOp),
        receipt(3, 5, false, ReceiptKind::LinearTrainingStep),
    ];
    let (all, ops, linear, settled) = classify_block_receipts(&receipts, 5);
    assert_eq!(all, vec![[1u8; 32], [3u8; 32]]);
    assert_eq!(ops, vec![[1u8; 32]]);
    assert_eq!(linear, vec![[3u8; 32]]);
    assert_eq!(settled, vec![[1u8; 32]]);
}

#[test]
fn reports_are_key_value_lines() {
    assert_eq!(decimal_text(0), "0");
    assert_eq!(decimal_text(1234), "1234");
    assert_eq!(key_value_report(&[("a", "1".to_owned()), ("b", "x".to_owned())]), "a=1\nb=x");
    assert_eq!(key_value_report(&[]), "");
}

#[test]
fn block_status_report_weighs_votes_against_the_finality_threshold() {
    let inputs = BlockStatusInputs {
        data_dir: "/d".to_owned(),
        height: 5,
        block_hash: [9; 32],
        parent_hash: [8; 32],
        proposer: [1; 32],
        proposer_registered: true,
        state_root: [7; 32],
        epoch: 2,
        latest_height: 6,
        finalized: true,
        settled_receipt_set_root: [6; 32],
        selected_receipt_ids: vec![[1; 32]],
        selected_receipt_twu: 40,
        selected_receipt_bytes: 300,
        block_twu_cap: 1000,
        block_byte_cap: 2000,
        block_receipt_cap: 16,
        checks_root: [5; 32],
        block_valid: true,
        difficulty_target: [4; 32],
        nonce: 77,
        pow_header_hash: [3; 32],
        pow_hash: [2; 32],
        pow_valid: true,
        votes: vec![vote(1, 10, true), vote(2, 5, false)],
        validators: vec![([1u8; 32], 10), ([2u8; 32], 5)],
        finality_stake_numerator: 2,
        finality_stake_denominator: 3,
        receipts: vec![receipt(1, 5, true, ReceiptKind::TensorOp)],
    };
    let report = block_status_report(&inputs);
    assert!(report.starts_with("command=service_block\ndata_dir=/d\nheight=5\n"));
    assert!(report.contains(&format!("\nblock_hash={}\n", hex(&[9; 32]))));
    assert!(report.contains("\nblock_vote_count=1\n"));
    assert!(report.contains(&format!("\nblock_vote_validators={}\n", hex(&[1; 32]))));
    assert!(report.contains("\nblock_vote_stake=10\n"));
    assert!(report.contains("\nfinality_threshold_stake=10\n"));
    assert!(report.contains("\nfinality_validated_block=true\n"));
    assert!(report.contains("\nsettled_receipt_count=1\n"));
    assert!(report.contains("\nlinear_training_receipt_ids=none\n"));
    assert!(report.ends_with("\nstatus_source=node_store"));
    assert_eq!(report.lines().count(), 45);

    let mut earlier = inputs.clone();
    earlier.height = 4;
    earlier.finalized = false;
    let blocks = vec![earlier, inputs.clone()];
    assert_eq!(block_status_at_height(&blocks, 5, "/d"), Ok(report));
    assert_eq!(
        block_status_at_height(&blocks, 9, "/d"),
        Err("block height 9 is not in node store /d".to_owned())
    );
}

#[test]
fn block_lookup_finds_the_first_block_at_a_height() {
    assert_eq!(find_block_at_height(&[0, 1, 2], 1, "/d"), Ok(1));
    assert_eq!(find_block_at_height(&[3, 7, 7], 7, "/d"), Ok(1));
    assert_eq!(
        find_block_at_height(&[0, 2], 5, "/tmp/node"),
        Err("block height 5 is not in node store /tmp/node".to_owned())
    );
    assert_eq!(
        find_block_at_height(&[], 0, ""),
        Err("block height 0 is not in node store ".to_owned())
    );
}

#[test]
fn runtime_report_lists_the_run_with_its_identity_lines() {
    let mut events = NetworkEventIngest::default();
    events.events = 3;
    events.invalid_events = 1;
    let inputs = RuntimeReportInputs {
        runtime_command: "miner_run".to_owned(),
        role: "miner".to_owned(),
        chain_profile: "local_cpu".to_owned(),
        can_produce_blocks: false,
        wallet_address: "none".to_owned(),
        wallet_registration: "none".to_owned(),
        wallet_registered: false,
        miner_work_ready: true,
        miner_assigned_jobs_seen: 2,
        miner_unreceipted_jobs: 1,
        miner_receipts_submitted: 1,
        miner_tensors_inserted: 3,
        validator_work_ready: false,
        validator_assigned_receipts_seen: 0,
        validator_unattested_receipts: 0,
        validator_artifact_ready_receipts: 0,
        validator_artifact_missing_receipts: 0,
        validator_remote_tensor_fetch_attempts: 0,
        validator_remote_tensor_fetch_successes: 0,
        validator_remote_tensor_fetch_failures: 0,
        validator_remote_tensor_fetch_bytes: 0,
        validator_remote_tensors_inserted: 0,
        validator_attestations_submitted: 0,
        validator_block_votes_submitted: 0,
        local_producer: false,
        listen: "127.0.0.1:8545".to_owned(),
        p2p_listen: "/ip4/127.0.0.1/tcp/0".to_owned(),
        p2p_peer_id: "peer".to_owned(),
        p2p_connected_peers: 0,
        p2p_observed_block_gossip_count: 0,
        p2p_observed_block_payload_gossip_count: 0,
        p2p_observed_block_vote_gossip_count: 0,
        p2p_observed_job_gossip_count: 0,
        p2p_observed_receipt_gossip_count: 0,
        p2p_observed_attestation_gossip_count: 0,
        p2p_latest_observed_block_height: 0,
        p2p_latest_observed_block_hash: [0; 32],
        p2p_observed_block_hashes: Vec::new(),
        p2p_latest_observed_block_payload_height: 0,
        p2p_latest_observed_block_payload_hash: [0; 32],
        p2p_observed_block_payload_hashes: Vec::new(),
        p2p_topics: 5,
        p2p_request_response_protocols: 4,
        bootstrap_peer_count: 0,
        max_transmit_bytes: 1048576,
        request_timeout_seconds: 10,
        max_concurrent_streams: 128,
        idle_timeout_seconds: 60,
        data_dir: "/d".to_owned(),
        served_requests: 1,
        produced_blocks: 0,
        network_applied_blocks: 0,
        identity: "p2p_identity=seeded\np2p_identity_seed=x".to_owned(),
        network_events: events,
    };
    let report = runtime_report(&inputs);
    assert!(report.starts_with("command=service_serve\nruntime_command=miner_run\nrole=miner\n"));
    assert!(report.contains("\np2p_bootstrap_peers=0\np2p_identity=seeded\np2p_identity_seed=x\np2p_max_transmit_bytes=1048576\n"));
    assert!(report.contains("\np2p_observed_block_hashes=none\n"));
    assert!(report.contains("\nnetwork_events_ingested=3\n"));
    assert!(report.ends_with("\nnetwork_invalid_events=1"));
}

#[test]
fn service_status_reads_status_files_and_chain_figures() {
    let inputs = ServiceStatusInputs {
        data_dir: "/d".to_owned(),
        ready_file: Some("operator_name=alice\nrole=miner\np2p_peer_id=peer-1\n".to_owned()),
        role_runtime_file: None,
        height: 7,
        epoch: 1,
        block_count: 4,
        blocks: vec![
            StatusBlockFacts { height: 1, hash: [1; 32], finalized: true },
            StatusBlockFacts { height: 3, hash: [3; 32], finalized: true },
            StatusBlockFacts { height: 4, hash: [4; 32], finalized: false },
        ],
        latest_block_hash: [4; 32],
        state_root: [5; 32],
        block_log_root: [6; 32],
        registered_miner_count: 2,
        registered_validator_count: 3,
        job_count: 5,
        receipt_count: 6,
        settled_receipt_count: 1,
        attestation_counts: vec![2, 0, 3],
        reward_balances: vec![0, 10, 4],
        model_count: 1,
        bootstrap_peer_count: 2,
    };
    let report = service_status_report(&inputs);
    assert!(report.starts_with("command=service_status\ndata_dir=/d\noperator_name=alice\noperator_id=unknown\nrole=miner\nruntime_command=unknown\nrole_runtime_command=unknown\n"));
    assert!(report.contains("\nnode_multiaddr=unknown\np2p_peer_id=peer-1\nheight=7\n"));
    assert!(report.contains("\nlatest_block_height=4\n"));
    assert!(report.contains("\nfinalized_block_count=2\nfirst_live_block_height=3\n"));
    assert!(report.contains(&format!("\nfirst_live_block_hash={}\n", hex(&[3; 32]))));
    assert!(report.contains("\nattestation_count=5\nreward_account_count=2\nmodel_count=1\n"));
    assert!(report.ends_with("\nbootstrap_peer_count=2\nnode_store_ready=true\nstatus_source=node_store"));
    assert_eq!(report.lines().count(), 90);
}
