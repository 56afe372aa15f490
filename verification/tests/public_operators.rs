use tensor_vm::testnet::public_operators::match_public_operator_address;
use tensor_vm::types::{address, hash_bytes, Address, Hash32};

fn owner(matching: &[(Address, Hash32)], a: &Address) -> Option<Hash32> {
    matching.iter().find(|(x, _)| x == a).map(|(_, o)| *o)
}

#[test]
fn public_operator_matching_rejects_missing_operator_candidates() {
    let mut address_to_operator = Vec::new();
    let mut seen_addresses = Vec::new();
    assert!(!match_public_operator_address(
        hash_bytes(b"test", &[b"missing-public-operator"]),
        &Vec::new(),
        &mut address_to_operator,
        &mut seen_addresses,
    ));
    assert!(address_to_operator.is_empty());
    assert!(seen_addresses.is_empty());
}

#[test]
fn matching_moves_an_operator_along_an_augmenting_path() {
    let op_a = hash_bytes(b"test", &[b"op-a"]);
    let op_b = hash_bytes(b"test", &[b"op-b"]);
    let x = address(b"x");
    let y = address(b"y");
    // op-a can use x or y; op-b can only use x.
    let candidates = vec![(op_a, vec![x, y]), (op_b, vec![x])];
    let mut matching = Vec::new();
    assert!(match_public_operator_address(op_a, &candidates, &mut matching, &mut Vec::new()));
    assert_eq!(owner(&matching, &x), Some(op_a));
    // op-b takes x, and op-a moves over to y.
    assert!(match_public_operator_address(op_b, &candidates, &mut matching, &mut Vec::new()));
    assert_eq!(owner(&matching, &x), Some(op_b));
    assert_eq!(owner(&matching, &y), Some(op_a));
    assert_eq!(matching.len(), 2);
}

#[test]
fn matching_fails_without_changes_when_every_address_is_held() {
    let op_a = hash_bytes(b"test", &[b"op-a"]);
    let op_b = hash_bytes(b"test", &[b"op-b"]);
    let x = address(b"x");
    let candidates = vec![(op_a, vec![x]), (op_b, vec![x])];
    let mut matching = Vec::new();
    assert!(match_public_operator_address(op_a, &candidates, &mut matching, &mut Vec::new()));
    let before = matching.clone();
    let mut seen = Vec::new();
    assert!(!match_public_operator_address(op_b, &candidates, &mut matching, &mut seen));
    assert_eq!(matching, before);
    assert_eq!(seen, vec![x]);
}

use tensor_vm::testnet::config::{PublicNetworkRuntimeEvidence, PublicTestnetCriteria, PublicTestnetRunEvidence};
use tensor_vm::testnet::public_node_evidence::{PublicNodeEvidence, PublicNodeRole};
use tensor_vm::testnet::public_operators::{
    public_operator_attestation_key, public_operator_matching_satisfies_criteria, MatchedPublicOperators,
    PublicOperatorCandidate,
};

fn run(nodes: Vec<PublicNodeEvidence>) -> PublicTestnetRunEvidence {
    PublicTestnetRunEvidence {
        nodes,
        network_runtime: PublicNetworkRuntimeEvidence {
            libp2p_runtime_used: true,
            peer_discovery_observed: true,
            gossip_propagation_observed: true,
            request_response_observed: true,
            dos_controls_enabled: true,
        },
        services: Vec::new(),
        service_content: Vec::new(),
        run_started_at_unix_seconds: 0,
        run_ended_at_unix_seconds: 0,
        observed_blocks: 4,
        finalized_blocks: 4,
        checked_receipts: 0,
        available_receipts: 0,
        invalid_receipts_submitted: 0,
        invalid_receipts_rejected: 0,
        reward_settlement_records: 0,
    }
}

fn miner(addr: &[u8], op: &[u8]) -> PublicNodeEvidence {
    PublicNodeEvidence::miner(address(addr), hash_bytes(b"test", &[op]), 0, 3, 4)
}

fn validator(addr: &[u8], op: &[u8]) -> PublicNodeEvidence {
    PublicNodeEvidence::validator(address(addr), hash_bytes(b"test", &[op]), 0, 3, 4)
}

fn criteria(min_miners: usize, min_validators: usize) -> PublicTestnetCriteria {
    PublicTestnetCriteria {
        min_miners,
        min_validators,
        duration_days: 0,
        min_finality_rate_bps: 0,
        min_data_availability_bps: 0,
        min_invalid_work_rejections: 0,
        min_reward_settlement_records: 0,
    }
}

#[test]
fn candidates_are_live_nodes_in_role_operator_address_order() {
    let mut short_lived = miner(b"m-short", b"op-short");
    short_lived.signed_heartbeat_count = 1;
    let evidence = run(vec![validator(b"v1", b"op-v"), miner(b"m1", b"op-m"), short_lived, miner(b"m1", b"op-m")]);
    let candidates = evidence.public_operator_candidates();
    assert_eq!(candidates.len(), 2);
    assert_eq!(candidates[0].role, PublicNodeRole::Miner);
    assert_eq!(candidates[1].role, PublicNodeRole::Validator);
}

#[test]
fn one_operator_running_both_roles_counts_once() {
    // A single operator runs a miner and a validator; a second operator
    // runs only a miner. Greedy miner-first matching would give the shared
    // operator to the miners and leave no validator operator.
    let evidence = run(vec![
        miner(b"m-shared", b"op-shared"),
        validator(b"v-shared", b"op-shared"),
        miner(b"m-solo", b"op-solo"),
    ]);
    let (miners, validators) = evidence.matched_independent_public_operators_for_criteria(&criteria(1, 1));
    assert_eq!(miners.operator_ids.len(), 1);
    assert_eq!(validators.operator_ids.len(), 1);
    assert_ne!(miners.operator_ids[0], validators.operator_ids[0]);
    assert!(public_operator_matching_satisfies_criteria(&criteria(1, 1), &(miners, validators)));
}

#[test]
fn quota_matching_reports_when_quotas_cannot_be_met() {
    let evidence = run(vec![miner(b"m1", b"op-a"), miner(b"m2", b"op-a"), validator(b"v1", b"op-a")]);
    assert!(evidence.find_public_operator_quota_matching(&criteria(2, 0)).is_none());
    assert!(evidence.find_public_operator_quota_matching(&criteria(1, 1)).is_none());
    let found = evidence.find_public_operator_quota_matching(&criteria(1, 0)).unwrap();
    assert_eq!(found.0.operator_ids.len(), 1);
    assert!(found.1.operator_ids.is_empty());
    let (miners, validators) = evidence.matched_independent_public_operators_for_criteria(&criteria(1, 1));
    assert!(!public_operator_matching_satisfies_criteria(&criteria(1, 1), &(miners, validators)));
}

#[test]
fn role_matching_avoids_taken_operators_and_addresses() {
    let evidence = run(vec![miner(b"m1", b"op-a"), miner(b"m2", b"op-b"), validator(b"v1", b"op-c")]);
    let taken_ops = vec![hash_bytes(b"test", &[b"op-a"])];
    let matched = evidence.matched_public_operators_for_role(PublicNodeRole::Miner, &taken_ops, &Vec::new());
    assert_eq!(matched.operator_ids, vec![hash_bytes(b"test", &[b"op-b"])]);
    assert_eq!(matched.addresses, vec![address(b"m2")]);
    let keys = matched.attestation_keys_for_role(PublicNodeRole::Miner);
    assert_eq!(
        keys,
        vec![public_operator_attestation_key(PublicNodeRole::Miner, &address(b"m2"), &hash_bytes(b"test", &[b"op-b"]))]
    );
}

#[test]
fn matched_sets_keep_the_last_entry_for_an_address() {
    let a = address(b"a");
    let o1 = hash_bytes(b"test", &[b"o1"]);
    let o2 = hash_bytes(b"test", &[b"o2"]);
    let matched = MatchedPublicOperators::from_address_matching(&vec![(a, o1), (a, o2)]);
    assert_eq!(matched.address_to_operator, vec![(a, o2)]);
    assert_eq!(matched.operator_ids, vec![o2]);
    let from = MatchedPublicOperators::from_candidates(
        PublicNodeRole::Validator,
        &[PublicOperatorCandidate { role: PublicNodeRole::Miner, operator_id: o1, address: a }],
    );
    assert!(from.addresses.is_empty());
}
