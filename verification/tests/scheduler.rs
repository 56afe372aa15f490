use std::collections::BTreeSet;
use tensor_vm::scheduler::{JobScheduler, MinerCandidate, SyntheticLocalJobSource};
use tensor_vm::types::{address, hash_bytes, Address};

/// Registered validators, in registry (address) order.
fn validators(prefix: &str, count: usize) -> Vec<Address> {
    let mut out: Vec<Address> = (0..count)
        .map(|i| address(format!("{prefix}-{i}").as_bytes()))
        .collect();
    out.sort();
    out
}

/// Registered miners, in registry (address) order.
fn miners(entries: Vec<(Address, Address)>) -> Vec<MinerCandidate> {
    let mut out: Vec<MinerCandidate> = entries
        .into_iter()
        .map(|(address, operator_id)| MinerCandidate { address, operator_id })
        .collect();
    out.sort_by(|a, b| a.address.cmp(&b.address));
    out
}

fn operator_of(pool: &[MinerCandidate], miner: &Address) -> Address {
    pool.iter().find(|m| &m.address == miner).unwrap().operator_id
}

#[test]
fn validator_assignment_is_deterministic_and_bounded() {
    let beacon = hash_bytes(b"test", &[b"beacon"]);
    let registered = validators("validator", 12);
    let validators_per_job = 3;
    let scheduler = JobScheduler::default();
    let receipt = hash_bytes(b"test", &[b"receipt"]);
    let first = scheduler.assign_validators(&registered, validators_per_job, receipt, &beacon);
    let second = scheduler.assign_validators(&registered, validators_per_job, receipt, &beacon);
    assert_eq!(first, second);
    assert_eq!(first.validators.len(), validators_per_job);
    assert_eq!(first.receipt_id, receipt);
}

#[test]
fn validator_assignment_is_bound_to_receipt_id() {
    let beacon = hash_bytes(b"test", &[b"beacon"]);
    let registered = validators("validator", 32);
    let scheduler = JobScheduler::default();
    let first = scheduler.assign_validators(
        &registered,
        4,
        hash_bytes(b"test", &[b"receipt-0"]),
        &beacon,
    );
    let mut receipt_bound_assignment = None;
    for i in 1..100 {
        let receipt = hash_bytes(b"test", &[format!("receipt-{i}").as_bytes()]);
        let assignment = scheduler.assign_validators(&registered, 4, receipt, &beacon);
        if assignment.validators != first.validators {
            receipt_bound_assignment = Some(assignment);
            break;
        }
    }
    assert!(
        receipt_bound_assignment.is_some(),
        "receipt id must affect validator assignment ordering"
    );
}

#[test]
fn miner_assignment_uses_replication_factor() {
    let beacon = hash_bytes(b"test", &[b"beacon"]);
    let pool = miners(
        (0..10)
            .map(|i| {
                let a = address(format!("miner-{i}").as_bytes());
                (a, a)
            })
            .collect(),
    );
    let scheduler = JobScheduler::default();
    let job = hash_bytes(b"test", &[b"job"]);
    let first = scheduler.assign_miners(&pool, 4, job, &beacon);
    let second = scheduler.assign_miners(&pool, 4, job, &beacon);
    assert_eq!(first, second);
    assert_eq!(first.miners.len(), 4);
}

#[test]
fn miner_assignment_prefers_operator_separation() {
    let beacon = hash_bytes(b"test", &[b"beacon"]);
    let shared_operator = address(b"shared-operator");
    let mut entries = Vec::new();
    for i in 0..4 {
        entries.push((address(format!("shared-miner-{i}").as_bytes()), shared_operator));
    }
    for i in 0..4 {
        entries.push((
            address(format!("distinct-miner-{i}").as_bytes()),
            address(format!("distinct-operator-{i}").as_bytes()),
        ));
    }
    let pool = miners(entries);
    let scheduler = JobScheduler::default();
    let job = hash_bytes(b"test", &[b"operator-separated-job"]);
    let assignment = scheduler.assign_miners(&pool, 4, job, &beacon);
    let operators: BTreeSet<_> = assignment
        .miners
        .iter()
        .map(|miner| operator_of(&pool, miner))
        .collect();
    assert_eq!(assignment.miners.len(), 4);
    assert_eq!(operators.len(), 4);
}

#[test]
fn miner_assignment_falls_back_when_operator_diversity_is_insufficient() {
    let beacon = hash_bytes(b"test", &[b"beacon"]);
    let shared_operator = address(b"only-operator");
    let pool = miners(
        (0..5)
            .map(|i| (address(format!("same-operator-miner-{i}").as_bytes()), shared_operator))
            .collect(),
    );
    let scheduler = JobScheduler::default();
    let job = hash_bytes(b"test", &[b"fallback-job"]);
    let assignment = scheduler.assign_miners(&pool, 3, job, &beacon);
    let operators: BTreeSet<_> = assignment
        .miners
        .iter()
        .map(|miner| operator_of(&pool, miner))
        .collect();
    assert_eq!(assignment.miners.len(), 3);
    assert_eq!(operators.len(), 1);
    assert_eq!(operators.into_iter().next(), Some(shared_operator));
}

#[test]
fn validator_assignment_takes_every_validator_when_fewer_than_asked() {
    let beacon = hash_bytes(b"test", &[b"beacon"]);
    let registered = validators("small", 2);
    let assignment = JobScheduler::default().assign_validators(
        &registered,
        5,
        hash_bytes(b"test", &[b"receipt"]),
        &beacon,
    );
    let mut got = assignment.validators.clone();
    got.sort();
    assert_eq!(got, registered);
}

#[test]
fn miner_assignment_never_repeats_an_address() {
    let beacon = hash_bytes(b"test", &[b"beacon"]);
    let operator = address(b"op");
    let pool = miners(
        (0..6)
            .map(|i| (address(format!("m-{i}").as_bytes()), if i % 2 == 0 { operator } else { address(format!("o-{i}").as_bytes()) }))
            .collect(),
    );
    let assignment = JobScheduler::default().assign_miners(&pool, 6, hash_bytes(b"test", &[b"j"]), &beacon);
    let unique: BTreeSet<_> = assignment.miners.iter().collect();
    assert_eq!(assignment.miners.len(), 6);
    assert_eq!(unique.len(), 6);
}

#[test]
fn synthetic_job_source_default_uses_local_cpu_shape() {
    assert_eq!(
        SyntheticLocalJobSource::default(),
        SyntheticLocalJobSource::new(JobScheduler::with_small_shape((8, 8, 8)))
    );
    assert_ne!(
        SyntheticLocalJobSource::default(),
        SyntheticLocalJobSource::new(JobScheduler::default())
    );
}

#[test]
fn linear_training_weights_are_the_fixed_three_by_two_matrix() {
    let w = SyntheticLocalJobSource::linear_training_weights();
    assert_eq!(w.shape(), &[3, 2]);
    assert_eq!(w.as_slice(), &[1, 2, 3, 4, 5, 6]);
}
