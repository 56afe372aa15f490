use std::time::Duration;
use tensor_vm::profile::{ChainNetwork, ChainProfile, NodeConfig, NodeRole, ServiceExposure};
use tensor_vm::scheduler::{JobScheduler, SyntheticLocalJobSource};

#[test]
fn node_config_drives_local_runtime_policy_without_changing_chain_base() {
    let interval = Duration::from_millis(1000);
    let local_proposer = NodeConfig::new(
        ChainProfile::from_label("local_cpu").unwrap(),
        NodeRole::Proposer,
        "local/proposer",
    )
    .with_block_interval(Some(interval))
    .with_local_producer(true);
    let local_miner = NodeConfig::new(ChainProfile::local_cpu(), NodeRole::Miner, "local/miner")
        .with_block_interval(Some(interval))
        .with_local_producer(true);
    let public_proposer = NodeConfig::new(
        ChainProfile::public_testnet(),
        NodeRole::Proposer,
        "testnet/proposer",
    )
    .with_block_interval(Some(interval))
    .with_local_producer(true);

    assert_eq!(local_proposer.synthetic_block_interval(), Some(interval));
    assert!(local_proposer.local_synthetic_producer());
    assert_eq!(local_miner.synthetic_block_interval(), Some(interval));
    assert!(!local_miner.can_produce_local_blocks());
    assert!(!local_miner.local_synthetic_producer());
    assert_eq!(public_proposer.synthetic_block_interval(), None);
    assert!(!public_proposer.local_synthetic_producer());
    assert!(ChainProfile::from_label("staging").is_none());
}

#[test]
fn profile_labels_and_public_settings() {
    assert_eq!(ChainProfile::from_label("local"), Some(ChainProfile::local_cpu()));
    assert_eq!(ChainProfile::from_label("testnet"), Some(ChainProfile::public_testnet()));
    assert_eq!(ChainProfile::from_label("public_testnet"), Some(ChainProfile::public_testnet()));
    assert_eq!(ChainProfile::from_label("mainnet"), Some(ChainProfile::mainnet()));
    assert_eq!(ChainProfile::local_cpu().label(), "local_cpu");
    assert_eq!(ChainProfile::public_testnet().label(), "public_testnet");
    assert_eq!(ChainProfile::mainnet().label(), "mainnet");
    let local = ChainProfile::local_cpu();
    assert_eq!(local.network, ChainNetwork::Local);
    assert_eq!(local.service_exposure, ServiceExposure::LoopbackOnly);
    assert!(!local.requires_public_services());
    assert!(ChainProfile::mainnet().requires_public_services());
    assert!(local.synthetic_jobs_enabled());
    assert!(!ChainProfile::mainnet().synthetic_jobs_enabled());
    assert_eq!(
        local.synthetic_job_source(),
        Some(SyntheticLocalJobSource::new(JobScheduler::with_small_shape((8, 8, 8))))
    );
    assert_eq!(local.synthetic_job_source(), Some(SyntheticLocalJobSource::default()));
    assert!(ChainProfile::public_testnet().synthetic_job_source().is_none());
    assert_eq!(ChainProfile::mainnet().miner_count, 10);
    assert_eq!(ChainProfile::mainnet().validator_stake, 10_000);
}

#[test]
fn node_roles_that_produce_blocks() {
    for (role, produces) in [
        (NodeRole::Gateway, true),
        (NodeRole::Miner, false),
        (NodeRole::Proposer, true),
        (NodeRole::Validator, false),
        (NodeRole::Explorer, false),
    ] {
        let config = NodeConfig::new(ChainProfile::local_cpu(), role, "data");
        assert_eq!(config.can_produce_local_blocks(), produces);
        assert!(!config.local_synthetic_producer());
        assert_eq!(config.block_interval, None);
    }
}

#[test]
fn scheduler_defaults_and_small_shape() {
    let default = JobScheduler::default();
    assert_eq!(default.small_matmul, (1024, 1024, 1024));
    assert_eq!(default.medium_matmul, (4096, 4096, 4096));
    let small = JobScheduler::with_small_shape((4, 5, 6));
    assert_eq!(small.small_matmul, (4, 5, 6));
    assert_eq!(small.medium_matmul, (4096, 4096, 4096));
    assert_ne!(
        SyntheticLocalJobSource::linear_training_architecture_hash(),
        SyntheticLocalJobSource::linear_training_config_hash()
    );
    assert_eq!(
        SyntheticLocalJobSource::linear_training_config_hash(),
        tensor_vm::types::hash_bytes(b"tensor-vm-local-linear-config-v1", &[])
    );
}

#[test]
fn node_config_keeps_role_and_profile_separate_from_chain_state() {
    let profile = ChainProfile::local_cpu();
    let config = NodeConfig::new(profile.clone(), NodeRole::Miner, "local/miner-00");

    assert_eq!(config.profile, profile);
    assert_eq!(config.role, NodeRole::Miner);
    assert_eq!(config.data_dir, std::path::PathBuf::from("local/miner-00"));
    assert_eq!(config.block_interval, None);
    assert!(!config.local_producer);
    assert!(!profile.public_evidence_required);
    assert!(!profile.requires_public_services());
    assert!(ChainProfile::public_testnet().requires_public_services());
}

#[test]
fn profiles_configure_local_synthetic_jobs_without_changing_chain_base() {
    let local_source = ChainProfile::local_cpu()
        .synthetic_job_source()
        .expect("local profile should enable deterministic synthetic jobs");
    let public_profile = ChainProfile::public_testnet();
    let mainnet_profile = ChainProfile::mainnet();

    assert_eq!(
        local_source,
        SyntheticLocalJobSource::new(JobScheduler::with_small_shape((8, 8, 8)))
    );
    assert!(public_profile.synthetic_job_source().is_none());
    assert!(mainnet_profile.synthetic_job_source().is_none());
    assert_eq!(ChainProfile::local_cpu().label(), "local_cpu");
    assert_eq!(public_profile.label(), "public_testnet");
    assert_eq!(mainnet_profile.label(), "mainnet");
}
