use tensor_vm::study::{
    assess_randomness, threshold_reached, RandomnessSource, ThreatActorKind, ThreatModel,
};

#[test]
fn threat_model_names_all_mvp_actors() {
    let model = ThreatModel::mvp();
    assert!(model.actor(ThreatActorKind::Miner).is_some());
    assert!(model.actor(ThreatActorKind::Validator).is_some());
    assert!(model.actor(ThreatActorKind::Proposer).is_some());
    assert!(model.actor(ThreatActorKind::TensorServer).is_some());
    assert!(model
        .actor(ThreatActorKind::Proposer)
        .unwrap()
        .mitigations
        .contains(&"settled prior TensorWork proposer selection"));
}

#[test]
fn randomness_assessment_rejects_current_block_hash() {
    assert!(!assess_randomness(RandomnessSource::CurrentBlockHash).acceptable_for_mvp);
    assert!(
        !assess_randomness(RandomnessSource::FinalizedBeacon)
            .proposer_can_bias_after_receipt_commitment
    );
    assert!(assess_randomness(RandomnessSource::ReceiptBoundFinalizedBeacon).acceptable_for_mvp);
    assert!(
        assess_randomness(RandomnessSource::CommitReveal {
            committed_before_receipt: true,
            revealed_after_receipt_root: true,
        })
        .acceptable_for_mvp
    );
    assert!(
        !assess_randomness(RandomnessSource::CommitReveal {
            committed_before_receipt: false,
            revealed_after_receipt_root: true,
        })
        .acceptable_for_mvp
    );
}

#[test]
fn actor_of_an_empty_model_is_none() {
    let model = ThreatModel { actors: Vec::new() };
    assert!(model.actor(ThreatActorKind::Miner).is_none());
    assert_eq!(ThreatModel::mvp().actors.len(), 4);
    assert_eq!(
        ThreatModel::mvp().actor(ThreatActorKind::TensorServer).unwrap().controls,
        vec!["tensor chunks", "rows", "Merkle openings"]
    );
}

#[test]
fn stake_thresholds_compare_cross_multiplied_shares() {
    assert!(!threshold_reached(20, 50, 2, 3));
    assert!(threshold_reached(40, 50, 2, 3));
    assert!(!threshold_reached(0, 0, 0, 3));
    assert!(!threshold_reached(2, 3, 2, 0));
    assert!(threshold_reached(6, 3, 2, 0));
    assert!(threshold_reached(u64::MAX, u64::MAX, 2, 3));
}
