use vstd::prelude::*;
use crate::types::Address;

verus! {

/// The parties whose misbehaviour the threat model covers.
#[derive(Clone, Copy, Debug, PartialEq, Eq, Structural)]
pub enum ThreatActorKind {
    Miner,
    Validator,
    Proposer,
    TensorServer,
}

/// What an actor controls, what it can do wrong, and what answers it.
#[derive(Clone, Debug, PartialEq, Eq)]
pub struct ThreatActor {
    pub kind: ThreatActorKind,
    pub controls: Vec<&'static str>,
    pub risks: Vec<&'static str>,
    pub mitigations: Vec<&'static str>,
}

/// A list of threat actors.
#[derive(Clone, Debug, PartialEq, Eq)]
pub struct ThreatModel {
    pub actors: Vec<ThreatActor>,
}

/// The kinds of the MVP threat model's actors, in order.
pub open spec fn mvp_kinds() -> Seq<ThreatActorKind> {
    seq![ThreatActorKind::Miner, ThreatActorKind::Validator, ThreatActorKind::Proposer, ThreatActorKind::TensorServer]
}

impl ThreatModel {
    /// The threat model of the MVP: one entry for each of miners, validators,
    /// proposers and tensor servers.
    pub fn mvp() -> (out: Self)
        ensures
            out.actors@.len() == 4,
            forall|i: int| 0 <= i < 4 ==> #[trigger] out.actors@[i].kind == mvp_kinds()[i],
            out.actors@[0].controls@ == seq!["tensor execution", "receipt submission", "tensor serving"],
            out.actors@[0].risks@ == seq!["invalid tensor roots", "sparse output corruption", "data withholding after commitment"],
            out.actors@[0].mitigations@ == seq![
                "full-output Freivalds checks",
                "server-backed tensor availability attestations",
                "retention through settlement and challenge windows",
            ],
            out.actors@[1].controls@ == seq!["attestations", "sample reveal timing"],
            out.actors@[1].risks@ == seq!["bad attestations", "duplicate quorum votes", "premature sample disclosure"],
            out.actors@[1].mitigations@ == seq![
                "signature checks",
                "registered-stake quorum",
                "one attestation per validator per receipt",
            ],
            out.actors@[2].controls@ == seq!["block assembly", "block timestamp", "transaction ordering"],
            out.actors@[2].risks@ == seq!["current-block randomness grinding", "current-epoch TensorWork circularity"],
            out.actors@[2].mitigations@ == seq![
                "receipt-bound finalized randomness",
                "settled prior TensorWork proposer selection",
                "zero-work fallback proposer selection",
            ],
            out.actors@[3].controls@ == seq!["tensor chunks", "rows", "Merkle openings"],
            out.actors@[3].risks@ == seq!["verification-time unavailability", "post-settlement disappearance"],
            out.actors@[3].mitigations@ == seq![
                "availability attestations",
                "retention-window pruning",
                "future external content-addressed replication",
            ],
    {
        let out = ThreatModel {
            actors: vec![
                ThreatActor {
                    kind: ThreatActorKind::Miner,
                    controls: vec!["tensor execution", "receipt submission", "tensor serving"],
                    risks: vec![
                        "invalid tensor roots",
                        "sparse output corruption",
                        "data withholding after commitment",
                    ],
                    mitigations: vec![
                        "full-output Freivalds checks",
                        "server-backed tensor availability attestations",
                        "retention through settlement and challenge windows",
                    ],
                },
                ThreatActor {
                    kind: ThreatActorKind::Validator,
                    controls: vec!["attestations", "sample reveal timing"],
                    risks: vec![
                        "bad attestations",
                        "duplicate quorum votes",
                        "premature sample disclosure",
                    ],
                    mitigations: vec![
                        "signature checks",
                        "registered-stake quorum",
                        "one attestation per validator per receipt",
                    ],
                },
                ThreatActor {
                    kind: ThreatActorKind::Proposer,
                    controls: vec!["block assembly", "block timestamp", "transaction ordering"],
                    risks: vec![
                        "current-block randomness grinding",
                        "current-epoch TensorWork circularity",
                    ],
                    mitigations: vec![
                        "receipt-bound finalized randomness",
                        "settled prior TensorWork proposer selection",
                        "zero-work fallback proposer selection",
                    ],
                },
                ThreatActor {
                    kind: ThreatActorKind::TensorServer,
                    controls: vec!["tensor chunks", "rows", "Merkle openings"],
                    risks: vec![
                        "verification-time unavailability",
                        "post-settlement disappearance",
                    ],
                    mitigations: vec![
                        "availability attestations",
                        "retention-window pruning",
                        "future external content-addressed replication",
                    ],
                },
            ],
        };
        assert(out.actors@[0].controls@ == seq!["tensor execution", "receipt submission", "tensor serving"]);
        out
    }

    /// The first actor of the given kind.
    pub fn actor(&self, kind: ThreatActorKind) -> (out: Option<&ThreatActor>)
        ensures
            match out {
                Some(a) => exists|i: int|
                    0 <= i < self.actors@.len() && self.actors@[i] == *a && a.kind == kind
                        && forall|j: int| 0 <= j < i ==> #[trigger] self.actors@[j].kind != kind,
                None => forall|i: int| 0 <= i < self.actors@.len() ==> #[trigger] self.actors@[i].kind != kind,
            },
    {
        let mut i: usize = 0;
        while i < self.actors.len()
            invariant
                i <= self.actors@.len(),
                forall|j: int| 0 <= j < i ==> #[trigger] self.actors@[j].kind != kind,
            decreases self.actors@.len() - i,
        {
            if self.actors[i].kind == kind {
                return Some(&self.actors[i]);
            }
            i += 1;
        }
        None
    }
}

/// Where the randomness that selects verification samples comes from.
#[derive(Clone, Copy, Debug, PartialEq, Eq, Structural)]
pub enum RandomnessSource {
    CurrentBlockHash,
    FinalizedBeacon,
    ReceiptBoundFinalizedBeacon,
    CommitReveal { committed_before_receipt: bool, revealed_after_receipt_root: bool },
}

/// Whether a proposer can bias a randomness source after a receipt is
/// committed, and so whether it is acceptable.
#[derive(Clone, Copy, Debug, PartialEq, Eq, Structural)]
pub struct RandomnessAssessment {
    pub source: RandomnessSource,
    pub proposer_can_bias_after_receipt_commitment: bool,
    pub acceptable_for_mvp: bool,
}

/// Whether a proposer can still steer `source` once a receipt is committed:
/// the current block hash can be ground, a commit-reveal only resists when it
/// is committed before the receipt and revealed after its root.
pub open spec fn proposer_can_bias(source: RandomnessSource) -> bool {
    match source {
        RandomnessSource::CurrentBlockHash => true,
        RandomnessSource::FinalizedBeacon => false,
        RandomnessSource::ReceiptBoundFinalizedBeacon => false,
        RandomnessSource::CommitReveal { committed_before_receipt, revealed_after_receipt_root } =>
            !(committed_before_receipt && revealed_after_receipt_root),
    }
}

/// Assesses a randomness source: it is acceptable exactly when a proposer
/// cannot bias it after receipt commitment.
pub fn assess_randomness(source: RandomnessSource) -> (out: RandomnessAssessment)
    ensures
        out.source == source,
        out.proposer_can_bias_after_receipt_commitment == proposer_can_bias(source),
        out.acceptable_for_mvp == !proposer_can_bias(source),
{
    let proposer_can_bias_after_receipt_commitment = match source {
        RandomnessSource::CurrentBlockHash => true,
        RandomnessSource::FinalizedBeacon => false,
        RandomnessSource::ReceiptBoundFinalizedBeacon => false,
        RandomnessSource::CommitReveal { committed_before_receipt, revealed_after_receipt_root } =>
            !(committed_before_receipt && revealed_after_receipt_root),
    };
    RandomnessAssessment {
        source,
        proposer_can_bias_after_receipt_commitment,
        acceptable_for_mvp: !proposer_can_bias_after_receipt_commitment,
    }
}

/// The parameters of a collusion simulation.
#[derive(Clone, Debug, PartialEq)]
pub struct CollusionSimulationInput {
    pub validator_stakes: Vec<u64>,
    pub colluding_validator_indices: Vec<usize>,
    pub miner_count: usize,
    pub colluding_miners: usize,
    pub finality_stake_numerator: u64,
    pub finality_stake_denominator: u64,
    pub attestation_stake_numerator: u64,
    pub attestation_stake_denominator: u64,
    pub minimum_validators: usize,
    pub agreement_quorum: usize,
}

/// The outcome of a zero-work liveness run: blocks asked for and made, and
/// who proposed each.
#[derive(Clone, Debug, PartialEq)]
pub struct ZeroWorkLivenessStudy {
    pub blocks_requested: u64,
    pub blocks_produced: u64,
    pub proposers: Vec<Address>,
}

/// `a * b`, or `u64::MAX` where the product does not fit.
pub open spec fn sat_mul(a: u64, b: u64) -> u64 {
    if a * b > u64::MAX { u64::MAX } else { (a * b) as u64 }
}

/// Whether `stake` out of `total` reaches `numerator / denominator` (a zero
/// denominator counts as one), with the products saturating as in u64.
pub open spec fn spec_threshold_reached(stake: u64, total: u64, numerator: u64, denominator: u64) -> bool {
    total > 0 && sat_mul(stake, if denominator == 0 { 1u64 } else { denominator }) >= sat_mul(total, numerator)
}

/// Whether colluding stake reaches a stake threshold.
pub fn threshold_reached(stake: u64, total: u64, numerator: u64, denominator: u64) -> (out: bool)
    ensures
        out == spec_threshold_reached(stake, total, numerator, denominator),
{
    let d = if denominator < 1 { 1 } else { denominator };
    let scaled_stake = match stake.checked_mul(d) {
        Some(v) => v,
        None => u64::MAX,
    };
    let scaled_total = match total.checked_mul(numerator) {
        Some(v) => v,
        None => u64::MAX,
    };
    total > 0 && scaled_stake >= scaled_total
}

} // verus!
