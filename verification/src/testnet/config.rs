use vstd::prelude::*;
use crate::profile::ChainProfile;
use crate::types::Hash32;
use crate::testnet::public_services::{PublicServiceKind, PublicServiceEvidence, PublicServiceContentEvidence};
use crate::testnet::public_node_evidence::PublicNodeEvidence;

verus! {

pub const PUBLIC_TESTNET_EVIDENCE_MANIFEST_VERSION: &'static str = "tensor-vm-public-testnet-evidence-v1";
pub const PUBLIC_TESTNET_PREFLIGHT_MANIFEST_VERSION: &'static str = "tensor-vm-public-testnet-preflight-v1";
pub const PUBLIC_SERVICE_MIN_CONTENT_BYTES: u64 = 64;

/// The participants, stakes and faucet funding of a testnet.
#[derive(Clone, Copy, Debug, PartialEq, Eq, Structural)]
pub struct TestnetConfig {
    pub miner_count: usize,
    pub validator_count: usize,
    pub miner_stake: u64,
    pub validator_stake: u64,
    pub faucet_balance: u64,
    pub faucet_drip: u64,
}

impl Default for TestnetConfig {
    fn default() -> (out: Self)
        ensures
            out == (TestnetConfig {
                miner_count: 10,
                validator_count: 5,
                miner_stake: 100,
                validator_stake: 10_000,
                faucet_balance: 1_000_000,
                faucet_drip: 100,
            }),
    {
        TestnetConfig {
            miner_count: 10,
            validator_count: 5,
            miner_stake: 100,
            validator_stake: 10_000,
            faucet_balance: 1_000_000,
            faucet_drip: 100,
        }
    }
}

impl TestnetConfig {
    /// The testnet settings a profile carries.
    pub fn from_profile(profile: &ChainProfile) -> (out: Self)
        ensures
            out == (TestnetConfig {
                miner_count: profile.miner_count,
                validator_count: profile.validator_count,
                miner_stake: profile.miner_stake,
                validator_stake: profile.validator_stake,
                faucet_balance: profile.faucet_balance,
                faucet_drip: profile.faucet_drip,
            }),
    {
        TestnetConfig {
            miner_count: profile.miner_count,
            validator_count: profile.validator_count,
            miner_stake: profile.miner_stake,
            validator_stake: profile.validator_stake,
            faucet_balance: profile.faucet_balance,
            faucet_drip: profile.faucet_drip,
        }
    }
}

/// What a public testnet run has to show.
#[derive(Clone, Copy, Debug, PartialEq, Eq, Structural)]
pub struct PublicTestnetCriteria {
    pub min_miners: usize,
    pub min_validators: usize,
    pub duration_days: u64,
    pub min_finality_rate_bps: u64,
    pub min_data_availability_bps: u64,
    pub min_invalid_work_rejections: u64,
    pub min_reward_settlement_records: u64,
}

/// The full criteria: ten miners, five validators, seven days, complete
/// finality, 95% availability, and at least one rejection and one settlement.
pub open spec fn full_spec_criteria() -> PublicTestnetCriteria {
    PublicTestnetCriteria {
        min_miners: 10,
        min_validators: 5,
        duration_days: 7,
        min_finality_rate_bps: 10_000,
        min_data_availability_bps: 9_500,
        min_invalid_work_rejections: 1,
        min_reward_settlement_records: 1,
    }
}

impl Default for PublicTestnetCriteria {
    fn default() -> (out: Self)
        ensures
            out == full_spec_criteria(),
    {
        PublicTestnetCriteria {
            min_miners: 10,
            min_validators: 5,
            duration_days: 7,
            min_finality_rate_bps: 10_000,
            min_data_availability_bps: 9_500,
            min_invalid_work_rejections: 1,
            min_reward_settlement_records: 1,
        }
    }
}

/// Whether criteria ask at least as much as the full criteria, field by
/// field.
pub open spec fn spec_criteria_are_full_spec(c: PublicTestnetCriteria) -> bool {
    let f = full_spec_criteria();
    &&& c.min_miners >= f.min_miners
    &&& c.min_validators >= f.min_validators
    &&& c.duration_days >= f.duration_days
    &&& c.min_finality_rate_bps >= f.min_finality_rate_bps
    &&& c.min_data_availability_bps >= f.min_data_availability_bps
    &&& c.min_invalid_work_rejections >= f.min_invalid_work_rejections
    &&& c.min_reward_settlement_records >= f.min_reward_settlement_records
}

pub fn public_testnet_criteria_are_full_spec(criteria: &PublicTestnetCriteria) -> (out: bool)
    ensures
        out == spec_criteria_are_full_spec(*criteria),
{
    let full_spec = PublicTestnetCriteria::default();
    criteria.min_miners >= full_spec.min_miners && criteria.min_validators >= full_spec.min_validators
        && criteria.duration_days >= full_spec.duration_days
        && criteria.min_finality_rate_bps >= full_spec.min_finality_rate_bps
        && criteria.min_data_availability_bps >= full_spec.min_data_availability_bps
        && criteria.min_invalid_work_rejections >= full_spec.min_invalid_work_rejections
        && criteria.min_reward_settlement_records >= full_spec.min_reward_settlement_records
}

/// `numerator / denominator` in basis points, rounded half up, with the
/// numerator capped at the denominator; zero for a zero denominator.
pub open spec fn spec_ratio_parts_to_bps(numerator: u64, denominator: u64) -> u64 {
    if denominator == 0 {
        0
    } else {
        let n: int = if numerator < denominator { numerator as int } else { denominator as int };
        ((n * 10_000 + denominator / 2) / (denominator as int)) as u64
    }
}

pub fn ratio_parts_to_bps(numerator: u64, denominator: u64) -> (out: u64)
    ensures
        out == spec_ratio_parts_to_bps(numerator, denominator),
        out <= 10_000,
{
    if denominator == 0 {
        return 0;
    }
    let n: u128 = if numerator < denominator { numerator as u128 } else { denominator as u128 };
    let d: u128 = denominator as u128;
    assert(n * 10_000 + d / 2 <= d * 10_000 + d) by (nonlinear_arith)
        requires
            n <= d,
    ;
    assert(d * 10_000 + d <= 18446744073709551615u128 * 10_001) by (nonlinear_arith)
        requires
            d <= 18446744073709551615u128,
    ;
    let num = n * 10_000 + d / 2;
    let q = num / d;
    assert(q <= 10_000) by (nonlinear_arith)
        requires
            q as int == num as int / d as int,
            num <= d * 10_000 + d / 2,
            d > 0,
    ;
    q as u64
}

/// `a * b`, or `u64::MAX` where the product does not fit.
pub open spec fn sat_mul(a: u64, b: u64) -> u64 {
    if a * b > u64::MAX { u64::MAX } else { (a * b) as u64 }
}

fn saturating_mul(a: u64, b: u64) -> (out: u64)
    ensures
        out == sat_mul(a, b),
{
    match a.checked_mul(b) {
        Some(v) => v,
        None => u64::MAX,
    }
}

/// The seconds in `days` days, saturating.
pub open spec fn spec_required_duration_seconds(days: u64) -> u64 {
    sat_mul(sat_mul(sat_mul(days, 24), 60), 60)
}

pub fn required_duration_seconds_for_days(days: u64) -> (out: u64)
    ensures
        out == spec_required_duration_seconds(days),
{
    saturating_mul(saturating_mul(saturating_mul(days, 24), 60), 60)
}

/// The blocks that `days` days hold at one block per `block_time_seconds`
/// (at least one second).
pub fn required_blocks_for_days(days: u64, block_time_seconds: u64) -> (out: u64)
    ensures
        out == spec_required_duration_seconds(days) / (if block_time_seconds < 1 { 1u64 } else { block_time_seconds }),
{
    let t = if block_time_seconds < 1 { 1 } else { block_time_seconds };
    required_duration_seconds_for_days(days) / t
}

/// What a public testnet run observed of its libp2p networking.
#[derive(Clone, Copy, Debug, PartialEq, Eq, Structural)]
pub struct PublicNetworkRuntimeEvidence {
    pub libp2p_runtime_used: bool,
    pub peer_discovery_observed: bool,
    pub gossip_propagation_observed: bool,
    pub request_response_observed: bool,
    pub dos_controls_enabled: bool,
}

/// The deployment of one public service, as a preflight manifest plans it.
#[derive(Clone, Debug, PartialEq, Eq)]
pub struct PublicDeploymentServicePlan {
    pub kind: PublicServiceKind,
    pub endpoint_id: Hash32,
    pub public_url: String,
    pub health_path: String,
    pub content_url: String,
    pub content_path: String,
    pub auth_enabled: bool,
    pub rate_limit_enabled: bool,
}

/// A planned public testnet deployment.
#[derive(Clone, Debug, PartialEq, Eq)]
pub struct PublicTestnetPreflightPlan {
    pub config: TestnetConfig,
    pub criteria: PublicTestnetCriteria,
    pub cuda_kernels_available: bool,
    pub cuda_ready_miner_count: usize,
    pub libp2p_ready_node_count: usize,
    pub network_runtime: PublicNetworkRuntimeEvidence,
    pub services: Vec<PublicDeploymentServicePlan>,
}

/// What a preflight check of a plan found.
#[derive(Clone, Copy, Debug, PartialEq, Eq)]
pub struct PublicTestnetPreflightReport {
    pub miner_count: usize,
    pub validator_count: usize,
    pub required_blocks: u64,
    pub has_required_miners: bool,
    pub has_required_validators: bool,
    pub has_positive_stakes: bool,
    pub has_funded_faucet: bool,
    pub has_cuda_kernels_available: bool,
    pub cuda_ready_miner_count: usize,
    pub has_cuda_ready_miners: bool,
    pub libp2p_ready_node_count: usize,
    pub has_libp2p_ready_nodes: bool,
    pub has_production_libp2p_runtime: bool,
    pub has_rpc_service_plan: bool,
    pub has_explorer_service_plan: bool,
    pub has_faucet_service_plan: bool,
    pub has_telemetry_service_plan: bool,
    pub has_public_service_content_plan: bool,
    pub has_public_service_plan: bool,
    pub local_shape_ready: bool,
    pub deployment_plan_ready: bool,
    pub can_start_public_run: bool,
}

/// What a public run's evidence shows against the criteria.
#[derive(Clone, Copy, Debug, PartialEq, Eq)]
pub struct PublicTestnetEvidence {
    pub miner_count: usize,
    pub validator_count: usize,
    pub run_started_at_unix_seconds: u64,
    pub run_ended_at_unix_seconds: u64,
    pub observed_duration_seconds: u64,
    pub required_duration_seconds: u64,
    pub observed_blocks: u64,
    pub required_blocks: u64,
    pub finality_rate_bps: u64,
    pub data_availability_bps: u64,
    pub invalid_receipts_submitted: u64,
    pub invalid_receipts_rejected: u64,
    pub invalid_work_rejection_rate_bps: u64,
    pub reward_settlement_records: u64,
    pub external_operator_evidence: bool,
    pub has_production_libp2p_runtime: bool,
    pub has_deployed_rpc_service: bool,
    pub has_deployed_explorer_service: bool,
    pub has_deployed_faucet_service: bool,
    pub has_deployed_telemetry_service: bool,
    pub has_deployed_public_service_content: bool,
    pub has_deployed_public_services: bool,
    pub has_required_miners: bool,
    pub has_required_validators: bool,
    pub has_required_run_duration: bool,
    pub has_required_block_count: bool,
    pub has_required_finality: bool,
    pub has_required_data_availability: bool,
    pub has_invalid_work_rejection_evidence: bool,
    pub has_reward_settlement_records: bool,
    pub public_criterion_met: bool,
}

/// The raw observations of a public run.
#[derive(Clone, Debug, PartialEq, Eq)]
pub struct PublicTestnetRunEvidence {
    pub nodes: Vec<PublicNodeEvidence>,
    pub network_runtime: PublicNetworkRuntimeEvidence,
    pub services: Vec<PublicServiceEvidence>,
    pub service_content: Vec<PublicServiceContentEvidence>,
    pub run_started_at_unix_seconds: u64,
    pub run_ended_at_unix_seconds: u64,
    pub observed_blocks: u64,
    pub finalized_blocks: u64,
    pub checked_receipts: u64,
    pub available_receipts: u64,
    pub invalid_receipts_submitted: u64,
    pub invalid_receipts_rejected: u64,
    pub reward_settlement_records: u64,
}

/// Counts and roots of the record sets a public evidence bundle publishes.
#[derive(Clone, Copy, Debug, PartialEq, Eq)]
pub struct PublicEvidenceRecordSummaries {
    pub block_history_records: u64,
    pub block_history_root: Hash32,
    pub finality_history_records: u64,
    pub finality_history_root: Hash32,
    pub operator_identity_attestation_records: u64,
    pub network_runtime_observation_records: u64,
    pub network_runtime_observation_root: Hash32,
    pub data_availability_measurement_records: u64,
    pub data_availability_measurement_root: Hash32,
    pub invalid_work_rejection_records: u64,
    pub invalid_work_rejection_root: Hash32,
    pub reward_settlement_root: Hash32,
}

/// The conclusions drawn from a full evidence bundle.
#[derive(Clone, Copy, Debug, PartialEq, Eq)]
pub struct PublicTestnetEvidenceBundleReport {
    pub run_evidence: PublicTestnetEvidence,
    pub has_published_evidence_bundle: bool,
    pub has_independent_auditor_records: bool,
    pub has_signed_run_window: bool,
    pub has_block_history: bool,
    pub has_finality_history: bool,
    pub has_operator_identity_attestations: bool,
    pub has_network_runtime_observations: bool,
    pub has_data_availability_measurements: bool,
    pub has_invalid_work_rejection_records: bool,
    pub has_reward_settlement_record_summary: bool,
    pub has_public_supporting_record_artifacts: bool,
    pub independently_checkable: bool,
    pub full_spec_evidence_met: bool,
}

} // verus!
