use vstd::prelude::*;
use vstd::string::StrSliceExecFns;
use std::path::PathBuf;
use core::time::Duration;
use crate::scheduler::{JobScheduler, SyntheticLocalJobSource};
use crate::text::str_eq;

verus! {

/// A filesystem path, carried through as it is.
#[verifier::external_type_specification]
#[verifier::external_body]
pub struct ExPathBuf(PathBuf);

/// `PathBuf::clone`, for the derived `Clone` of the types that hold a path;
/// nothing is claimed of the copy.
pub assume_specification [<PathBuf as Clone>::clone](path: &PathBuf) -> (out: PathBuf);

/// Builds a path from text with `PathBuf::from`; nothing is claimed of it.
#[verifier::external_body]
fn path_from(text: &str) -> (out: PathBuf) {
    PathBuf::from(text)
}

/// Which network a node serves.
#[derive(Clone, Copy, Debug, PartialEq, Eq, Structural)]
pub enum ChainNetwork {
    Local,
    Testnet,
    Mainnet,
}

/// The part a node plays.
#[derive(Clone, Copy, Debug, PartialEq, Eq, Structural)]
pub enum NodeRole {
    Gateway,
    Miner,
    Proposer,
    Validator,
    Explorer,
}

/// Where a node's services listen.
#[derive(Clone, Copy, Debug, PartialEq, Eq, Structural)]
pub enum ServiceExposure {
    LoopbackOnly,
    PublicHttps,
}

/// The deployment settings of a network: participant counts and stakes,
/// faucet funding, synthetic jobs, and service exposure.
#[derive(Clone, Debug, PartialEq, Eq)]
pub struct ChainProfile {
    pub network: ChainNetwork,
    pub miner_count: usize,
    pub validator_count: usize,
    pub miner_stake: u64,
    pub validator_stake: u64,
    pub faucet_balance: u64,
    pub faucet_drip: u64,
    pub synthetic_job_scheduler: Option<JobScheduler>,
    pub public_evidence_required: bool,
    pub service_exposure: ServiceExposure,
}

/// The counts, stakes and funding that every profile shares.
pub open spec fn has_base_settings(p: ChainProfile) -> bool {
    &&& p.miner_count == 10
    &&& p.validator_count == 5
    &&& p.miner_stake == 100
    &&& p.validator_stake == 10_000
    &&& p.faucet_balance == 1_000_000
    &&& p.faucet_drip == 100
}

/// The local CPU profile: loopback services, no public evidence, and
/// synthetic 8x8x8 matmul jobs.
pub open spec fn is_local_cpu(p: ChainProfile) -> bool {
    &&& p.network == ChainNetwork::Local
    &&& has_base_settings(p)
    &&& p.synthetic_job_scheduler matches Some(s) && s.small_matmul == (8usize, 8usize, 8usize)
        && s.medium_matmul == (4096usize, 4096usize, 4096usize)
    &&& !p.public_evidence_required
    &&& p.service_exposure == ServiceExposure::LoopbackOnly
}

/// A public profile on `network`: public HTTPS services, public evidence, no
/// synthetic jobs.
pub open spec fn is_public(p: ChainProfile, network: ChainNetwork) -> bool {
    &&& p.network == network
    &&& has_base_settings(p)
    &&& p.synthetic_job_scheduler is None
    &&& p.public_evidence_required
    &&& p.service_exposure == ServiceExposure::PublicHttps
}

/// The profile that a label names.
pub open spec fn label_profile(label: Seq<char>, p: ChainProfile) -> bool {
    if label == "local"@ || label == "local_cpu"@ {
        is_local_cpu(p)
    } else if label == "testnet"@ || label == "public_testnet"@ {
        is_public(p, ChainNetwork::Testnet)
    } else {
        is_public(p, ChainNetwork::Mainnet)
    }
}

/// Whether a label names a profile.
pub open spec fn known_label(label: Seq<char>) -> bool {
    label == "local"@ || label == "local_cpu"@ || label == "testnet"@ || label == "public_testnet"@
        || label == "mainnet"@
}

impl ChainProfile {
    /// The profile named by `label`: `local` or `local_cpu`, `testnet` or
    /// `public_testnet`, or `mainnet`.
    pub fn from_label(label: &str) -> (out: Option<Self>)
        ensures
            out is Some <==> known_label(label@),
            out matches Some(p) ==> label_profile(label@, p),
    {
        if str_eq(label, "local") || str_eq(label, "local_cpu") {
            Some(Self::local_cpu())
        } else if str_eq(label, "testnet") || str_eq(label, "public_testnet") {
            Some(Self::public_testnet())
        } else if str_eq(label, "mainnet") {
            Some(Self::mainnet())
        } else {
            None
        }
    }

    pub fn local_cpu() -> (out: Self)
        ensures
            is_local_cpu(out),
    {
        ChainProfile {
            network: ChainNetwork::Local,
            miner_count: 10,
            validator_count: 5,
            miner_stake: 100,
            validator_stake: 10_000,
            faucet_balance: 1_000_000,
            faucet_drip: 100,
            synthetic_job_scheduler: Some(JobScheduler::with_small_shape((8, 8, 8))),
            public_evidence_required: false,
            service_exposure: ServiceExposure::LoopbackOnly,
        }
    }

    pub fn public_testnet() -> (out: Self)
        ensures
            is_public(out, ChainNetwork::Testnet),
    {
        ChainProfile {
            network: ChainNetwork::Testnet,
            synthetic_job_scheduler: None,
            public_evidence_required: true,
            service_exposure: ServiceExposure::PublicHttps,
            ..Self::local_cpu()
        }
    }

    pub fn mainnet() -> (out: Self)
        ensures
            is_public(out, ChainNetwork::Mainnet),
    {
        ChainProfile {
            network: ChainNetwork::Mainnet,
            synthetic_job_scheduler: None,
            public_evidence_required: true,
            service_exposure: ServiceExposure::PublicHttps,
            ..Self::local_cpu()
        }
    }

    /// The canonical label of the profile's network.
    pub fn label(&self) -> (out: &'static str)
        ensures
            out@ == match self.network {
                ChainNetwork::Local => "local_cpu"@,
                ChainNetwork::Testnet => "public_testnet"@,
                ChainNetwork::Mainnet => "mainnet"@,
            },
    {
        match self.network {
            ChainNetwork::Local => "local_cpu",
            ChainNetwork::Testnet => "public_testnet",
            ChainNetwork::Mainnet => "mainnet",
        }
    }

    pub fn requires_public_services(&self) -> (out: bool)
        ensures
            out == (self.service_exposure == ServiceExposure::PublicHttps),
    {
        match self.service_exposure {
            ServiceExposure::PublicHttps => true,
            ServiceExposure::LoopbackOnly => false,
        }
    }

    pub fn synthetic_jobs_enabled(&self) -> (out: bool)
        ensures
            out == self.synthetic_job_scheduler is Some,
    {
        self.synthetic_job_scheduler.is_some()
    }

    /// A synthetic job source over the profile's scheduler, where it has one.
    pub fn synthetic_job_source(&self) -> (out: Option<SyntheticLocalJobSource>)
        ensures
            match self.synthetic_job_scheduler {
                Some(s) => out matches Some(source) && source.scheduler() == s,
                None => out is None,
            },
    {
        match self.synthetic_job_scheduler {
            Some(s) => Some(SyntheticLocalJobSource::new(s)),
            None => None,
        }
    }
}

/// A node's settings: its profile and role, where it keeps data, how often
/// it produces synthetic blocks, and whether it produces them itself.
#[derive(Clone, Debug, PartialEq, Eq)]
pub struct NodeConfig {
    pub profile: ChainProfile,
    pub role: NodeRole,
    pub data_dir: PathBuf,
    pub block_interval: Option<Duration>,
    pub local_producer: bool,
}

/// Whether a role may assemble blocks locally.
pub open spec fn produces_blocks(role: NodeRole) -> bool {
    role == NodeRole::Gateway || role == NodeRole::Proposer
}

impl NodeConfig {
    pub fn new(profile: ChainProfile, role: NodeRole, data_dir: &str) -> (out: Self)
        ensures
            out.profile == profile,
            out.role == role,
            out.block_interval is None,
            !out.local_producer,
    {
        NodeConfig { profile, role, data_dir: path_from(data_dir), block_interval: None, local_producer: false }
    }

    pub fn with_block_interval(self, interval: Option<Duration>) -> (out: Self)
        ensures
            out == (NodeConfig { block_interval: interval, ..self }),
    {
        let mut out = self;
        out.block_interval = interval;
        out
    }

    pub fn with_local_producer(self, enabled: bool) -> (out: Self)
        ensures
            out == (NodeConfig { local_producer: enabled, ..self }),
    {
        let mut out = self;
        out.local_producer = enabled;
        out
    }

    /// The block interval, where the profile has synthetic jobs.
    pub fn synthetic_block_interval(&self) -> (out: Option<Duration>)
        ensures
            out == (if self.profile.synthetic_job_scheduler is Some { self.block_interval } else { None }),
    {
        if self.profile.synthetic_jobs_enabled() {
            self.block_interval
        } else {
            None
        }
    }

    pub fn can_produce_local_blocks(&self) -> (out: bool)
        ensures
            out == produces_blocks(self.role),
    {
        match self.role {
            NodeRole::Gateway | NodeRole::Proposer => true,
            _ => false,
        }
    }

    /// Whether this node produces synthetic blocks on its own: it is asked
    /// to, its role may, and its profile has a synthetic block interval.
    pub fn local_synthetic_producer(&self) -> (out: bool)
        ensures
            out == (self.local_producer && produces_blocks(self.role)
                && self.profile.synthetic_job_scheduler is Some && self.block_interval is Some),
    {
        self.local_producer && self.can_produce_local_blocks() && self.synthetic_block_interval().is_some()
    }
}

} // verus!
