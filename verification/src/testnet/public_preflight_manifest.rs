use vstd::prelude::*;
use vstd::string::{StrSliceExecFns, StringSliceAdditionalSpecFns};
use crate::error::{Result, TvmError};
use crate::record_fields::exact_record;
use crate::testnet::config::{
    PUBLIC_TESTNET_PREFLIGHT_MANIFEST_VERSION, PublicDeploymentServicePlan, PublicNetworkRuntimeEvidence,
    PublicTestnetCriteria, PublicTestnetPreflightPlan, TestnetConfig, full_spec_criteria,
};
use crate::testnet::public_manifest_fields::{
    exact_manifest_record_fields, exact_manifest_scalar, is_padded, padded, parse_hash_hex, parse_manifest_bool,
    parse_manifest_u64, parse_manifest_usize, parse_service_kind, receipt_result, reject_manifest_key_whitespace,
    required_bool, required_u64, required_usize, spec_parse_bool, spec_parse_evidence_hash, spec_parse_number,
    spec_parse_service_kind, skipped_line, skips_line, find_char, contains_key,
};
use crate::testnet::public_services::PublicServiceKind;
use crate::text::{field_end, lines, split_on, str_eq, text_lines};

verus! {

/// A planned service deployment as the contracts see it.
pub struct ServicePlanView {
    pub kind: PublicServiceKind,
    pub endpoint_id: Seq<u8>,
    pub public_url: Seq<char>,
    pub health_path: Seq<char>,
    pub content_url: Seq<char>,
    pub content_path: Seq<char>,
    pub auth_enabled: bool,
    pub rate_limit_enabled: bool,
}

/// The view of a planned service deployment.
pub open spec fn service_plan_view(p: PublicDeploymentServicePlan) -> ServicePlanView {
    ServicePlanView {
        kind: p.kind,
        endpoint_id: p.endpoint_id@,
        public_url: p.public_url@,
        health_path: p.health_path@,
        content_url: p.content_url@,
        content_path: p.content_path@,
        auth_enabled: p.auth_enabled,
        rate_limit_enabled: p.rate_limit_enabled,
    }
}

/// What the fields of a preflight manifest have said so far.
pub struct PreflightState {
    pub version_seen: bool,
    pub miner_count: Option<usize>,
    pub validator_count: Option<usize>,
    pub miner_stake: Option<u64>,
    pub validator_stake: Option<u64>,
    pub faucet_balance: Option<u64>,
    pub faucet_drip: Option<u64>,
    pub cuda_kernels_available: Option<bool>,
    pub cuda_ready_miner_count: Option<usize>,
    pub libp2p_ready_node_count: Option<usize>,
    pub libp2p_runtime_used: Option<bool>,
    pub peer_discovery_observed: Option<bool>,
    pub gossip_propagation_observed: Option<bool>,
    pub request_response_observed: Option<bool>,
    pub dos_controls_enabled: Option<bool>,
    pub services: Seq<ServicePlanView>,
}

/// The state before any field.
pub open spec fn empty_preflight() -> PreflightState {
    PreflightState {
        version_seen: false,
        miner_count: None,
        validator_count: None,
        miner_stake: None,
        validator_stake: None,
        faucet_balance: None,
        faucet_drip: None,
        cuda_kernels_available: None,
        cuda_ready_miner_count: None,
        libp2p_ready_node_count: None,
        libp2p_runtime_used: None,
        peer_discovery_observed: None,
        gossip_propagation_observed: None,
        request_response_observed: None,
        dos_controls_enabled: None,
        services: Seq::empty(),
    }
}

/// The service plan a `service=` record describes: kind, endpoint id,
/// public URL, health path, content URL, content path, and two flags.
pub open spec fn spec_parse_service_plan(value: Seq<char>) -> core::result::Result<ServicePlanView, &'static str> {
    if !exact_record(value, 8) {
        Err("malformed preflight service plan")
    } else {
        let f = split_on(value, ',');
        match spec_parse_service_kind(f[0]) {
            Err(m) => Err(m),
            Ok(kind) => match spec_parse_evidence_hash(f[1]) {
                Err(m) => Err(m),
                Ok(id) => match spec_parse_bool(f[6]) {
                    Err(m) => Err(m),
                    Ok(auth) => match spec_parse_bool(f[7]) {
                        Err(m) => Err(m),
                        Ok(rate) => Ok(ServicePlanView {
                            kind,
                            endpoint_id: id,
                            public_url: f[2],
                            health_path: f[3],
                            content_url: f[4],
                            content_path: f[5],
                            auth_enabled: auth,
                            rate_limit_enabled: rate,
                        }),
                    },
                },
            },
        }
    }
}

/// The effect of field `key` with `value`.
pub open spec fn spec_set(b: PreflightState, key: Seq<char>, value: Seq<char>) -> core::result::Result<PreflightState, &'static str> {
    if padded(value) {
        Err("malformed manifest scalar value")
    } else if key == "version"@ {
        if value == PUBLIC_TESTNET_PREFLIGHT_MANIFEST_VERSION@ {
            Ok(PreflightState { version_seen: true, ..b })
        } else {
            Err("unsupported preflight manifest version")
        }
    } else if key == "miner_count"@ {
        match spec_parse_number(value, usize::MAX as nat) {
            Ok(v) => Ok(PreflightState { miner_count: Some(v as usize), ..b }),
            Err(m) => Err(m),
        }
    } else if key == "validator_count"@ {
        match spec_parse_number(value, usize::MAX as nat) {
            Ok(v) => Ok(PreflightState { validator_count: Some(v as usize), ..b }),
            Err(m) => Err(m),
        }
    } else if key == "miner_stake"@ {
        match spec_parse_number(value, u64::MAX as nat) {
            Ok(v) => Ok(PreflightState { miner_stake: Some(v as u64), ..b }),
            Err(m) => Err(m),
        }
    } else if key == "validator_stake"@ {
        match spec_parse_number(value, u64::MAX as nat) {
            Ok(v) => Ok(PreflightState { validator_stake: Some(v as u64), ..b }),
            Err(m) => Err(m),
        }
    } else if key == "faucet_balance"@ {
        match spec_parse_number(value, u64::MAX as nat) {
            Ok(v) => Ok(PreflightState { faucet_balance: Some(v as u64), ..b }),
            Err(m) => Err(m),
        }
    } else if key == "faucet_drip"@ {
        match spec_parse_number(value, u64::MAX as nat) {
            Ok(v) => Ok(PreflightState { faucet_drip: Some(v as u64), ..b }),
            Err(m) => Err(m),
        }
    } else if key == "cuda_kernels_available"@ {
        match spec_parse_bool(value) {
            Ok(v) => Ok(PreflightState { cuda_kernels_available: Some(v), ..b }),
            Err(m) => Err(m),
        }
    } else if key == "cuda_ready_miner_count"@ {
        match spec_parse_number(value, usize::MAX as nat) {
            Ok(v) => Ok(PreflightState { cuda_ready_miner_count: Some(v as usize), ..b }),
            Err(m) => Err(m),
        }
    } else if key == "libp2p_ready_node_count"@ {
        match spec_parse_number(value, usize::MAX as nat) {
            Ok(v) => Ok(PreflightState { libp2p_ready_node_count: Some(v as usize), ..b }),
            Err(m) => Err(m),
        }
    } else if key == "libp2p_runtime_used"@ {
        match spec_parse_bool(value) {
            Ok(v) => Ok(PreflightState { libp2p_runtime_used: Some(v), ..b }),
            Err(m) => Err(m),
        }
    } else if key == "peer_discovery_observed"@ {
        match spec_parse_bool(value) {
            Ok(v) => Ok(PreflightState { peer_discovery_observed: Some(v), ..b }),
            Err(m) => Err(m),
        }
    } else if key == "gossip_propagation_observed"@ {
        match spec_parse_bool(value) {
            Ok(v) => Ok(PreflightState { gossip_propagation_observed: Some(v), ..b }),
            Err(m) => Err(m),
        }
    } else if key == "request_response_observed"@ {
        match spec_parse_bool(value) {
            Ok(v) => Ok(PreflightState { request_response_observed: Some(v), ..b }),
            Err(m) => Err(m),
        }
    } else if key == "dos_controls_enabled"@ {
        match spec_parse_bool(value) {
            Ok(v) => Ok(PreflightState { dos_controls_enabled: Some(v), ..b }),
            Err(m) => Err(m),
        }
    } else if key == "service"@ {
        match spec_parse_service_plan(value) {
            Ok(p) => Ok(PreflightState { services: b.services.push(p), ..b }),
            Err(m) => Err(m),
        }
    } else {
        Err("unknown preflight manifest field")
    }
}

/// The effect of one manifest line on the fields seen so far and the keys
/// already given.
pub open spec fn spec_line(
    st: (PreflightState, Set<Seq<char>>),
    line: Seq<char>,
) -> core::result::Result<(PreflightState, Set<Seq<char>>), &'static str> {
    if skipped_line(line) {
        Ok(st)
    } else {
        let k = field_end(line, 0, '=');
        if k >= line.len() {
            Err("malformed preflight manifest line")
        } else {
            let key = line.subrange(0, k);
            let value = line.subrange(k + 1, line.len() as int);
            if padded(key) {
                Err("malformed manifest field key")
            } else if key != "service"@ && st.1.contains(key) {
                Err("duplicate preflight manifest field")
            } else {
                let seen = if key != "service"@ { st.1.insert(key) } else { st.1 };
                match spec_set(st.0, key, value) {
                    Ok(b) => Ok((b, seen)),
                    Err(m) => Err(m),
                }
            }
        }
    }
}

/// The effect of a sequence of manifest lines.
pub open spec fn spec_lines(lines: Seq<Seq<char>>) -> core::result::Result<(PreflightState, Set<Seq<char>>), &'static str>
    decreases lines.len(),
{
    if lines.len() == 0 {
        Ok((empty_preflight(), Set::empty()))
    } else {
        match spec_lines(lines.drop_last()) {
            Ok(st) => spec_line(st, lines.last()),
            Err(m) => Err(m),
        }
    }
}

/// The first required field that a complete state still lacks, by the
/// message that reports it.
pub open spec fn first_missing(b: PreflightState) -> Option<&'static str> {
    if b.miner_count is None || b.validator_count is None || b.miner_stake is None || b.validator_stake is None
        || b.faucet_balance is None || b.faucet_drip is None {
        Some("missing evidence manifest number")
    } else if b.cuda_kernels_available is None {
        Some("missing evidence manifest boolean")
    } else if b.cuda_ready_miner_count is None || b.libp2p_ready_node_count is None {
        Some("missing evidence manifest number")
    } else if b.libp2p_runtime_used is None || b.peer_discovery_observed is None || b.gossip_propagation_observed is None
        || b.request_response_observed is None || b.dos_controls_enabled is None {
        Some("missing evidence manifest boolean")
    } else {
        None
    }
}

/// What a preflight manifest text amounts to: the state its lines build,
/// once the version and every required field are present.
pub open spec fn spec_parse_preflight(input: Seq<char>) -> core::result::Result<PreflightState, &'static str> {
    match spec_lines(text_lines(input)) {
        Err(m) => Err(m),
        Ok(st) => if !st.0.version_seen {
            Err("missing preflight manifest version")
        } else {
            match first_missing(st.0) {
                Some(m) => Err(m),
                None => Ok(st.0),
            }
        },
    }
}

/// Whether a plan holds exactly what a complete state says, with the full
/// criteria.
pub open spec fn plan_matches(p: PublicTestnetPreflightPlan, b: PreflightState) -> bool {
    &&& b.miner_count == Some(p.config.miner_count)
    &&& b.validator_count == Some(p.config.validator_count)
    &&& b.miner_stake == Some(p.config.miner_stake)
    &&& b.validator_stake == Some(p.config.validator_stake)
    &&& b.faucet_balance == Some(p.config.faucet_balance)
    &&& b.faucet_drip == Some(p.config.faucet_drip)
    &&& p.criteria == full_spec_criteria()
    &&& b.cuda_kernels_available == Some(p.cuda_kernels_available)
    &&& b.cuda_ready_miner_count == Some(p.cuda_ready_miner_count)
    &&& b.libp2p_ready_node_count == Some(p.libp2p_ready_node_count)
    &&& b.libp2p_runtime_used == Some(p.network_runtime.libp2p_runtime_used)
    &&& b.peer_discovery_observed == Some(p.network_runtime.peer_discovery_observed)
    &&& b.gossip_propagation_observed == Some(p.network_runtime.gossip_propagation_observed)
    &&& b.request_response_observed == Some(p.network_runtime.request_response_observed)
    &&& b.dos_controls_enabled == Some(p.network_runtime.dos_controls_enabled)
    &&& p.services@.map_values(|s: PublicDeploymentServicePlan| service_plan_view(s)) == b.services
}

/// Reads a `service=` record into a deployment plan.
pub fn parse_preflight_service_plan(value: &str) -> (out: Result<PublicDeploymentServicePlan>)
    ensures
        match spec_parse_service_plan(value@) {
            Ok(v) => out matches Ok(p) && service_plan_view(p) == v,
            Err(m) => out == Err::<PublicDeploymentServicePlan, TvmError>(TvmError::InvalidReceipt(m)),
        },
{
    let fields = match exact_manifest_record_fields(value, 8, "malformed preflight service plan") {
        Ok(f) => f,
        Err(e) => return Err(e),
    };
    let ghost f = split_on(value@, ',');
    assert(fields@.len() == 8);
    assert(fields@[0]@ == f[0] && fields@[1]@ == f[1] && fields@[2]@ == f[2] && fields@[3]@ == f[3]);
    assert(fields@[4]@ == f[4] && fields@[5]@ == f[5] && fields@[6]@ == f[6] && fields@[7]@ == f[7]);
    let kind = match parse_service_kind(fields[0]) {
        Ok(k) => k,
        Err(e) => return Err(e),
    };
    let endpoint_id = match parse_hash_hex(fields[1]) {
        Ok(h) => h,
        Err(e) => return Err(e),
    };
    let auth_enabled = match parse_manifest_bool(fields[6]) {
        Ok(b) => b,
        Err(e) => return Err(e),
    };
    let rate_limit_enabled = match parse_manifest_bool(fields[7]) {
        Ok(b) => b,
        Err(e) => return Err(e),
    };
    Ok(PublicDeploymentServicePlan {
        kind,
        endpoint_id,
        public_url: fields[2].to_owned(),
        health_path: fields[3].to_owned(),
        content_url: fields[4].to_owned(),
        content_path: fields[5].to_owned(),
        auth_enabled,
        rate_limit_enabled,
    })
}

/// The fields a preflight manifest has given so far.
pub struct PublicTestnetPreflightManifestBuilder {
    version_seen: bool,
    miner_count: Option<usize>,
    validator_count: Option<usize>,
    miner_stake: Option<u64>,
    validator_stake: Option<u64>,
    faucet_balance: Option<u64>,
    faucet_drip: Option<u64>,
    cuda_kernels_available: Option<bool>,
    cuda_ready_miner_count: Option<usize>,
    libp2p_ready_node_count: Option<usize>,
    libp2p_runtime_used: Option<bool>,
    peer_discovery_observed: Option<bool>,
    gossip_propagation_observed: Option<bool>,
    request_response_observed: Option<bool>,
    dos_controls_enabled: Option<bool>,
    services: Vec<PublicDeploymentServicePlan>,
}

impl PublicTestnetPreflightManifestBuilder {
    pub closed spec fn state(&self) -> PreflightState {
        PreflightState {
            version_seen: self.version_seen,
            miner_count: self.miner_count,
            validator_count: self.validator_count,
            miner_stake: self.miner_stake,
            validator_stake: self.validator_stake,
            faucet_balance: self.faucet_balance,
            faucet_drip: self.faucet_drip,
            cuda_kernels_available: self.cuda_kernels_available,
            cuda_ready_miner_count: self.cuda_ready_miner_count,
            libp2p_ready_node_count: self.libp2p_ready_node_count,
            libp2p_runtime_used: self.libp2p_runtime_used,
            peer_discovery_observed: self.peer_discovery_observed,
            gossip_propagation_observed: self.gossip_propagation_observed,
            request_response_observed: self.request_response_observed,
            dos_controls_enabled: self.dos_controls_enabled,
            services: self.services@.map_values(|s: PublicDeploymentServicePlan| service_plan_view(s)),
        }
    }

    pub fn new() -> (out: Self)
        ensures
            out.state() == empty_preflight(),
    {
        let out = PublicTestnetPreflightManifestBuilder {
            version_seen: false,
            miner_count: None,
            validator_count: None,
            miner_stake: None,
            validator_stake: None,
            faucet_balance: None,
            faucet_drip: None,
            cuda_kernels_available: None,
            cuda_ready_miner_count: None,
            libp2p_ready_node_count: None,
            libp2p_runtime_used: None,
            peer_discovery_observed: None,
            gossip_propagation_observed: None,
            request_response_observed: None,
            dos_controls_enabled: None,
            services: Vec::new(),
        };
        assert(out.state().services =~= Seq::<ServicePlanView>::empty());
        out
    }

    /// Records field `key` with `value`.
    pub fn set(&mut self, key: &str, value: &str) -> (out: Result<()>)
        ensures
            match spec_set(old(self).state(), key@, value@) {
                Ok(b) => out is Ok && final(self).state() == b,
                Err(m) => out == Err::<(), TvmError>(TvmError::InvalidReceipt(m)),
            },
    {
        let scalar = match exact_manifest_scalar(value) {
            Ok(v) => v,
            Err(e) => return Err(e),
        };
        if str_eq(key, "version") {
            if !str_eq(scalar, PUBLIC_TESTNET_PREFLIGHT_MANIFEST_VERSION) {
                return Err(TvmError::InvalidReceipt("unsupported preflight manifest version"));
            }
            self.version_seen = true;
        } else if str_eq(key, "miner_count") {
            match parse_manifest_usize(scalar) {
                Ok(v) => self.miner_count = Some(v),
                Err(e) => return Err(e),
            }
        } else if str_eq(key, "validator_count") {
            match parse_manifest_usize(scalar) {
                Ok(v) => self.validator_count = Some(v),
                Err(e) => return Err(e),
            }
        } else if str_eq(key, "miner_stake") {
            match parse_manifest_u64(scalar) {
                Ok(v) => self.miner_stake = Some(v),
                Err(e) => return Err(e),
            }
        } else if str_eq(key, "validator_stake") {
            match parse_manifest_u64(scalar) {
                Ok(v) => self.validator_stake = Some(v),
                Err(e) => return Err(e),
            }
        } else if str_eq(key, "faucet_balance") {
            match parse_manifest_u64(scalar) {
                Ok(v) => self.faucet_balance = Some(v),
                Err(e) => return Err(e),
            }
        } else if str_eq(key, "faucet_drip") {
            match parse_manifest_u64(scalar) {
                Ok(v) => self.faucet_drip = Some(v),
                Err(e) => return Err(e),
            }
        } else if str_eq(key, "cuda_kernels_available") {
            match parse_manifest_bool(scalar) {
                Ok(v) => self.cuda_kernels_available = Some(v),
                Err(e) => return Err(e),
            }
        } else if str_eq(key, "cuda_ready_miner_count") {
            match parse_manifest_usize(scalar) {
                Ok(v) => self.cuda_ready_miner_count = Some(v),
                Err(e) => return Err(e),
            }
        } else if str_eq(key, "libp2p_ready_node_count") {
            match parse_manifest_usize(scalar) {
                Ok(v) => self.libp2p_ready_node_count = Some(v),
                Err(e) => return Err(e),
            }
        } else if str_eq(key, "libp2p_runtime_used") {
            match parse_manifest_bool(scalar) {
                Ok(v) => self.libp2p_runtime_used = Some(v),
                Err(e) => return Err(e),
            }
        } else if str_eq(key, "peer_discovery_observed") {
            match parse_manifest_bool(scalar) {
                Ok(v) => self.peer_discovery_observed = Some(v),
                Err(e) => return Err(e),
            }
        } else if str_eq(key, "gossip_propagation_observed") {
            match parse_manifest_bool(scalar) {
                Ok(v) => self.gossip_propagation_observed = Some(v),
                Err(e) => return Err(e),
            }
        } else if str_eq(key, "request_response_observed") {
            match parse_manifest_bool(scalar) {
                Ok(v) => self.request_response_observed = Some(v),
                Err(e) => return Err(e),
            }
        } else if str_eq(key, "dos_controls_enabled") {
            match parse_manifest_bool(scalar) {
                Ok(v) => self.dos_controls_enabled = Some(v),
                Err(e) => return Err(e),
            }
        } else if str_eq(key, "service") {
            let plan = match parse_preflight_service_plan(value) {
                Ok(p) => p,
                Err(e) => return Err(e),
            };
            let ghost before = self.services@;
            self.services.push(plan);
            assert(self.services@.map_values(|s: PublicDeploymentServicePlan| service_plan_view(s))
                =~= before.map_values(|s: PublicDeploymentServicePlan| service_plan_view(s)).push(service_plan_view(plan)));
        } else {
            return Err(TvmError::InvalidReceipt("unknown preflight manifest field"));
        }
        Ok(())
    }

    /// The plan, once the version and every required field are present.
    pub fn finish(self) -> (out: Result<PublicTestnetPreflightPlan>)
        ensures
            !self.state().version_seen ==> out == Err::<PublicTestnetPreflightPlan, TvmError>(
                TvmError::InvalidReceipt("missing preflight manifest version"),
            ),
            self.state().version_seen ==> match first_missing(self.state()) {
                Some(m) => out == Err::<PublicTestnetPreflightPlan, TvmError>(TvmError::InvalidReceipt(m)),
                None => out matches Ok(p) && plan_matches(p, self.state()),
            },
    {
        if !self.version_seen {
            return Err(TvmError::InvalidReceipt("missing preflight manifest version"));
        }
        let miner_count = match required_usize(self.miner_count) {
            Ok(v) => v,
            Err(e) => return Err(e),
        };
        let validator_count = match required_usize(self.validator_count) {
            Ok(v) => v,
            Err(e) => return Err(e),
        };
        let miner_stake = match required_u64(self.miner_stake) {
            Ok(v) => v,
            Err(e) => return Err(e),
        };
        let validator_stake = match required_u64(self.validator_stake) {
            Ok(v) => v,
            Err(e) => return Err(e),
        };
        let faucet_balance = match required_u64(self.faucet_balance) {
            Ok(v) => v,
            Err(e) => return Err(e),
        };
        let faucet_drip = match required_u64(self.faucet_drip) {
            Ok(v) => v,
            Err(e) => return Err(e),
        };
        let cuda_kernels_available = match required_bool(self.cuda_kernels_available) {
            Ok(v) => v,
            Err(e) => return Err(e),
        };
        let cuda_ready_miner_count = match required_usize(self.cuda_ready_miner_count) {
            Ok(v) => v,
            Err(e) => return Err(e),
        };
        let libp2p_ready_node_count = match required_usize(self.libp2p_ready_node_count) {
            Ok(v) => v,
            Err(e) => return Err(e),
        };
        let libp2p_runtime_used = match required_bool(self.libp2p_runtime_used) {
            Ok(v) => v,
            Err(e) => return Err(e),
        };
        let peer_discovery_observed = match required_bool(self.peer_discovery_observed) {
            Ok(v) => v,
            Err(e) => return Err(e),
        };
        let gossip_propagation_observed = match required_bool(self.gossip_propagation_observed) {
            Ok(v) => v,
            Err(e) => return Err(e),
        };
        let request_response_observed = match required_bool(self.request_response_observed) {
            Ok(v) => v,
            Err(e) => return Err(e),
        };
        let dos_controls_enabled = match required_bool(self.dos_controls_enabled) {
            Ok(v) => v,
            Err(e) => return Err(e),
        };
        Ok(PublicTestnetPreflightPlan {
            config: TestnetConfig {
                miner_count,
                validator_count,
                miner_stake,
                validator_stake,
                faucet_balance,
                faucet_drip,
            },
            criteria: PublicTestnetCriteria::default(),
            cuda_kernels_available,
            cuda_ready_miner_count,
            libp2p_ready_node_count,
            network_runtime: PublicNetworkRuntimeEvidence {
                libp2p_runtime_used,
                peer_discovery_observed,
                gossip_propagation_observed,
                request_response_observed,
                dos_controls_enabled,
            },
            services: self.services,
        })
    }
}

proof fn lemma_error_propagates(ls: Seq<Seq<char>>, j: int, m: &'static str)
    requires
        0 <= j <= ls.len(),
        spec_lines(ls.take(j)) == Err::<(PreflightState, Set<Seq<char>>), &'static str>(m),
    ensures
        spec_lines(ls) == Err::<(PreflightState, Set<Seq<char>>), &'static str>(m),
    decreases ls.len() - j,
{
    if j < ls.len() {
        assert(ls.take(j + 1).drop_last() =~= ls.take(j));
        lemma_error_propagates(ls, j + 1, m);
    } else {
        assert(ls.take(j) =~= ls);
    }
}

/// Reads a preflight manifest: `key=value` lines, blank lines and `#`
/// comments skipped; every scalar field at most once, any number of
/// `service=` records; then the version and every required field must be
/// present. The first failing line, or the first missing field, decides the
/// error.
pub fn parse_public_testnet_preflight_manifest(input: &str) -> (out: Result<PublicTestnetPreflightPlan>)
    ensures
        match spec_parse_preflight(input@) {
            Ok(b) => out matches Ok(p) && plan_matches(p, b),
            Err(m) => out == Err::<PublicTestnetPreflightPlan, TvmError>(TvmError::InvalidReceipt(m)),
        },
{
    let all = lines(input);
    let ghost views = all@.map_values(|w: &str| w@);
    let mut builder = PublicTestnetPreflightManifestBuilder::new();
    let mut seen: Vec<&str> = Vec::new();
    assert(views.take(0) =~= Seq::<Seq<char>>::empty());
    assert(seen@.map_values(|w: &str| w@).to_set() =~= Set::<Seq<char>>::empty());
    let mut i: usize = 0;
    while i < all.len()
        invariant
            views == all@.map_values(|w: &str| w@),
            views == text_lines(input@),
            i <= all@.len(),
            spec_lines(views.take(i as int)) == Ok::<(PreflightState, Set<Seq<char>>), &'static str>(
                (builder.state(), seen@.map_values(|w: &str| w@).to_set()),
            ),
        decreases all@.len() - i,
    {
        let raw = all[i];
        proof {
            assert(views.take(i + 1).drop_last() =~= views.take(i as int));
            assert(views.take(i + 1).last() == raw@);
        }
        if !skips_line(raw) {
            let n = raw.unicode_len();
            let k = find_char(raw, '=');
            if k >= n {
                proof {
                    lemma_error_propagates(views, i + 1, "malformed preflight manifest line");
                }
                return Err(TvmError::InvalidReceipt("malformed preflight manifest line"));
            }
            let key = raw.substring_char(0, k);
            let value = raw.substring_char(k + 1, n);
            match reject_manifest_key_whitespace(key) {
                Ok(()) => {},
                Err(e) => {
                    proof {
                        lemma_error_propagates(views, i + 1, "malformed manifest field key");
                    }
                    return Err(e);
                },
            }
            let is_service = str_eq(key, "service");
            if !is_service {
                if contains_key(seen.as_slice(), key) {
                    proof {
                        lemma_error_propagates(views, i + 1, "duplicate preflight manifest field");
                    }
                    return Err(TvmError::InvalidReceipt("duplicate preflight manifest field"));
                }
                let ghost before = seen@;
                seen.push(key);
                proof {
                    assert(seen@.map_values(|w: &str| w@) =~= before.map_values(|w: &str| w@).push(key@));
                    assert(seen@.map_values(|w: &str| w@).to_set() =~= before.map_values(|w: &str| w@).to_set().insert(key@)) by {
                        broadcast use vstd::seq_lib::group_seq_properties;
                        let a = seen@.map_values(|w: &str| w@);
                        let b = before.map_values(|w: &str| w@);
                        assert forall|x: Seq<char>| a.to_set().contains(x) <==> b.to_set().insert(key@).contains(x) by {
                            if a.to_set().contains(x) {
                                let j = choose|j: int| 0 <= j < a.len() && a[j] == x;
                                if j < b.len() {
                                    assert(b[j] == x);
                                }
                            }
                            if b.to_set().contains(x) {
                                let j = choose|j: int| 0 <= j < b.len() && b[j] == x;
                                assert(a[j] == x);
                            }
                            if x == key@ {
                                assert(a[b.len() as int] == x);
                            }
                        }
                    }
                }
            }
            let ghost before_state = builder.state();
            match builder.set(key, value) {
                Ok(()) => {},
                Err(e) => {
                    proof {
                        let m = spec_set(before_state, key@, value@)->Err_0;
                        lemma_error_propagates(views, i + 1, m);
                    }
                    return Err(e);
                },
            }
        }
        i += 1;
    }
    assert(views.take(all@.len() as int) =~= views);
    builder.finish()
}

} // verus!
