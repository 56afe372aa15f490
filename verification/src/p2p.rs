use vstd::prelude::*;

pub mod peer_book;

verus! {

/// The prefix shared by every TensorVM libp2p protocol name.
pub const LIBP2P_PROTOCOL_PREFIX: &'static str = "/tensorchain/1";

/// Why the node uses libp2p, and for what.
#[derive(Clone, Debug, Eq, PartialEq)]
pub struct NetworkStackRecommendation {
    pub libp2p_required: bool,
    pub consensus_transport: &'static str,
    pub tensor_fetch_transport: &'static str,
    pub rationale: Vec<&'static str>,
}

/// The network stack a TensorVM node runs: libp2p for consensus gossip and
/// for bounded tensor and program fetches.
pub fn recommended_network_stack() -> (out: NetworkStackRecommendation)
    ensures
        out.libp2p_required,
        out.consensus_transport == "rust-libp2p gossipsub/identify/kademlia",
        out.tensor_fetch_transport == "rust-libp2p request-response",
        out.rationale@ == seq![
            "rust-libp2p is the mandatory TensorVM P2P runtime dependency",
            "gossipsub carries block, job, receipt, attestation, and peer announcements",
            "identify advertises TensorVM protocol support to connected peers",
            "request-response streams carry tensor roots, rows, chunks, and program fetches",
            "the TensorVM MVP uses libp2p for both consensus propagation and bounded tensor/program fetches",
        ],
{
    let rationale = vec![
        "rust-libp2p is the mandatory TensorVM P2P runtime dependency",
        "gossipsub carries block, job, receipt, attestation, and peer announcements",
        "identify advertises TensorVM protocol support to connected peers",
        "request-response streams carry tensor roots, rows, chunks, and program fetches",
        "the TensorVM MVP uses libp2p for both consensus propagation and bounded tensor/program fetches",
    ];
    NetworkStackRecommendation {
        libp2p_required: true,
        consensus_transport: "rust-libp2p gossipsub/identify/kademlia",
        tensor_fetch_transport: "rust-libp2p request-response",
        rationale,
    }
}

/// The gossip topics a TensorVM node subscribes to.
#[derive(Clone, Copy, Debug, Eq, PartialEq)]
pub enum GossipTopic {
    Blocks,
    Jobs,
    Receipts,
    Attestations,
    Peers,
}

impl GossipTopic {
    /// The topic's name.
    pub open spec fn spec_name(self) -> &'static str {
        match self {
            GossipTopic::Blocks => "/tensorchain/1/blocks",
            GossipTopic::Jobs => "/tensorchain/1/jobs",
            GossipTopic::Receipts => "/tensorchain/1/receipts",
            GossipTopic::Attestations => "/tensorchain/1/attestations",
            GossipTopic::Peers => "/tensorchain/1/peers",
        }
    }

    /// The topic's name.
    pub fn as_str(self) -> (out: &'static str)
        ensures
            out == self.spec_name(),
    {
        match self {
            GossipTopic::Blocks => "/tensorchain/1/blocks",
            GossipTopic::Jobs => "/tensorchain/1/jobs",
            GossipTopic::Receipts => "/tensorchain/1/receipts",
            GossipTopic::Attestations => "/tensorchain/1/attestations",
            GossipTopic::Peers => "/tensorchain/1/peers",
        }
    }
}

/// The request-response protocols a TensorVM node serves.
#[derive(Clone, Copy, Debug, Eq, Hash, PartialEq)]
pub enum RequestResponseProtocol {
    TensorChunk,
    TensorRow,
    TensorByRoot,
    Program,
}

impl RequestResponseProtocol {
    /// The protocol's name.
    pub open spec fn spec_name(self) -> &'static str {
        match self {
            RequestResponseProtocol::TensorChunk => "/tensorchain/1/tensor/chunk",
            RequestResponseProtocol::TensorRow => "/tensorchain/1/tensor/row",
            RequestResponseProtocol::TensorByRoot => "/tensorchain/1/tensor/by-root",
            RequestResponseProtocol::Program => "/tensorchain/1/program",
        }
    }

    /// The protocol's name.
    pub fn as_str(self) -> (out: &'static str)
        ensures
            out == self.spec_name(),
    {
        match self {
            RequestResponseProtocol::TensorChunk => "/tensorchain/1/tensor/chunk",
            RequestResponseProtocol::TensorRow => "/tensorchain/1/tensor/row",
            RequestResponseProtocol::TensorByRoot => "/tensorchain/1/tensor/by-root",
            RequestResponseProtocol::Program => "/tensorchain/1/program",
        }
    }
}

/// The settings of a node's libp2p control plane.
#[derive(Clone, Debug, Eq, PartialEq)]
pub struct Libp2pControlPlaneConfig {
    pub gossipsub_topics: Vec<GossipTopic>,
    pub request_response_protocols: Vec<RequestResponseProtocol>,
    pub listen_addresses: Vec<String>,
    pub bootstrap_addresses: Vec<String>,
    pub identity_seed: Option<[u8; 32]>,
    pub max_gossipsub_transmit_bytes: usize,
    pub request_timeout_seconds: u64,
    pub max_concurrent_request_streams: usize,
    pub idle_connection_timeout_seconds: u64,
}

impl Default for Libp2pControlPlaneConfig {
    /// Every topic and protocol, no addresses, a random identity, a 1 MiB
    /// gossip limit, 10 s requests, 128 request streams, 60 s idle timeout.
    fn default() -> (out: Self)
        ensures
            out.gossipsub_topics@ == seq![
                GossipTopic::Blocks,
                GossipTopic::Jobs,
                GossipTopic::Receipts,
                GossipTopic::Attestations,
                GossipTopic::Peers,
            ],
            out.request_response_protocols@ == seq![
                RequestResponseProtocol::TensorChunk,
                RequestResponseProtocol::TensorRow,
                RequestResponseProtocol::TensorByRoot,
                RequestResponseProtocol::Program,
            ],
            out.listen_addresses@.len() == 0,
            out.bootstrap_addresses@.len() == 0,
            out.identity_seed is None,
            out.max_gossipsub_transmit_bytes == 1048576,
            out.request_timeout_seconds == 10,
            out.max_concurrent_request_streams == 128,
            out.idle_connection_timeout_seconds == 60,
    {
        Libp2pControlPlaneConfig {
            gossipsub_topics: vec![
                GossipTopic::Blocks,
                GossipTopic::Jobs,
                GossipTopic::Receipts,
                GossipTopic::Attestations,
                GossipTopic::Peers,
            ],
            request_response_protocols: vec![
                RequestResponseProtocol::TensorChunk,
                RequestResponseProtocol::TensorRow,
                RequestResponseProtocol::TensorByRoot,
                RequestResponseProtocol::Program,
            ],
            listen_addresses: Vec::new(),
            bootstrap_addresses: Vec::new(),
            identity_seed: None,
            max_gossipsub_transmit_bytes: 1048576,
            request_timeout_seconds: 10,
            max_concurrent_request_streams: 128,
            idle_connection_timeout_seconds: 60,
        }
    }
}

} // verus!
