//! The decisions of the role services that need no chain: which role and
//! command a run stands for, how its wallet and settings are read, and how
//! its report and status lists are written.

use vstd::prelude::*;
use vstd::string::{StrSliceExecFns, StringExecFns, StringSliceAdditionalSpecFns};
use vstd::utf8::encode_utf8;
use crate::hash::{hex, spec_hex};
use crate::profile::NodeRole;
use crate::rpc::http::{trim, trim_ws};
use crate::text::{lines, parse_u64_text, spec_parse_unsigned, str_eq, text_lines};
use crate::types::{address, spec_address, Address, Hash32};

verus! {

/// The role a service run plays.
#[derive(Clone, Copy, Debug, PartialEq, Eq, Structural)]
pub enum RuntimeRole {
    Service,
    Miner,
    Validator,
    Proposer,
}

pub open spec fn runtime_role_label(role: RuntimeRole) -> Seq<char> {
    match role {
        RuntimeRole::Service => "service"@,
        RuntimeRole::Miner => "miner"@,
        RuntimeRole::Validator => "validator"@,
        RuntimeRole::Proposer => "proposer"@,
    }
}

pub open spec fn runtime_node_role(role: RuntimeRole) -> NodeRole {
    match role {
        RuntimeRole::Service => NodeRole::Gateway,
        RuntimeRole::Miner => NodeRole::Miner,
        RuntimeRole::Validator => NodeRole::Validator,
        RuntimeRole::Proposer => NodeRole::Proposer,
    }
}

impl RuntimeRole {
    pub fn label(self) -> (out: &'static str)
        ensures
            out@ == runtime_role_label(self),
    {
        match self {
            RuntimeRole::Service => "service",
            RuntimeRole::Miner => "miner",
            RuntimeRole::Validator => "validator",
            RuntimeRole::Proposer => "proposer",
        }
    }

    /// The node role a service run configures its node with; a plain
    /// service is a gateway.
    pub fn node_role(self) -> (out: NodeRole)
        ensures
            out == runtime_node_role(self),
    {
        match self {
            RuntimeRole::Service => NodeRole::Gateway,
            RuntimeRole::Miner => NodeRole::Miner,
            RuntimeRole::Validator => NodeRole::Validator,
            RuntimeRole::Proposer => NodeRole::Proposer,
        }
    }
}

/// The settings a role run is started with.
#[derive(Clone, Copy, Debug)]
pub struct RoleServiceConfig<'a> {
    pub wallet: &'a str,
    pub device: Option<&'a str>,
    pub node: &'a str,
    pub listen: &'a str,
    pub p2p_listen: &'a str,
    pub data_dir: &'a str,
    pub identity_seed: Option<[u8; 32]>,
    pub auth_token: &'a str,
    pub max_requests: usize,
}

/// Which role loop runs.
#[derive(Clone, Copy, Debug, PartialEq, Eq, Structural)]
pub enum RoleRunLoopKind {
    Miner,
    Validator,
    Proposer,
}

/// The loop of a miner, validator or proposer run.
#[derive(Clone, Copy, Debug, PartialEq, Eq, Structural)]
pub struct RoleRunLoop {
    pub kind: RoleRunLoopKind,
}

pub open spec fn run_loop_command(kind: RoleRunLoopKind) -> Seq<char> {
    match kind {
        RoleRunLoopKind::Miner => "miner_run"@,
        RoleRunLoopKind::Validator => "validator_run"@,
        RoleRunLoopKind::Proposer => "proposer_run"@,
    }
}

pub open spec fn run_loop_role(kind: RoleRunLoopKind) -> RuntimeRole {
    match kind {
        RoleRunLoopKind::Miner => RuntimeRole::Miner,
        RoleRunLoopKind::Validator => RuntimeRole::Validator,
        RoleRunLoopKind::Proposer => RuntimeRole::Proposer,
    }
}

pub open spec fn device_or_unknown(device: Option<&str>) -> Seq<char> {
    match device {
        Some(d) => d@,
        None => "unknown"@,
    }
}

/// The report a role run prints: its command, role, wallet and node (and a
/// miner's device), its readiness lines, then the service's own report.
pub open spec fn spec_format_report(
    kind: RoleRunLoopKind,
    wallet: Seq<char>,
    device: Seq<char>,
    node: Seq<char>,
    service_report: Seq<char>,
) -> Seq<char> {
    match kind {
        RoleRunLoopKind::Miner => "command=miner_run\nrole=miner\nwallet="@ + wallet + "\ndevice="@ + device
            + "\nnode="@ + node + "\nrole_runtime_ready=true\n"@ + service_report,
        RoleRunLoopKind::Validator => "command=validator_run\nrole=validator\nwallet="@ + wallet + "\nnode="@ + node
            + "\nreference_verifier_ready=true\nrole_runtime_ready=true\n"@ + service_report,
        RoleRunLoopKind::Proposer => "command=proposer_run\nrole=proposer\nwallet="@ + wallet + "\nnode="@ + node
            + "\nproposer_ready=true\nrole_runtime_ready=true\n"@ + service_report,
    }
}

impl RoleRunLoop {
    pub fn miner() -> (out: Self)
        ensures
            out.kind == RoleRunLoopKind::Miner,
    {
        RoleRunLoop { kind: RoleRunLoopKind::Miner }
    }

    pub fn validator() -> (out: Self)
        ensures
            out.kind == RoleRunLoopKind::Validator,
    {
        RoleRunLoop { kind: RoleRunLoopKind::Validator }
    }

    pub fn proposer() -> (out: Self)
        ensures
            out.kind == RoleRunLoopKind::Proposer,
    {
        RoleRunLoop { kind: RoleRunLoopKind::Proposer }
    }

    /// The command the run reports itself as.
    pub fn runtime_command(self) -> (out: &'static str)
        ensures
            out@ == run_loop_command(self.kind),
    {
        match self.kind {
            RoleRunLoopKind::Miner => "miner_run",
            RoleRunLoopKind::Validator => "validator_run",
            RoleRunLoopKind::Proposer => "proposer_run",
        }
    }

    pub fn runtime_role(self) -> (out: RuntimeRole)
        ensures
            out == run_loop_role(self.kind),
    {
        match self.kind {
            RoleRunLoopKind::Miner => RuntimeRole::Miner,
            RoleRunLoopKind::Validator => RuntimeRole::Validator,
            RoleRunLoopKind::Proposer => RuntimeRole::Proposer,
        }
    }

    pub fn format_report(self, config: &RoleServiceConfig, service_report: &str) -> (out: String)
        ensures
            out@ == spec_format_report(
                self.kind,
                config.wallet@,
                device_or_unknown(config.device),
                config.node@,
                service_report@,
            ),
    {
        let mut out = String::new();
        match self.kind {
            RoleRunLoopKind::Miner => {
                let device = match config.device {
                    Some(d) => d,
                    None => "unknown",
                };
                out.append("command=miner_run\nrole=miner\nwallet=");
                out.append(config.wallet);
                out.append("\ndevice=");
                out.append(device);
                out.append("\nnode=");
                out.append(config.node);
                out.append("\nrole_runtime_ready=true\n");
            },
            RoleRunLoopKind::Validator => {
                out.append("command=validator_run\nrole=validator\nwallet=");
                out.append(config.wallet);
                out.append("\nnode=");
                out.append(config.node);
                out.append("\nreference_verifier_ready=true\nrole_runtime_ready=true\n");
            },
            RoleRunLoopKind::Proposer => {
                out.append("command=proposer_run\nrole=proposer\nwallet=");
                out.append(config.wallet);
                out.append("\nnode=");
                out.append(config.node);
                out.append("\nproposer_ready=true\nrole_runtime_ready=true\n");
            },
        }
        out.append(service_report);
        proof {
            assert(Seq::<char>::empty() + "command=miner_run\nrole=miner\nwallet="@ =~= "command=miner_run\nrole=miner\nwallet="@);
            assert(Seq::<char>::empty() + "command=validator_run\nrole=validator\nwallet="@
                =~= "command=validator_run\nrole=validator\nwallet="@);
            assert(Seq::<char>::empty() + "command=proposer_run\nrole=proposer\nwallet="@
                =~= "command=proposer_run\nrole=proposer\nwallet="@);
        }
        out
    }
}

/// The address a role's wallet argument names: the address of the trimmed
/// text, which must not be empty.
pub fn role_wallet_address(wallet: &str) -> (out: Result<Address, String>)
    ensures
        trim_ws(wallet@).len() == 0 ==> (out matches Err(e) && e@ == "wallet argument is empty"@),
        trim_ws(wallet@).len() > 0 ==> (out matches Ok(a) && a@ == spec_address(encode_utf8(trim_ws(wallet@)))),
{
    let wallet = trim(wallet);
    if wallet.unicode_len() == 0 {
        return Err("wallet argument is empty".to_owned());
    }
    Ok(address(wallet.as_bytes()))
}

/// The wallet address a status shows: its hex, or `none`.
pub fn runtime_role_wallet_address_text(address: Option<Address>) -> (out: String)
    ensures
        match address {
            Some(a) => out@ == spec_hex(a@),
            None => out@ == "none"@,
        },
{
    match address {
        Some(a) => hex(&a),
        None => "none".to_owned(),
    }
}

/// Whether a setting turns local block production on: `1`, `true`, `TRUE`,
/// `yes` or `YES`.
pub open spec fn producer_flag_on(value: Option<Seq<char>>) -> bool {
    match value {
        Some(v) => v == "1"@ || v == "true"@ || v == "TRUE"@ || v == "yes"@ || v == "YES"@,
        None => false,
    }
}

pub fn local_block_producer_enabled(value: Option<&str>) -> (out: bool)
    ensures
        out == producer_flag_on(
            match value {
                Some(v) => Some(v@),
                None => None,
            },
        ),
{
    match value {
        Some(v) => str_eq(v, "1") || str_eq(v, "true") || str_eq(v, "TRUE") || str_eq(v, "yes") || str_eq(v, "YES"),
        None => false,
    }
}

/// The block interval in milliseconds a setting gives: a `u64` above zero.
pub fn block_interval_millis(value: Option<&str>) -> (out: Option<u64>)
    ensures
        match value {
            Some(v) => match spec_parse_unsigned(encode_utf8(v@), u64::MAX as nat) {
                Some(m) => out == (if m > 0 { Some(m as u64) } else { None::<u64> }),
                None => out is None,
            },
            None => out is None,
        },
{
    match value {
        Some(v) => match parse_u64_text(v.as_bytes()) {
            Some(m) => if m > 0 { Some(m) } else { None },
            None => None,
        },
        None => None,
    }
}

/// The hex texts of hashes joined by commas.
pub open spec fn joined_hex(hashes: Seq<Seq<u8>>) -> Seq<char>
    decreases hashes.len(),
{
    if hashes.len() == 0 {
        Seq::empty()
    } else if hashes.len() == 1 {
        spec_hex(hashes[0])
    } else {
        joined_hex(hashes.drop_last()) + ","@ + spec_hex(hashes.last())
    }
}

/// A status list of hashes: their hex texts joined by commas, or `none`.
pub open spec fn spec_hex_hash_list(hashes: Seq<Seq<u8>>) -> Seq<char> {
    if hashes.len() == 0 {
        "none"@
    } else {
        joined_hex(hashes)
    }
}

pub fn hex_hash_list(hashes: &[Hash32]) -> (out: String)
    ensures
        out@ == spec_hex_hash_list(hashes@.map_values(|h: Hash32| h@)),
{
    let ghost hs = hashes@.map_values(|h: Hash32| h@);
    if hashes.len() == 0 {
        return "none".to_owned();
    }
    let mut out = hex(&hashes[0]);
    assert(hs.take(1).drop_last() =~= Seq::<Seq<u8>>::empty());
    let mut i: usize = 1;
    while i < hashes.len()
        invariant
            hs == hashes@.map_values(|h: Hash32| h@),
            1 <= i <= hashes@.len(),
            out@ == joined_hex(hs.take(i as int)),
        decreases hashes@.len() - i,
    {
        out.append(",");
        let h = hex(&hashes[i]);
        out.append(h.as_str());
        proof {
            assert(hs.take(i + 1).drop_last() =~= hs.take(i as int));
            assert(hs.take(i + 1).last() == hashes@[i as int]@);
        }
        i += 1;
    }
    assert(hs.take(hashes@.len() as int) =~= hs);
    out
}

/// The value of `key` in a status text: what follows `key=` on the first
/// line that begins so.
pub open spec fn first_field_value(ls: Seq<Seq<char>>, key: Seq<char>) -> Option<Seq<char>>
    decreases ls.len(),
{
    if ls.len() == 0 {
        None
    } else {
        let l = ls[0];
        if l.len() > key.len() && l.subrange(0, key.len() as int) == key && l[key.len() as int] == '=' {
            Some(l.subrange(key.len() as int + 1, l.len() as int))
        } else {
            first_field_value(ls.drop_first(), key)
        }
    }
}

/// The value a status file gives `key`, or `unknown`.
pub open spec fn spec_status_field(contents: Seq<char>, key: Seq<char>) -> Seq<char> {
    match first_field_value(text_lines(contents), key) {
        Some(v) => v,
        None => "unknown"@,
    }
}

pub fn status_field(contents: &str, key: &str) -> (out: String)
    ensures
        out@ == spec_status_field(contents@, key@),
{
    let all = lines(contents);
    let ghost views = all@.map_values(|w: &str| w@);
    let k = key.unicode_len();
    let mut i: usize = 0;
    assert(views.skip(0) =~= views);
    while i < all.len()
        invariant
            views == all@.map_values(|w: &str| w@),
            views == text_lines(contents@),
            k == key@.len(),
            i <= all@.len(),
            first_field_value(views.skip(i as int), key@) == first_field_value(views, key@),
        decreases all@.len() - i,
    {
        let line = all[i];
        assert(views.skip(i as int)[0] == line@);
        assert(views.skip(i as int).drop_first() =~= views.skip(i + 1));
        let n = line.unicode_len();
        if n > k && str_eq(line.substring_char(0, k), key) && line.get_char(k) == '=' {
            return line.substring_char(k + 1, n).to_owned();
        }
        i += 1;
    }
    assert(views.skip(all@.len() as int) =~= Seq::<Seq<char>>::empty());
    "unknown".to_owned()
}


/// The stake needed for finality: the share `numerator / denominator` of
/// the total validator stake, rounded up, each step saturating at
/// `u64::MAX`; a zero denominator counts as one.
pub open spec fn spec_finality_threshold_stake(numerator: u64, denominator: u64, total_validator_stake: u64) -> u64 {
    let d: u64 = if denominator == 0 { 1 } else { denominator };
    let product: u64 = if total_validator_stake * numerator > u64::MAX { u64::MAX } else { (total_validator_stake * numerator) as u64 };
    let sum: u64 = if product + (d - 1) > u64::MAX { u64::MAX } else { (product + (d - 1)) as u64 };
    (sum / d) as u64
}

/// The finality threshold for the chain's finality share
/// `numerator / denominator`.
pub fn finality_threshold_stake(numerator: u64, denominator: u64, total_validator_stake: u64) -> (out: u64)
    ensures
        out == spec_finality_threshold_stake(numerator, denominator, total_validator_stake),
{
    let denominator = if denominator > 1 { denominator } else { 1 };
    let product = match total_validator_stake.checked_mul(numerator) {
        Some(p) => p,
        None => u64::MAX,
    };
    product.saturating_add(denominator - 1) / denominator
}

} // verus!
