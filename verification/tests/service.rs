use tensor_vm::hash::hex;
use tensor_vm::profile::NodeRole;
use tensor_vm::service::{
    block_interval_millis, finality_threshold_stake, hex_hash_list, local_block_producer_enabled, role_wallet_address,
    runtime_role_wallet_address_text, status_field, RoleRunLoop, RoleServiceConfig, RuntimeRole,
};
use tensor_vm::types::address;
use tensor_vm::validator::ValidatorNode;

fn config<'a>(device: Option<&'a str>) -> RoleServiceConfig<'a> {
    RoleServiceConfig {
        wallet: "miner-wallet",
        device,
        node: "http://127.0.0.1:8545",
        listen: "127.0.0.1:0",
        p2p_listen: "/ip4/127.0.0.1/tcp/0",
        data_dir: "/tmp/tvm",
        identity_seed: None,
        auth_token: "",
        max_requests: 1,
    }
}

#[test]
fn runtime_roles_name_their_node_roles() {
    assert_eq!(RuntimeRole::Service.label(), "service");
    assert_eq!(RuntimeRole::Proposer.label(), "proposer");
    assert_eq!(RuntimeRole::Service.node_role(), NodeRole::Gateway);
    assert_eq!(RuntimeRole::Miner.node_role(), NodeRole::Miner);
    assert_eq!(RuntimeRole::Validator.node_role(), NodeRole::Validator);
    assert_eq!(RuntimeRole::Proposer.node_role(), NodeRole::Proposer);
    assert_eq!(RoleRunLoop::miner().runtime_command(), "miner_run");
    assert_eq!(RoleRunLoop::validator().runtime_role(), RuntimeRole::Validator);
    assert_eq!(RoleRunLoop::proposer().runtime_command(), "proposer_run");
}

#[test]
fn role_reports_list_the_run_then_the_service_report() {
    assert_eq!(
        RoleRunLoop::miner().format_report(&config(Some("cuda:0")), "served=1"),
        "command=miner_run\nrole=miner\nwallet=miner-wallet\ndevice=cuda:0\nnode=http://127.0.0.1:8545\nrole_runtime_ready=true\nserved=1"
    );
    assert_eq!(
        RoleRunLoop::miner().format_report(&config(None), ""),
        "command=miner_run\nrole=miner\nwallet=miner-wallet\ndevice=unknown\nnode=http://127.0.0.1:8545\nrole_runtime_ready=true\n"
    );
    assert_eq!(
        RoleRunLoop::validator().format_report(&config(None), "x"),
        "command=validator_run\nrole=validator\nwallet=miner-wallet\nnode=http://127.0.0.1:8545\nreference_verifier_ready=true\nrole_runtime_ready=true\nx"
    );
    assert_eq!(
        RoleRunLoop::proposer().format_report(&config(None), "y"),
        "command=proposer_run\nrole=proposer\nwallet=miner-wallet\nnode=http://127.0.0.1:8545\nproposer_ready=true\nrole_runtime_ready=true\ny"
    );
}

#[test]
fn role_wallets_are_trimmed_and_must_not_be_empty() {
    assert_eq!(role_wallet_address("  alice \n"), Ok(address(b"alice")));
    assert_eq!(role_wallet_address(" \t "), Err("wallet argument is empty".to_owned()));
    assert_eq!(runtime_role_wallet_address_text(None), "none");
    let a = address(b"alice");
    assert_eq!(runtime_role_wallet_address_text(Some(a)), hex(&a));
}

#[test]
fn runtime_settings_are_read_strictly() {
    for on in ["1", "true", "TRUE", "yes", "YES"] {
        assert!(local_block_producer_enabled(Some(on)));
    }
    assert!(!local_block_producer_enabled(Some("True")));
    assert!(!local_block_producer_enabled(None));
    assert_eq!(block_interval_millis(Some("250")), Some(250));
    assert_eq!(block_interval_millis(Some("0")), None);
    assert_eq!(block_interval_millis(Some("-5")), None);
    assert_eq!(block_interval_millis(None), None);
}

#[test]
fn status_lists_and_fields() {
    assert_eq!(hex_hash_list(&[]), "none");
    let a = [0xab; 32];
    let b = [0x01; 32];
    assert_eq!(hex_hash_list(&[a]), hex(&a));
    assert_eq!(hex_hash_list(&[a, b]), format!("{},{}", hex(&a), hex(&b)));
    let contents = "role=miner\nrole_loop_ready=true\nrole=validator\n";
    assert_eq!(status_field(contents, "role"), "miner");
    assert_eq!(status_field(contents, "role_loop_ready"), "true");
    assert_eq!(status_field(contents, "role_loop"), "unknown");
    assert_eq!(status_field("", "role"), "unknown");
    assert_eq!(status_field("role=\n", "role"), "");
}

#[test]
fn finality_threshold_rounds_the_stake_share_up() {
    assert_eq!(finality_threshold_stake(2, 3, 100), 67);
    assert_eq!(finality_threshold_stake(2, 3, 99), 66);
    assert_eq!(finality_threshold_stake(2, 0, 100), 200);
    assert_eq!(finality_threshold_stake(2, 3, 0), 0);
    assert_eq!(finality_threshold_stake(u64::MAX, 2, 3), u64::MAX / 2);
}

#[test]
fn validator_nodes_keep_address_and_stake() {
    let node = ValidatorNode::new(address(b"v"), 40);
    assert_eq!(node.address, address(b"v"));
    assert_eq!(node.stake, 40);
}
