use tensor_vm::rpc::explorer_command::{command_limit, explorer_websocket_error, ExplorerWebsocketCommand};

fn overview(block_limit: usize, receipt_limit: usize, job_limit: usize) -> ExplorerWebsocketCommand {
    ExplorerWebsocketCommand::Overview { block_limit, receipt_limit, job_limit }
}

#[test]
fn explorer_keywords_pick_views_with_default_limits() {
    assert_eq!(ExplorerWebsocketCommand::parse("summary"), ExplorerWebsocketCommand::Summary);
    assert_eq!(ExplorerWebsocketCommand::parse("  miners\n"), ExplorerWebsocketCommand::Miners);
    assert_eq!(ExplorerWebsocketCommand::parse("validators"), ExplorerWebsocketCommand::Validators);
    assert_eq!(ExplorerWebsocketCommand::parse("jobs"), ExplorerWebsocketCommand::Jobs { limit: 50 });
    assert_eq!(ExplorerWebsocketCommand::parse("receipts"), ExplorerWebsocketCommand::Receipts { limit: 50 });
    assert_eq!(ExplorerWebsocketCommand::parse("\tblocks "), ExplorerWebsocketCommand::Blocks { limit: 25 });
}

#[test]
fn explorer_json_commands_carry_their_limits() {
    assert_eq!(
        ExplorerWebsocketCommand::parse(r#"{"type":"jobs","job_limit":7}"#),
        ExplorerWebsocketCommand::Jobs { limit: 7 }
    );
    assert_eq!(
        ExplorerWebsocketCommand::parse(r#"{"type":"receipts","receipt_limit":-1}"#),
        ExplorerWebsocketCommand::Receipts { limit: 50 }
    );
    assert_eq!(
        ExplorerWebsocketCommand::parse(r#"{"type":"blocks"}"#),
        ExplorerWebsocketCommand::Blocks { limit: 25 }
    );
    assert_eq!(
        ExplorerWebsocketCommand::parse(r#"{"type":"account","address":"ab12"}"#),
        ExplorerWebsocketCommand::Account { address: Some("ab12".to_owned()) }
    );
    assert_eq!(
        ExplorerWebsocketCommand::parse(r#"{"type":"account","address":5}"#),
        ExplorerWebsocketCommand::Account { address: None }
    );
    assert_eq!(ExplorerWebsocketCommand::parse(r#"{"type":"summary"}"#), ExplorerWebsocketCommand::Summary);
}

#[test]
fn explorer_other_texts_ask_for_the_overview() {
    assert_eq!(ExplorerWebsocketCommand::parse("not json"), overview(12, 20, 20));
    assert_eq!(ExplorerWebsocketCommand::parse("[1,2]"), overview(12, 20, 20));
    assert_eq!(
        ExplorerWebsocketCommand::parse(r#"{"type":"weird","block_limit":3,"job_limit":4}"#),
        overview(3, 20, 4)
    );
    assert_eq!(ExplorerWebsocketCommand::parse(r#"{"receipt_limit":9}"#), overview(12, 9, 20));
    assert_eq!(ExplorerWebsocketCommand::default_overview(), overview(12, 20, 20));
}

#[test]
fn explorer_limits_and_errors() {
    assert_eq!(command_limit(r#"{"job_limit":3}"#, "job_limit"), Some(3));
    assert_eq!(command_limit(r#"{"job_limit":"3"}"#, "job_limit"), None);
    assert_eq!(command_limit("nope", "job_limit"), None);
    assert_eq!(
        explorer_websocket_error("missing account address"),
        r#"{"error":"missing account address","type":"error"}"#
    );
}
