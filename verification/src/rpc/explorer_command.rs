//! The commands the explorer's websocket takes: a bare keyword, or a JSON
//! object whose `type` names the view and whose limits size it.

use vstd::prelude::*;
use vstd::string::StrSliceExecFns;
use crate::rpc::http::{trim, trim_ws};
use crate::text::str_eq;
use crate::rpc::json::{json_object, json_object_text};

verus! {

/// Whether `serde_json` reads `text` as a JSON value.
pub uninterp spec fn json_text_valid(text: Seq<char>) -> bool;

/// The string member `field` of the JSON value `text` holds: `None` where
/// `text` is no JSON, is not an object, lacks the member or the member is
/// not a string.
pub uninterp spec fn json_str_member(text: Seq<char>, field: Seq<char>) -> Option<Seq<char>>;

/// The member `field` of the JSON value `text` holds, as `serde_json`'s
/// `Value::as_u64` reads it: `None` where `text` is no JSON, is not an
/// object, lacks the member or the member is no number that fits a `u64`.
pub uninterp spec fn json_u64_member(text: Seq<char>, field: Seq<char>) -> Option<u64>;

/// The compact JSON text of the object `{"type": "error", "error": message}`.
pub open spec fn json_error_event(message: Seq<char>) -> Seq<char> {
    json_object(seq![("type"@, "error"@), ("error"@, message)])
}

/// Calls `serde_json::from_str::<Value>`; the contract names whether it
/// succeeds, which depends on the text alone.
#[verifier::external_body]
fn json_parses(text: &str) -> (out: bool)
    ensures
        out == json_text_valid(text@),
{
    serde_json::from_str::<serde_json::Value>(text).is_ok()
}

/// Calls `serde_json::from_str::<Value>`, then `Value::get` with `field`,
/// keeping the member where it is a `Value::String`; the contract names the
/// result, which depends on the two texts alone.
#[verifier::external_body]
fn json_str_field(text: &str, field: &str) -> (out: Option<String>)
    ensures
        match out {
            Some(s) => json_str_member(text@, field@) == Some(s@),
            None => json_str_member(text@, field@) is None,
        },
{
    let value = match serde_json::from_str::<serde_json::Value>(text) {
        Ok(value) => value,
        Err(_) => return None,
    };
    match value.get(field) {
        Some(serde_json::Value::String(s)) => Some(s.clone()),
        _ => None,
    }
}

/// Calls `serde_json::from_str::<Value>`, then `Value::get` with `field`
/// and `Value::as_u64`; the contract names the result, which depends on the
/// two texts alone.
#[verifier::external_body]
fn json_u64_field(text: &str, field: &str) -> (out: Option<u64>)
    ensures
        out == json_u64_member(text@, field@),
{
    let value = match serde_json::from_str::<serde_json::Value>(text) {
        Ok(value) => value,
        Err(_) => return None,
    };
    match value.get(field) {
        Some(member) => member.as_u64(),
        None => None,
    }
}

/// A command of the explorer's websocket.
#[derive(Clone, Debug, PartialEq, Eq)]
pub enum ExplorerWebsocketCommand {
    Account { address: Option<String> },
    Summary,
    Miners,
    Validators,
    Jobs { limit: usize },
    Receipts { limit: usize },
    Blocks { limit: usize },
    Overview { block_limit: usize, receipt_limit: usize, job_limit: usize },
}

/// A command as the contracts see it.
pub enum ExplorerCommandView {
    Account { address: Option<Seq<char>> },
    Summary,
    Miners,
    Validators,
    Jobs { limit: usize },
    Receipts { limit: usize },
    Blocks { limit: usize },
    Overview { block_limit: usize, receipt_limit: usize, job_limit: usize },
}

impl View for ExplorerWebsocketCommand {
    type V = ExplorerCommandView;

    open spec fn view(&self) -> ExplorerCommandView {
        match self {
            ExplorerWebsocketCommand::Account { address } => ExplorerCommandView::Account {
                address: match address {
                    Some(a) => Some(a@),
                    None => None,
                },
            },
            ExplorerWebsocketCommand::Summary => ExplorerCommandView::Summary,
            ExplorerWebsocketCommand::Miners => ExplorerCommandView::Miners,
            ExplorerWebsocketCommand::Validators => ExplorerCommandView::Validators,
            ExplorerWebsocketCommand::Jobs { limit } => ExplorerCommandView::Jobs { limit: *limit },
            ExplorerWebsocketCommand::Receipts { limit } => ExplorerCommandView::Receipts { limit: *limit },
            ExplorerWebsocketCommand::Blocks { limit } => ExplorerCommandView::Blocks { limit: *limit },
            ExplorerWebsocketCommand::Overview { block_limit, receipt_limit, job_limit } => ExplorerCommandView::Overview {
                block_limit: *block_limit,
                receipt_limit: *receipt_limit,
                job_limit: *job_limit,
            },
        }
    }
}

/// A limit the command gives in `field`: a JSON number that fits a `usize`.
pub open spec fn spec_command_limit(command: Seq<char>, field: Seq<char>) -> Option<usize> {
    match json_u64_member(command, field) {
        Some(v) => if v <= usize::MAX { Some(v as usize) } else { None },
        None => None,
    }
}

/// A limit, or `default` where the command gives none.
pub open spec fn limit_or(limit: Option<usize>, default: usize) -> usize {
    match limit {
        Some(v) => v,
        None => default,
    }
}

/// The overview with the limits the command gives, each in its default.
pub open spec fn overview_of(command: Seq<char>) -> ExplorerCommandView {
    ExplorerCommandView::Overview {
        block_limit: limit_or(spec_command_limit(command, "block_limit"@), 12),
        receipt_limit: limit_or(spec_command_limit(command, "receipt_limit"@), 20),
        job_limit: limit_or(spec_command_limit(command, "job_limit"@), 20),
    }
}

/// What a websocket text asks for. A bare keyword (whitespace at either end
/// ignored) names a view with its default limit; otherwise the text is read
/// as JSON, whose `type` member picks the view and whose limit members size
/// it. Text that is no JSON asks for the default overview, and a JSON value
/// with no known `type` for the overview sized by its limits.
pub open spec fn spec_explorer_command(command: Seq<char>) -> ExplorerCommandView {
    let t = trim_ws(command);
    if t == "summary"@ {
        ExplorerCommandView::Summary
    } else if t == "miners"@ {
        ExplorerCommandView::Miners
    } else if t == "validators"@ {
        ExplorerCommandView::Validators
    } else if t == "jobs"@ {
        ExplorerCommandView::Jobs { limit: 50 }
    } else if t == "receipts"@ {
        ExplorerCommandView::Receipts { limit: 50 }
    } else if t == "blocks"@ {
        ExplorerCommandView::Blocks { limit: 25 }
    } else if !json_text_valid(command) {
        ExplorerCommandView::Overview { block_limit: 12, receipt_limit: 20, job_limit: 20 }
    } else {
        let kind = json_str_member(command, "type"@);
        if kind == Some("account"@) {
            ExplorerCommandView::Account { address: json_str_member(command, "address"@) }
        } else if kind == Some("summary"@) {
            ExplorerCommandView::Summary
        } else if kind == Some("miners"@) {
            ExplorerCommandView::Miners
        } else if kind == Some("validators"@) {
            ExplorerCommandView::Validators
        } else if kind == Some("jobs"@) {
            ExplorerCommandView::Jobs { limit: limit_or(spec_command_limit(command, "job_limit"@), 50) }
        } else if kind == Some("receipts"@) {
            ExplorerCommandView::Receipts { limit: limit_or(spec_command_limit(command, "receipt_limit"@), 50) }
        } else if kind == Some("blocks"@) {
            ExplorerCommandView::Blocks { limit: limit_or(spec_command_limit(command, "block_limit"@), 25) }
        } else {
            overview_of(command)
        }
    }
}

/// Whether a command is written as a JSON object: once trimmed, it opens
/// with a brace.
pub open spec fn object_text(command: Seq<char>) -> bool {
    trim_ws(command).len() > 0 && trim_ws(command)[0] == '{'
}

proof fn lemma_object_text_is_no_keyword(command: Seq<char>)
    requires
        object_text(command),
    ensures
        trim_ws(command) != "summary"@,
        trim_ws(command) != "miners"@,
        trim_ws(command) != "validators"@,
        trim_ws(command) != "jobs"@,
        trim_ws(command) != "receipts"@,
        trim_ws(command) != "blocks"@,
{
    reveal_strlit("summary");
    reveal_strlit("miners");
    reveal_strlit("validators");
    reveal_strlit("jobs");
    reveal_strlit("receipts");
    reveal_strlit("blocks");
}

/// The names of the views differ: each opens with its own letter.
proof fn lemma_view_names_differ()
    ensures
        "account"@ != "summary"@,
        "account"@ != "miners"@,
        "account"@ != "validators"@,
        "account"@ != "jobs"@,
        "account"@ != "receipts"@,
        "account"@ != "blocks"@,
        "summary"@ != "miners"@,
        "summary"@ != "validators"@,
        "summary"@ != "jobs"@,
        "summary"@ != "receipts"@,
        "summary"@ != "blocks"@,
        "miners"@ != "validators"@,
        "miners"@ != "jobs"@,
        "miners"@ != "receipts"@,
        "miners"@ != "blocks"@,
        "validators"@ != "jobs"@,
        "validators"@ != "receipts"@,
        "validators"@ != "blocks"@,
        "jobs"@ != "receipts"@,
        "jobs"@ != "blocks"@,
        "receipts"@ != "blocks"@,
{
    reveal_strlit("account");
    reveal_strlit("summary");
    reveal_strlit("miners");
    reveal_strlit("validators");
    reveal_strlit("jobs");
    reveal_strlit("receipts");
    reveal_strlit("blocks");
    assert("account"@[0] == 'a');
    assert("summary"@[0] == 's');
    assert("miners"@[0] == 'm');
    assert("validators"@[0] == 'v');
    assert("jobs"@[0] == 'j');
    assert("receipts"@[0] == 'r');
    assert("blocks"@[0] == 'b');
}

/// Whether the command's `field` member is a number that fits a `usize`.
pub open spec fn limit_given(command: Seq<char>, field: Seq<char>) -> bool {
    json_u64_member(command, field) matches Some(v) && v <= usize::MAX
}

/// The number the command's `field` member holds.
pub open spec fn limit_value(command: Seq<char>, field: Seq<char>) -> usize {
    (json_u64_member(command, field)->0) as usize
}

/// Whether a `type` names one of the views.
pub open spec fn known_view(kind: Option<Seq<char>>) -> bool {
    kind == Some("blocks"@) || kind == Some("jobs"@) || kind == Some("receipts"@) || kind == Some("account"@)
        || kind == Some("summary"@) || kind == Some("miners"@) || kind == Some("validators"@)
}

/// A JSON command is sized by the limit member of the view it names: a
/// `blocks` command by `block_limit` (25 where it gives none), a `jobs`
/// command by `job_limit` (50), a `receipts` command by `receipt_limit`
/// (50); an `account` command asks for the account its `address` member
/// names; and a command of no known type asks for the overview, sized by
/// all three limits (12, 20, 20). A limit counts where it is a number that
/// fits a `usize`.
pub proof fn lemma_json_command_is_sized_by_its_own_limit(command: Seq<char>)
    requires
        object_text(command),
        json_text_valid(command),
    ensures
        json_str_member(command, "type"@) == Some("blocks"@) && limit_given(command, "block_limit"@)
            ==> spec_explorer_command(command) == (ExplorerCommandView::Blocks { limit: limit_value(command, "block_limit"@) }),
        json_str_member(command, "type"@) == Some("blocks"@) && json_u64_member(command, "block_limit"@) is None
            ==> spec_explorer_command(command) == (ExplorerCommandView::Blocks { limit: 25 }),
        json_str_member(command, "type"@) == Some("jobs"@) && limit_given(command, "job_limit"@)
            ==> spec_explorer_command(command) == (ExplorerCommandView::Jobs { limit: limit_value(command, "job_limit"@) }),
        json_str_member(command, "type"@) == Some("jobs"@) && json_u64_member(command, "job_limit"@) is None
            ==> spec_explorer_command(command) == (ExplorerCommandView::Jobs { limit: 50 }),
        json_str_member(command, "type"@) == Some("receipts"@) && limit_given(command, "receipt_limit"@)
            ==> spec_explorer_command(command) == (ExplorerCommandView::Receipts { limit: limit_value(command, "receipt_limit"@) }),
        json_str_member(command, "type"@) == Some("receipts"@) && json_u64_member(command, "receipt_limit"@) is None
            ==> spec_explorer_command(command) == (ExplorerCommandView::Receipts { limit: 50 }),
        json_str_member(command, "type"@) == Some("account"@)
            ==> spec_explorer_command(command) == (ExplorerCommandView::Account { address: json_str_member(command, "address"@) }),
        json_str_member(command, "type"@) == Some("summary"@) ==> spec_explorer_command(command) == ExplorerCommandView::Summary,
        json_str_member(command, "type"@) == Some("miners"@) ==> spec_explorer_command(command) == ExplorerCommandView::Miners,
        json_str_member(command, "type"@) == Some("validators"@)
            ==> spec_explorer_command(command) == ExplorerCommandView::Validators,
        !known_view(json_str_member(command, "type"@)) && limit_given(command, "block_limit"@)
            && limit_given(command, "receipt_limit"@) && limit_given(command, "job_limit"@)
            ==> spec_explorer_command(command) == (ExplorerCommandView::Overview {
                block_limit: limit_value(command, "block_limit"@),
                receipt_limit: limit_value(command, "receipt_limit"@),
                job_limit: limit_value(command, "job_limit"@),
            }),
{
    lemma_object_text_is_no_keyword(command);
    lemma_view_names_differ();
}

/// Text that is no JSON, and no bare keyword, asks for the default
/// overview.
pub proof fn lemma_unreadable_command_is_default_overview(command: Seq<char>)
    requires
        object_text(command),
        !json_text_valid(command),
    ensures
        spec_explorer_command(command) == (ExplorerCommandView::Overview { block_limit: 12, receipt_limit: 20, job_limit: 20 }),
{
    lemma_object_text_is_no_keyword(command);
}

/// The limit a command gives in `field`, where it is a number that fits a
/// `usize`.
pub fn command_limit(command: &str, field: &str) -> (out: Option<usize>)
    ensures
        out == spec_command_limit(command@, field@),
{
    match json_u64_field(command, field) {
        Some(v) => if v <= usize::MAX as u64 { Some(v as usize) } else { None },
        None => None,
    }
}

fn kind_is(kind: &Option<String>, name: &str) -> (b: bool)
    ensures
        b == (match kind {
            Some(k) => k@ == name@,
            None => false,
        }),
{
    match kind {
        Some(k) => str_eq(k.as_str(), name),
        None => false,
    }
}

fn limit_or_default(limit: Option<usize>, default: usize) -> (out: usize)
    ensures
        out == limit_or(limit, default),
{
    match limit {
        Some(v) => v,
        None => default,
    }
}

impl ExplorerWebsocketCommand {
    /// The overview with the default limits.
    pub fn default_overview() -> (out: Self)
        ensures
            out@ == (ExplorerCommandView::Overview { block_limit: 12, receipt_limit: 20, job_limit: 20 }),
    {
        ExplorerWebsocketCommand::Overview { block_limit: 12, receipt_limit: 20, job_limit: 20 }
    }

    /// Reads a websocket text as a command.
    pub fn parse(command: &str) -> (out: Self)
        ensures
            out@ == spec_explorer_command(command@),
    {
        let t = trim(command);
        if str_eq(t, "summary") {
            return ExplorerWebsocketCommand::Summary;
        } else if str_eq(t, "miners") {
            return ExplorerWebsocketCommand::Miners;
        } else if str_eq(t, "validators") {
            return ExplorerWebsocketCommand::Validators;
        } else if str_eq(t, "jobs") {
            return ExplorerWebsocketCommand::Jobs { limit: 50 };
        } else if str_eq(t, "receipts") {
            return ExplorerWebsocketCommand::Receipts { limit: 50 };
        } else if str_eq(t, "blocks") {
            return ExplorerWebsocketCommand::Blocks { limit: 25 };
        }
        if !json_parses(command) {
            return Self::default_overview();
        }
        let kind = json_str_field(command, "type");
        if kind_is(&kind, "account") {
            ExplorerWebsocketCommand::Account { address: json_str_field(command, "address") }
        } else if kind_is(&kind, "summary") {
            ExplorerWebsocketCommand::Summary
        } else if kind_is(&kind, "miners") {
            ExplorerWebsocketCommand::Miners
        } else if kind_is(&kind, "validators") {
            ExplorerWebsocketCommand::Validators
        } else if kind_is(&kind, "jobs") {
            ExplorerWebsocketCommand::Jobs { limit: limit_or_default(command_limit(command, "job_limit"), 50) }
        } else if kind_is(&kind, "receipts") {
            ExplorerWebsocketCommand::Receipts { limit: limit_or_default(command_limit(command, "receipt_limit"), 50) }
        } else if kind_is(&kind, "blocks") {
            ExplorerWebsocketCommand::Blocks { limit: limit_or_default(command_limit(command, "block_limit"), 25) }
        } else {
            ExplorerWebsocketCommand::Overview {
                block_limit: limit_or_default(command_limit(command, "block_limit"), 12),
                receipt_limit: limit_or_default(command_limit(command, "receipt_limit"), 20),
                job_limit: limit_or_default(command_limit(command, "job_limit"), 20),
            }
        }
    }
}

/// The error event the websocket sends: `{"type":"error","error":...}`.
pub fn explorer_websocket_error(error: &str) -> (out: String)
    ensures
        out@ == json_error_event(error@),
{
    let entries = vec![("type", "error"), ("error", error)];
    assert(entries@.map_values(|e: (&str, &str)| (e.0@, e.1@)) =~= seq![("type"@, "error"@), ("error"@, error@)]);
    json_object_text(entries.as_slice())
}

} // verus!
